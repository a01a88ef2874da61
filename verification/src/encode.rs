//! The encoder: integer to numeral string.
//!
//! The encoder walks the tiers from the highest down, emits the standard
//! subtractive digit pattern for each tier's decimal digit, and
//! concatenates the glyph strings highest tier first.

use vstd::prelude::*;

use crate::errors::EncodeError;
use crate::glyphs::{
    glyph_chars, pow10, pow10_u64, tier_five, tier_ten, tier_unit, GlyphId,
    lemma_pow10_pos,
};
use crate::seq_util::{concat_all, lemma_concat_all_append, lemma_concat_all_cons,
    lemma_concat_all_one};
use vstd::string::StringExecFns;

verus! {

/// The glyph pattern of one decimal digit, over a glyph triple
/// `(unit, five, ten)`: 1..=3 repeat the unit, 4 subtracts the unit from
/// the five, 5..=8 add units to the five, and 9 subtracts the unit from
/// the ten.  Digits outside 1..=9 give the empty pattern.
pub open spec fn repeat_pattern(u: Seq<char>, f: Seq<char>, x: Seq<char>, d: int) -> Seq<char> {
    if d == 1 {
        u
    } else if d == 2 {
        u + u
    } else if d == 3 {
        u + u + u
    } else if d == 4 {
        u + f
    } else if d == 5 {
        f
    } else if d == 6 {
        f + u
    } else if d == 7 {
        f + u + u
    } else if d == 8 {
        f + u + u + u
    } else if d == 9 {
        u + x
    } else {
        Seq::<char>::empty()
    }
}

/// The same digit pattern as a sequence of glyph identities at tier `t`.
pub open spec fn pattern_ids(d: int, t: int) -> Seq<GlyphId> {
    let u = tier_unit(t);
    let f = tier_five(t);
    let x = tier_ten(t);
    if d == 1 {
        seq![u]
    } else if d == 2 {
        seq![u, u]
    } else if d == 3 {
        seq![u, u, u]
    } else if d == 4 {
        seq![u, f]
    } else if d == 5 {
        seq![f]
    } else if d == 6 {
        seq![f, u]
    } else if d == 7 {
        seq![f, u, u]
    } else if d == 8 {
        seq![f, u, u, u]
    } else if d == 9 {
        seq![u, x]
    } else {
        Seq::<GlyphId>::empty()
    }
}

/// The character sequences of a sequence of glyphs.
pub open spec fn token_strings(ts: Seq<GlyphId>) -> Seq<Seq<char>> {
    ts.map_values(|id: GlyphId| glyph_chars(id))
}

/// The glyphs the encoder emits for `n`, walking tiers `t` down to 0.
pub open spec fn encode_tokens_rec(n: int, t: int) -> Seq<GlyphId>
    decreases t + 1,
{
    if t < 0 {
        Seq::<GlyphId>::empty()
    } else {
        let p = pow10(t as nat) as int;
        pattern_ids(n / p, t) + encode_tokens_rec(n % p, t - 1)
    }
}

/// The glyphs the encoder emits for `n`.
pub open spec fn encode_tokens(n: int) -> Seq<GlyphId> {
    encode_tokens_rec(n, 19)
}

/// The characters the encoder emits for `n`, from tier `t` down.
pub open spec fn encode_chars_rec(n: int, t: int) -> Seq<char> {
    concat_all(token_strings(encode_tokens_rec(n, t)))
}

/// The numeral string of `n`: what `arabic2vinculum` returns for a
/// positive `n`.
pub open spec fn encode_chars(n: int) -> Seq<char> {
    encode_chars_rec(n, 19)
}

pub proof fn lemma_token_strings_append(x: Seq<GlyphId>, y: Seq<GlyphId>)
    ensures
        token_strings(x + y) == token_strings(x) + token_strings(y),
{
    assert(token_strings(x + y) =~= token_strings(x) + token_strings(y));
}

/// The joined pattern glyph strings are the digit pattern over the tier's
/// glyph strings.
pub proof fn lemma_pattern_chars(d: int, t: int)
    ensures
        concat_all(token_strings(pattern_ids(d, t))) == repeat_pattern(
            glyph_chars(tier_unit(t)),
            glyph_chars(tier_five(t)),
            glyph_chars(tier_ten(t)),
            d,
        ),
{
    let u = glyph_chars(tier_unit(t));
    let f = glyph_chars(tier_five(t));
    let x = glyph_chars(tier_ten(t));
    let ts = token_strings(pattern_ids(d, t));
    if d == 1 {
        assert(ts =~= seq![u]);
        lemma_concat_all_one(u);
    } else if d == 2 {
        assert(ts =~= seq![u] + seq![u]);
        lemma_concat_all_cons(u, seq![u]);
        lemma_concat_all_one(u);
    } else if d == 3 {
        assert(ts =~= seq![u] + (seq![u] + seq![u]));
        lemma_concat_all_cons(u, seq![u] + seq![u]);
        lemma_concat_all_cons(u, seq![u]);
        lemma_concat_all_one(u);
        assert(u + (u + u) =~= u + u + u);
    } else if d == 4 {
        assert(ts =~= seq![u] + seq![f]);
        lemma_concat_all_cons(u, seq![f]);
        lemma_concat_all_one(f);
    } else if d == 5 {
        assert(ts =~= seq![f]);
        lemma_concat_all_one(f);
    } else if d == 6 {
        assert(ts =~= seq![f] + seq![u]);
        lemma_concat_all_cons(f, seq![u]);
        lemma_concat_all_one(u);
    } else if d == 7 {
        assert(ts =~= seq![f] + (seq![u] + seq![u]));
        lemma_concat_all_cons(f, seq![u] + seq![u]);
        lemma_concat_all_cons(u, seq![u]);
        lemma_concat_all_one(u);
        assert(f + (u + u) =~= f + u + u);
    } else if d == 8 {
        assert(ts =~= seq![f] + (seq![u] + (seq![u] + seq![u])));
        lemma_concat_all_cons(f, seq![u] + (seq![u] + seq![u]));
        lemma_concat_all_cons(u, seq![u] + seq![u]);
        lemma_concat_all_cons(u, seq![u]);
        lemma_concat_all_one(u);
        assert(f + (u + (u + u)) =~= f + u + u + u);
    } else if d == 9 {
        assert(ts =~= seq![u] + seq![x]);
        lemma_concat_all_cons(u, seq![x]);
        lemma_concat_all_one(x);
    } else {
        assert(ts =~= Seq::<Seq<char>>::empty());
    }
}

/// The glyph triple `(unit, five, ten)` of tier `power_ten`, as string
/// slices.
#[verifier::rlimit(100)]
pub fn tier_glyph_strs(t: u32) -> (r: (&'static str, &'static str, &'static str))
    requires
        t <= 20,
    ensures
        r.0@ == glyph_chars(tier_unit(t as int)),
        r.1@ == glyph_chars(tier_five(t as int)),
        r.2@ == glyph_chars(tier_ten(t as int)),
{
    match t {
        0 => {
            proof {
                reveal_strlit("I");
                reveal_strlit("V");
                reveal_strlit("X");
                assert("I"@ =~= glyph_chars(tier_unit(t as int)));
                assert("V"@ =~= glyph_chars(tier_five(t as int)));
                assert("X"@ =~= glyph_chars(tier_ten(t as int)));
            }
            ("I", "V", "X")
        },
        1 => {
            proof {
                reveal_strlit("X");
                reveal_strlit("L");
                reveal_strlit("C");
                assert("X"@ =~= glyph_chars(tier_unit(t as int)));
                assert("L"@ =~= glyph_chars(tier_five(t as int)));
                assert("C"@ =~= glyph_chars(tier_ten(t as int)));
            }
            ("X", "L", "C")
        },
        2 => {
            proof {
                reveal_strlit("C");
                reveal_strlit("D");
                reveal_strlit("I\u{305}");
                assert("C"@ =~= glyph_chars(tier_unit(t as int)));
                assert("D"@ =~= glyph_chars(tier_five(t as int)));
                assert("I\u{305}"@ =~= glyph_chars(tier_ten(t as int)));
            }
            ("C", "D", "I\u{305}")
        },
        3 => {
            proof {
                reveal_strlit("I\u{305}");
                reveal_strlit("V\u{305}");
                reveal_strlit("X\u{305}");
                assert("I\u{305}"@ =~= glyph_chars(tier_unit(t as int)));
                assert("V\u{305}"@ =~= glyph_chars(tier_five(t as int)));
                assert("X\u{305}"@ =~= glyph_chars(tier_ten(t as int)));
            }
            ("I\u{305}", "V\u{305}", "X\u{305}")
        },
        4 => {
            proof {
                reveal_strlit("X\u{305}");
                reveal_strlit("L\u{305}");
                reveal_strlit("C\u{305}");
                assert("X\u{305}"@ =~= glyph_chars(tier_unit(t as int)));
                assert("L\u{305}"@ =~= glyph_chars(tier_five(t as int)));
                assert("C\u{305}"@ =~= glyph_chars(tier_ten(t as int)));
            }
            ("X\u{305}", "L\u{305}", "C\u{305}")
        },
        5 => {
            proof {
                reveal_strlit("C\u{305}");
                reveal_strlit("D\u{305}");
                reveal_strlit("M\u{305}");
                assert("C\u{305}"@ =~= glyph_chars(tier_unit(t as int)));
                assert("D\u{305}"@ =~= glyph_chars(tier_five(t as int)));
                assert("M\u{305}"@ =~= glyph_chars(tier_ten(t as int)));
            }
            ("C\u{305}", "D\u{305}", "M\u{305}")
        },
        6 => {
            proof {
                reveal_strlit("M\u{305}");
                reveal_strlit("V\u{33f}");
                reveal_strlit("X\u{33f}");
                assert("M\u{305}"@ =~= glyph_chars(tier_unit(t as int)));
                assert("V\u{33f}"@ =~= glyph_chars(tier_five(t as int)));
                assert("X\u{33f}"@ =~= glyph_chars(tier_ten(t as int)));
            }
            ("M\u{305}", "V\u{33f}", "X\u{33f}")
        },
        7 => {
            proof {
                reveal_strlit("X\u{33f}");
                reveal_strlit("L\u{33f}");
                reveal_strlit("C\u{33f}");
                assert("X\u{33f}"@ =~= glyph_chars(tier_unit(t as int)));
                assert("L\u{33f}"@ =~= glyph_chars(tier_five(t as int)));
                assert("C\u{33f}"@ =~= glyph_chars(tier_ten(t as int)));
            }
            ("X\u{33f}", "L\u{33f}", "C\u{33f}")
        },
        8 => {
            proof {
                reveal_strlit("C\u{33f}");
                reveal_strlit("D\u{33f}");
                reveal_strlit("M\u{33f}");
                assert("C\u{33f}"@ =~= glyph_chars(tier_unit(t as int)));
                assert("D\u{33f}"@ =~= glyph_chars(tier_five(t as int)));
                assert("M\u{33f}"@ =~= glyph_chars(tier_ten(t as int)));
            }
            ("C\u{33f}", "D\u{33f}", "M\u{33f}")
        },
        9 => {
            proof {
                reveal_strlit("I\u{332}\u{33f}");
                reveal_strlit("V\u{332}\u{33f}");
                reveal_strlit("X\u{332}\u{33f}");
                assert("I\u{332}\u{33f}"@ =~= glyph_chars(tier_unit(t as int)));
                assert("V\u{332}\u{33f}"@ =~= glyph_chars(tier_five(t as int)));
                assert("X\u{332}\u{33f}"@ =~= glyph_chars(tier_ten(t as int)));
            }
            ("I\u{332}\u{33f}", "V\u{332}\u{33f}", "X\u{332}\u{33f}")
        },
        10 => {
            proof {
                reveal_strlit("X\u{332}\u{33f}");
                reveal_strlit("L\u{332}\u{33f}");
                reveal_strlit("C\u{332}\u{33f}");
                assert("X\u{332}\u{33f}"@ =~= glyph_chars(tier_unit(t as int)));
                assert("L\u{332}\u{33f}"@ =~= glyph_chars(tier_five(t as int)));
                assert("C\u{332}\u{33f}"@ =~= glyph_chars(tier_ten(t as int)));
            }
            ("X\u{332}\u{33f}", "L\u{332}\u{33f}", "C\u{332}\u{33f}")
        },
        11 => {
            proof {
                reveal_strlit("C\u{332}\u{33f}");
                reveal_strlit("D\u{332}\u{33f}");
                reveal_strlit("M\u{332}\u{33f}");
                assert("C\u{332}\u{33f}"@ =~= glyph_chars(tier_unit(t as int)));
                assert("D\u{332}\u{33f}"@ =~= glyph_chars(tier_five(t as int)));
                assert("M\u{332}\u{33f}"@ =~= glyph_chars(tier_ten(t as int)));
            }
            ("C\u{332}\u{33f}", "D\u{332}\u{33f}", "M\u{332}\u{33f}")
        },
        12 => {
            proof {
                reveal_strlit("I\u{333}\u{33f}");
                reveal_strlit("V\u{333}\u{33f}");
                reveal_strlit("X\u{333}\u{33f}");
                assert("I\u{333}\u{33f}"@ =~= glyph_chars(tier_unit(t as int)));
                assert("V\u{333}\u{33f}"@ =~= glyph_chars(tier_five(t as int)));
                assert("X\u{333}\u{33f}"@ =~= glyph_chars(tier_ten(t as int)));
            }
            ("I\u{333}\u{33f}", "V\u{333}\u{33f}", "X\u{333}\u{33f}")
        },
        13 => {
            proof {
                reveal_strlit("X\u{333}\u{33f}");
                reveal_strlit("L\u{333}\u{33f}");
                reveal_strlit("C\u{333}\u{33f}");
                assert("X\u{333}\u{33f}"@ =~= glyph_chars(tier_unit(t as int)));
                assert("L\u{333}\u{33f}"@ =~= glyph_chars(tier_five(t as int)));
                assert("C\u{333}\u{33f}"@ =~= glyph_chars(tier_ten(t as int)));
            }
            ("X\u{333}\u{33f}", "L\u{333}\u{33f}", "C\u{333}\u{33f}")
        },
        14 => {
            proof {
                reveal_strlit("C\u{333}\u{33f}");
                reveal_strlit("D\u{333}\u{33f}");
                reveal_strlit("M\u{333}\u{33f}");
                assert("C\u{333}\u{33f}"@ =~= glyph_chars(tier_unit(t as int)));
                assert("D\u{333}\u{33f}"@ =~= glyph_chars(tier_five(t as int)));
                assert("M\u{333}\u{33f}"@ =~= glyph_chars(tier_ten(t as int)));
            }
            ("C\u{333}\u{33f}", "D\u{333}\u{33f}", "M\u{333}\u{33f}")
        },
        15 => {
            proof {
                reveal_strlit("I\u{20d2}\u{333}\u{33f}");
                reveal_strlit("V\u{20d2}\u{333}\u{33f}");
                reveal_strlit("X\u{20d2}\u{333}\u{33f}");
                assert("I\u{20d2}\u{333}\u{33f}"@ =~= glyph_chars(tier_unit(t as int)));
                assert("V\u{20d2}\u{333}\u{33f}"@ =~= glyph_chars(tier_five(t as int)));
                assert("X\u{20d2}\u{333}\u{33f}"@ =~= glyph_chars(tier_ten(t as int)));
            }
            ("I\u{20d2}\u{333}\u{33f}", "V\u{20d2}\u{333}\u{33f}", "X\u{20d2}\u{333}\u{33f}")
        },
        16 => {
            proof {
                reveal_strlit("X\u{20d2}\u{333}\u{33f}");
                reveal_strlit("L\u{20d2}\u{333}\u{33f}");
                reveal_strlit("C\u{20d2}\u{333}\u{33f}");
                assert("X\u{20d2}\u{333}\u{33f}"@ =~= glyph_chars(tier_unit(t as int)));
                assert("L\u{20d2}\u{333}\u{33f}"@ =~= glyph_chars(tier_five(t as int)));
                assert("C\u{20d2}\u{333}\u{33f}"@ =~= glyph_chars(tier_ten(t as int)));
            }
            ("X\u{20d2}\u{333}\u{33f}", "L\u{20d2}\u{333}\u{33f}", "C\u{20d2}\u{333}\u{33f}")
        },
        17 => {
            proof {
                reveal_strlit("C\u{20d2}\u{333}\u{33f}");
                reveal_strlit("D\u{20d2}\u{333}\u{33f}");
                reveal_strlit("M\u{20d2}\u{333}\u{33f}");
                assert("C\u{20d2}\u{333}\u{33f}"@ =~= glyph_chars(tier_unit(t as int)));
                assert("D\u{20d2}\u{333}\u{33f}"@ =~= glyph_chars(tier_five(t as int)));
                assert("M\u{20d2}\u{333}\u{33f}"@ =~= glyph_chars(tier_ten(t as int)));
            }
            ("C\u{20d2}\u{333}\u{33f}", "D\u{20d2}\u{333}\u{33f}", "M\u{20d2}\u{333}\u{33f}")
        },
        18 => {
            proof {
                reveal_strlit("I\u{20e6}\u{333}\u{33f}");
                reveal_strlit("V\u{20e6}\u{333}\u{33f}");
                reveal_strlit("X\u{20e6}\u{333}\u{33f}");
                assert("I\u{20e6}\u{333}\u{33f}"@ =~= glyph_chars(tier_unit(t as int)));
                assert("V\u{20e6}\u{333}\u{33f}"@ =~= glyph_chars(tier_five(t as int)));
                assert("X\u{20e6}\u{333}\u{33f}"@ =~= glyph_chars(tier_ten(t as int)));
            }
            ("I\u{20e6}\u{333}\u{33f}", "V\u{20e6}\u{333}\u{33f}", "X\u{20e6}\u{333}\u{33f}")
        },
        19 => {
            proof {
                reveal_strlit("X\u{20e6}\u{333}\u{33f}");
                reveal_strlit("L\u{20e6}\u{333}\u{33f}");
                reveal_strlit("C\u{20e6}\u{333}\u{33f}");
                assert("X\u{20e6}\u{333}\u{33f}"@ =~= glyph_chars(tier_unit(t as int)));
                assert("L\u{20e6}\u{333}\u{33f}"@ =~= glyph_chars(tier_five(t as int)));
                assert("C\u{20e6}\u{333}\u{33f}"@ =~= glyph_chars(tier_ten(t as int)));
            }
            ("X\u{20e6}\u{333}\u{33f}", "L\u{20e6}\u{333}\u{33f}", "C\u{20e6}\u{333}\u{33f}")
        },
        _ => {
            proof {
                reveal_strlit("C\u{20e6}\u{333}\u{33f}");
                reveal_strlit("D\u{20e6}\u{333}\u{33f}");
                reveal_strlit("M\u{20e6}\u{333}\u{33f}");
                assert("C\u{20e6}\u{333}\u{33f}"@ =~= glyph_chars(tier_unit(t as int)));
                assert("D\u{20e6}\u{333}\u{33f}"@ =~= glyph_chars(tier_five(t as int)));
                assert("M\u{20e6}\u{333}\u{33f}"@ =~= glyph_chars(tier_ten(t as int)));
            }
            ("C\u{20e6}\u{333}\u{33f}", "D\u{20e6}\u{333}\u{33f}", "M\u{20e6}\u{333}\u{33f}")
        },
    }
}

/// Unfolding the encoder one tier: the digit pattern at tier `t`, then the
/// remainder at the tiers below.
pub proof fn lemma_encode_unfold(n: int, t: int)
    requires
        0 <= t,
        0 <= n,
    ensures
        encode_chars_rec(n, t) == repeat_pattern(
            glyph_chars(tier_unit(t)),
            glyph_chars(tier_five(t)),
            glyph_chars(tier_ten(t)),
            n / (pow10(t as nat) as int),
        ) + encode_chars_rec(n % (pow10(t as nat) as int), t - 1),
{
    let p = pow10(t as nat) as int;
    let d = n / p;
    let m = n % p;
    assert(encode_tokens_rec(n, t) == pattern_ids(d, t) + encode_tokens_rec(m, t - 1));
    lemma_token_strings_append(pattern_ids(d, t), encode_tokens_rec(m, t - 1));
    lemma_concat_all_append(
        token_strings(pattern_ids(d, t)),
        token_strings(encode_tokens_rec(m, t - 1)),
    );
    lemma_pattern_chars(d, t);
}

/// The decimal digit and remainder of `n` at tier `t`.
pub proof fn lemma_digit_bounds(n: int, t: int)
    requires
        0 <= t,
        0 <= n,
        n < 10 * pow10(t as nat),
    ensures
        0 <= n / (pow10(t as nat) as int) <= 9,
        0 <= n % (pow10(t as nat) as int) < pow10(t as nat),
        n == (n / (pow10(t as nat) as int)) * (pow10(t as nat) as int) + n % (pow10(t as nat) as int),
{
    let p = pow10(t as nat) as int;
    lemma_pow10_pos(t as nat);
    vstd::arithmetic::div_mod::lemma_fundamental_div_mod(n, p);
    vstd::arithmetic::div_mod::lemma_mod_division_less_than_divisor(n, p);
    let d = n / p;
    assert(d >= 0) by (nonlinear_arith)
        requires
            n >= 0,
            p >= 1,
            n == p * d + n % p,
            0 <= n % p < p,
    ;
    assert(d <= 9) by (nonlinear_arith)
        requires
            n < 10 * p,
            p >= 1,
            n == p * d + n % p,
            0 <= n % p < p,
    ;
}

/// The glyph pattern of the digit `times` over the glyph triple `chars`,
/// or `UnsupportedDigit` where `times` is outside 1..=9.
pub fn make_vinculum(times: u64, chars: (&str, &str, &str)) -> (r: Result<String, EncodeError>)
    ensures
        1 <= times <= 9 ==> (r matches Ok(s) && s@ == repeat_pattern(
            chars.0@,
            chars.1@,
            chars.2@,
            times as int,
        )),
        !(1 <= times <= 9) ==> r == Err::<String, EncodeError>(EncodeError::UnsupportedDigit),
{
    let (u, f, x) = chars;
    if times == 0 || times > 9 {
        return Err(EncodeError::UnsupportedDigit);
    }
    let mut s = String::new();
    match times {
        1 => {
            s.append(u);
        },
        2 => {
            s.append(u);
            s.append(u);
        },
        3 => {
            s.append(u);
            s.append(u);
            s.append(u);
        },
        4 => {
            s.append(u);
            s.append(f);
        },
        5 => {
            s.append(f);
        },
        6 => {
            s.append(f);
            s.append(u);
        },
        7 => {
            s.append(f);
            s.append(u);
            s.append(u);
        },
        8 => {
            s.append(f);
            s.append(u);
            s.append(u);
            s.append(u);
        },
        _ => {
            s.append(u);
            s.append(x);
        },
    }
    proof {
        assert(s@ =~= repeat_pattern(u@, f@, x@, times as int));
    }
    Ok(s)
}

/// The glyph pattern of the digit `times` at tier `power_ten`:
/// `UnsupportedTier` where the tier is outside the table, and
/// `UnsupportedDigit` where the digit is outside 1..=9.
pub fn make_vinculum_number(power_ten: u32, times: u64) -> (r: Result<String, EncodeError>)
    ensures
        power_ten <= 20 && 1 <= times <= 9 ==> (r matches Ok(s) && s@ == repeat_pattern(
            glyph_chars(tier_unit(power_ten as int)),
            glyph_chars(tier_five(power_ten as int)),
            glyph_chars(tier_ten(power_ten as int)),
            times as int,
        )),
        power_ten > 20 ==> r == Err::<String, EncodeError>(EncodeError::UnsupportedTier),
        power_ten <= 20 && !(1 <= times <= 9) ==> r == Err::<String, EncodeError>(
            EncodeError::UnsupportedDigit,
        ),
{
    if power_ten > 20 {
        return Err(EncodeError::UnsupportedTier);
    }
    make_vinculum(times, tier_glyph_strs(power_ten))
}

/// The numeral string of a positive integer, or `ZeroValue` for zero.
///
/// The output walks the tiers from 19 (the highest a 64-bit value can
/// reach) down to 0 and appends each tier's digit pattern in turn.
pub fn arabic2vinculum(input: u64) -> (r: Result<String, EncodeError>)
    ensures
        input == 0 ==> r == Err::<String, EncodeError>(EncodeError::ZeroValue),
        input >= 1 ==> (r matches Ok(s) && s@ == encode_chars(input as int)),
{
    if input == 0 {
        return Err(EncodeError::ZeroValue);
    }
    let mut result = String::new();
    let mut arabic: u64 = input;
    let mut t: u32 = 20;
    proof {
        reveal_with_fuel(pow10, 23);
        assert(pow10(20) == 100000000000000000000);
    }
    while t > 0
        invariant
            t <= 20,
            (arabic as int) < pow10(t as nat),
            encode_chars(input as int) == result@ + encode_chars_rec(arabic as int, t as int - 1),
        decreases t,
    {
        let tier = t - 1;
        let divisor = pow10_u64(tier);
        let digit = arabic / divisor;
        proof {
            lemma_digit_bounds(arabic as int, tier as int);
            lemma_encode_unfold(arabic as int, tier as int);
        }
        if digit > 0 {
            let piece = match make_vinculum_number(tier, digit) {
                Ok(s) => s,
                Err(_) => {
                    proof {
                        assert(false);
                    }
                    String::new()
                },
            };
            result.append(piece.as_str());
            proof {
                assert((digit * divisor) as int <= arabic as int);
            }
            arabic = arabic - digit * divisor;
        }
        proof {
            assert(result@ + encode_chars_rec(arabic as int, tier as int - 1) =~= encode_chars(
                input as int,
            ));
        }
        t = tier;
    }
    proof {
        assert(arabic == 0);
        assert(encode_tokens_rec(0, -1) =~= Seq::<GlyphId>::empty());
        assert(token_strings(Seq::<GlyphId>::empty()) =~= Seq::<Seq<char>>::empty());
        assert(encode_chars(input as int) =~= result@);
    }
    Ok(result)
}

} // verus!
