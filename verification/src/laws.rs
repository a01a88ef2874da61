//! The laws of the codec: decoding an encoded numeral gives the number
//! back, the encoding is injective, and the encoder never emits four equal
//! glyphs in a row.

use vstd::prelude::*;

use crate::decode::{
    lemma_split_concat, scan_values, spec_decode, split_glyphs, token_values, wf_cluster,
};
use crate::encode::{
    encode_chars, encode_tokens, encode_tokens_rec, lemma_digit_bounds, pattern_ids, token_strings,
};
use crate::errors::DecodeError;
use crate::glyphs::{
    all_glyph_chars, glyph_val, is_glyph_char, lemma_glyph_chars_value, lemma_glyph_chars_wf,
    lemma_pow10_pos, lemma_tier_glyphs, pow10, tier_five, tier_ten, tier_unit, valid_glyph,
    GlyphId,
};
use crate::seq_util::{concat_all, lemma_concat_all_char_source, lemma_concat_all_chars};

verus! {

/// The numeric values of a sequence of glyphs.
pub open spec fn vals_of(ts: Seq<GlyphId>) -> Seq<int> {
    ts.map_values(|id: GlyphId| glyph_val(id))
}

/// Every glyph of the sequence is one of the table.
pub open spec fn all_valid(ts: Seq<GlyphId>) -> bool {
    forall|i: int| 0 <= i < ts.len() ==> valid_glyph(#[trigger] ts[i])
}

proof fn lemma_vals_of_append(x: Seq<GlyphId>, y: Seq<GlyphId>)
    ensures
        vals_of(x + y) == vals_of(x) + vals_of(y),
{
    assert(vals_of(x + y) =~= vals_of(x) + vals_of(y));
}

/// The glyphs of every digit pattern are tier glyphs, hence valid.
proof fn lemma_pattern_valid(d: int, t: int)
    requires
        0 <= t <= 20,
    ensures
        all_valid(pattern_ids(d, t)),
{
    lemma_tier_glyphs(t);
}

/// Every glyph the encoder emits is one of the table.
proof fn lemma_encode_tokens_valid(n: int, t: int)
    requires
        t <= 20,
        0 <= n,
    ensures
        all_valid(encode_tokens_rec(n, t)),
    decreases t + 1,
{
    if t >= 0 {
        let p = pow10(t as nat) as int;
        lemma_pow10_pos(t as nat);
        lemma_pattern_valid(n / p, t);
        vstd::arithmetic::div_mod::lemma_mod_division_less_than_divisor(n, p);
        lemma_encode_tokens_valid(n % p, t - 1);
        let whole = encode_tokens_rec(n, t);
        let pat = pattern_ids(n / p, t);
        let rest = encode_tokens_rec(n % p, t - 1);
        assert forall|i: int| 0 <= i < whole.len() implies valid_glyph(whole[i]) by {
            if i < pat.len() {
                assert(whole[i] == pat[i]);
            } else {
                assert(whole[i] == rest[i - pat.len()]);
            }
        }
    }
}

/// One scan step over an explicit first value.
proof fn lemma_scan_one(v: int, rest: Seq<int>, prev: int, total: int)
    requires
        ({
            let s = if prev < v {
                total - 2 * prev + v
            } else {
                total + v
            };
            !(prev < v && s < 0) && s <= u64::MAX as int
        }),
    ensures
        scan_values(seq![v] + rest, prev, total) == scan_values(
            rest,
            v,
            if prev < v {
                total - 2 * prev + v
            } else {
                total + v
            },
        ),
{
    assert((seq![v] + rest)[0] == v);
    assert((seq![v] + rest).drop_first() =~= rest);
}

/// Scanning one digit pattern adds `d * 10^t` to the total and leaves the
/// pattern's final value (at least `10^t`) as the new previous value.
proof fn lemma_scan_pattern(d: int, t: int, prev: int, total: int, rest: Seq<int>) -> (last: int)
    requires
        0 <= t <= 19,
        1 <= d <= 9,
        0 <= total,
        total + d * pow10(t as nat) <= u64::MAX as int,
        (prev == 0 && total == 0) || prev >= 10 * pow10(t as nat),
    ensures
        scan_values(vals_of(pattern_ids(d, t)) + rest, prev, total) == scan_values(
            rest,
            last,
            total + d * pow10(t as nat),
        ),
        last >= pow10(t as nat),
{
    let p = pow10(t as nat) as int;
    lemma_pow10_pos(t as nat);
    lemma_tier_glyphs(t);
    let u = glyph_val(tier_unit(t));
    let f = glyph_val(tier_five(t));
    let x = glyph_val(tier_ten(t));
    assert(u == p && f == 5 * p && x == 10 * p);
    let vals = vals_of(pattern_ids(d, t));
    if d == 1 {
        assert(vals + rest =~= seq![p] + rest);
        lemma_scan_one(p, rest, prev, total);
        p
    } else if d == 2 {
        assert(vals + rest =~= seq![p] + (seq![p] + rest));
        lemma_scan_one(p, seq![p] + rest, prev, total);
        lemma_scan_one(p, rest, p, total + p);
        p
    } else if d == 3 {
        assert(vals + rest =~= seq![p] + (seq![p] + (seq![p] + rest)));
        lemma_scan_one(p, seq![p] + (seq![p] + rest), prev, total);
        lemma_scan_one(p, seq![p] + rest, p, total + p);
        lemma_scan_one(p, rest, p, total + 2 * p);
        p
    } else if d == 4 {
        assert(vals + rest =~= seq![p] + (seq![5 * p] + rest));
        lemma_scan_one(p, seq![5 * p] + rest, prev, total);
        lemma_scan_one(5 * p, rest, p, total + p);
        5 * p
    } else if d == 5 {
        assert(vals + rest =~= seq![5 * p] + rest);
        lemma_scan_one(5 * p, rest, prev, total);
        5 * p
    } else if d == 6 {
        assert(vals + rest =~= seq![5 * p] + (seq![p] + rest));
        lemma_scan_one(5 * p, seq![p] + rest, prev, total);
        lemma_scan_one(p, rest, 5 * p, total + 5 * p);
        p
    } else if d == 7 {
        assert(vals + rest =~= seq![5 * p] + (seq![p] + (seq![p] + rest)));
        lemma_scan_one(5 * p, seq![p] + (seq![p] + rest), prev, total);
        lemma_scan_one(p, seq![p] + rest, 5 * p, total + 5 * p);
        lemma_scan_one(p, rest, p, total + 6 * p);
        p
    } else if d == 8 {
        assert(vals + rest =~= seq![5 * p] + (seq![p] + (seq![p] + (seq![p] + rest))));
        lemma_scan_one(5 * p, seq![p] + (seq![p] + (seq![p] + rest)), prev, total);
        lemma_scan_one(p, seq![p] + (seq![p] + rest), 5 * p, total + 5 * p);
        lemma_scan_one(p, seq![p] + rest, p, total + 6 * p);
        lemma_scan_one(p, rest, p, total + 7 * p);
        p
    } else {
        assert(vals + rest =~= seq![p] + (seq![10 * p] + rest));
        lemma_scan_one(p, seq![10 * p] + rest, prev, total);
        lemma_scan_one(10 * p, rest, p, total + p);
        10 * p
    }
}

/// Scanning the encoder's glyph values from a clean state yields exactly
/// the encoded number added to the running total.
proof fn lemma_scan_encode(n: int, t: int, prev: int, total: int)
    requires
        -1 <= t <= 19,
        0 <= n,
        n < pow10((t + 1) as nat),
        0 <= total,
        total + n <= u64::MAX as int,
        (prev == 0 && total == 0) || prev >= pow10((t + 1) as nat),
    ensures
        scan_values(vals_of(encode_tokens_rec(n, t)), prev, total) == Ok::<int, DecodeError>(
            total + n,
        ),
    decreases t + 1,
{
    if t < 0 {
        assert(n == 0);
        assert(vals_of(encode_tokens_rec(n, t)) =~= Seq::<int>::empty());
    } else {
        let p = pow10(t as nat) as int;
        lemma_pow10_pos(t as nat);
        assert(pow10((t + 1) as nat) == 10 * pow10(t as nat));
        lemma_digit_bounds(n, t);
        let d = n / p;
        let m = n % p;
        let pat = pattern_ids(d, t);
        let rest = encode_tokens_rec(m, t - 1);
        assert(encode_tokens_rec(n, t) == pat + rest);
        lemma_vals_of_append(pat, rest);
        if d == 0 {
            assert(vals_of(pat) =~= Seq::<int>::empty());
            assert(vals_of(pat) + vals_of(rest) =~= vals_of(rest));
            assert(d * p == 0) by (nonlinear_arith)
                requires
                    d == 0,
            ;
            assert(n == m);
            lemma_scan_encode(m, t - 1, prev, total);
        } else {
            let last = lemma_scan_pattern(d, t, prev, total, vals_of(rest));
            assert(n == d * p + m);
            lemma_scan_encode(m, t - 1, last, total + d * p);
        }
    }
}

/// The values of the encoder's glyph strings, read back through the value
/// table, are the glyph values, and every string is in the table.
proof fn lemma_token_values_of_valid(ts: Seq<GlyphId>)
    requires
        all_valid(ts),
    ensures
        token_values(token_strings(ts)) == vals_of(ts),
        forall|i: int|
            0 <= i < ts.len() ==> crate::glyphs::glyph_value_of(
                #[trigger] token_strings(ts)[i],
            ) is Some,
{
    assert forall|i: int|
        0 <= i < ts.len() implies crate::glyphs::glyph_value_of(
        #[trigger] token_strings(ts)[i],
    ) is Some && token_values(token_strings(ts))[i] == vals_of(ts)[i] by {
        lemma_glyph_chars_value(ts[i]);
    }
    assert(token_values(token_strings(ts)) =~= vals_of(ts));
}

/// Round trip: the numeral of a positive 64-bit integer is made of glyph
/// characters only, and decoding its glyphs gives the integer back.
pub proof fn lemma_round_trip(n: u64)
    requires
        1 <= n,
    ensures
        all_glyph_chars(encode_chars(n as int)),
        split_glyphs(encode_chars(n as int)) == token_strings(encode_tokens(n as int)),
        spec_decode(split_glyphs(encode_chars(n as int))) == Ok::<u64, DecodeError>(n),
{
    let ts = encode_tokens(n as int);
    let strs = token_strings(ts);
    reveal_with_fuel(pow10, 23);
    assert(pow10(20) == 100000000000000000000);
    lemma_encode_tokens_valid(n as int, 19);
    assert forall|i: int| 0 <= i < strs.len() implies wf_cluster(#[trigger] strs[i]) by {
        lemma_glyph_chars_wf(ts[i]);
    }
    lemma_split_concat(strs);
    assert forall|i: int, j: int|
        0 <= i < strs.len() && 0 <= j < strs[i].len() implies is_glyph_char(
        #[trigger] strs[i][j],
    ) by {
        lemma_glyph_chars_wf(ts[i]);
    }
    lemma_concat_all_chars(strs, |c: char| is_glyph_char(c));
    assert(all_glyph_chars(encode_chars(n as int)));
    lemma_token_values_of_valid(ts);
    lemma_scan_encode(n as int, 19, 0, 0);
    assert(scan_values(token_values(strs), 0, 0) == Ok::<int, DecodeError>(n as int));
    assert(!(exists|i: int|
        0 <= i < strs.len() && crate::glyphs::glyph_value_of(#[trigger] strs[i]) is None));
    assert(spec_decode(strs) == Ok::<u64, DecodeError>(n));
}

/// No four equal entries in a row.
pub open spec fn no_quad_run<T>(ts: Seq<T>) -> bool {
    forall|i: int|
        0 <= i && i + 3 < ts.len() ==> !(#[trigger] ts[i] == ts[i + 1] && ts[i + 1] == ts[i + 2]
            && ts[i + 2] == ts[i + 3])
}

/// The encoder's glyph values never repeat four times in a row, and the
/// leading value stays under the tier bound.
proof fn lemma_encode_vals_shape(n: int, t: int)
    requires
        -1 <= t <= 19,
        0 <= n,
        n < pow10((t + 1) as nat),
    ensures
        no_quad_run(vals_of(encode_tokens_rec(n, t))),
        vals_of(encode_tokens_rec(n, t)).len() > 0 ==> vals_of(encode_tokens_rec(n, t))[0]
            < pow10((t + 1) as nat),
    decreases t + 1,
{
    let vs = vals_of(encode_tokens_rec(n, t));
    if t < 0 {
        assert(vs =~= Seq::<int>::empty());
    } else {
        let p = pow10(t as nat) as int;
        lemma_pow10_pos(t as nat);
        assert(pow10((t + 1) as nat) == 10 * pow10(t as nat));
        lemma_digit_bounds(n, t);
        let d = n / p;
        let m = n % p;
        let pat = pattern_ids(d, t);
        let rest = encode_tokens_rec(m, t - 1);
        assert(encode_tokens_rec(n, t) == pat + rest);
        lemma_vals_of_append(pat, rest);
        let pv = vals_of(pat);
        let rv = vals_of(rest);
        lemma_encode_vals_shape(m, t - 1);
        if t - 1 >= 0 {
            assert(pow10(((t - 1) + 1) as nat) == pow10(t as nat));
        }
        lemma_tier_glyphs(t);
        if d == 0 {
            assert(pv =~= Seq::<int>::empty());
            assert(vs =~= rv);
        } else {
            assert(1 <= pv.len() <= 4);
            assert(forall|j: int| 0 <= j < pv.len() ==> p <= #[trigger] pv[j] <= 10 * p);
            assert(pv[0] <= 5 * p);
            assert forall|i: int|
                0 <= i && i + 3 < vs.len() implies !(#[trigger] vs[i] == vs[i + 1] && vs[i + 1]
                == vs[i + 2] && vs[i + 2] == vs[i + 3]) by {
                let pl = pv.len() as int;
                if i + 3 < pl {
                    assert(d == 8);
                    assert(vs[i] == 5 * p && vs[i + 1] == p);
                } else if i >= pl {
                    assert(vs[i] == rv[i - pl]);
                    assert(vs[i + 1] == rv[i - pl + 1]);
                    assert(vs[i + 2] == rv[i - pl + 2]);
                    assert(vs[i + 3] == rv[i - pl + 3]);
                } else {
                    assert(rv.len() > 0);
                    assert(vs[pl - 1] == pv[pl - 1] >= p);
                    assert(vs[pl] == rv[0]);
                    assert(rv[0] < p);
                    assert(i <= pl - 1 && pl <= i + 3);
                }
            }
            assert(vs[0] == pv[0]);
        }
    }
}

/// Canonical form: the encoder never emits four equal glyphs in a row.
pub proof fn lemma_canonical_form(n: u64)
    requires
        1 <= n,
    ensures
        no_quad_run(split_glyphs(encode_chars(n as int))),
{
    let ts = encode_tokens(n as int);
    let strs = token_strings(ts);
    lemma_round_trip(n);
    reveal_with_fuel(pow10, 23);
    assert(pow10(20) == 100000000000000000000);
    lemma_encode_tokens_valid(n as int, 19);
    lemma_encode_vals_shape(n as int, 19);
    let vs = vals_of(ts);
    assert forall|i: int|
        0 <= i && i + 3 < strs.len() implies !(#[trigger] strs[i] == strs[i + 1] && strs[i + 1]
        == strs[i + 2] && strs[i + 2] == strs[i + 3]) by {
        if strs[i] == strs[i + 1] && strs[i + 1] == strs[i + 2] && strs[i + 2] == strs[i + 3] {
            lemma_glyph_chars_value(ts[i]);
            lemma_glyph_chars_value(ts[i + 1]);
            lemma_glyph_chars_value(ts[i + 2]);
            lemma_glyph_chars_value(ts[i + 3]);
            assert(vs[i] == vs[i + 1] && vs[i + 1] == vs[i + 2] && vs[i + 2] == vs[i + 3]);
            assert(false);
        }
    }
}

/// A numeral holding any character that is no base letter and no mark
/// fails as an unknown glyph, however its characters are clustered.
pub proof fn lemma_foreign_char_unknown(s: Seq<char>, ts: Seq<Seq<char>>)
    requires
        concat_all(ts) == s,
        !all_glyph_chars(s),
    ensures
        spec_decode(ts) == Err::<u64, DecodeError>(DecodeError::UnknownGlyph),
{
    let k = choose|k: int| 0 <= k < s.len() && !is_glyph_char(s[k]);
    lemma_concat_all_char_source(ts, k);
    let (i0, j0) = choose|i: int, j: int|
        0 <= i < ts.len() && 0 <= j < ts[i].len() && #[trigger] ts[i][j] == concat_all(ts)[k];
    if crate::glyphs::glyph_value_of(ts[i0]) is Some {
        crate::glyphs::lemma_glyph_value_of_chars(ts[i0]);
        assert(is_glyph_char(ts[i0][j0]));
        assert(false);
    }
}

/// Monotonicity: distinct positive integers have distinct numerals.
pub proof fn lemma_encode_injective(a: u64, b: u64)
    requires
        1 <= a,
        1 <= b,
        a != b,
    ensures
        encode_chars(a as int) != encode_chars(b as int),
{
    lemma_round_trip(a);
    lemma_round_trip(b);
}

} // verus!
