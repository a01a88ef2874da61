//! The symbol table: glyphs, their values, and the per-tier glyph triples.
//!
//! Every glyph is one Latin base letter (I, V, X, L, C, D or M) followed by
//! the combining-mark suffix of its magnitude group; group `g` multiplies the
//! letter's classical value by `1000^g`.  Seven groups cover every power of
//! ten up to `10^21`.

use vstd::prelude::*;

use crate::errors::DecodeError;

verus! {

/// Ten raised to the power `e`.
pub open spec fn pow10(e: nat) -> nat
    decreases e,
{
    if e == 0 {
        1
    } else {
        10 * pow10((e - 1) as nat)
    }
}

pub proof fn lemma_pow10_pos(e: nat)
    ensures
        pow10(e) >= 1,
    decreases e,
{
    if e > 0 {
        lemma_pow10_pos((e - 1) as nat);
    }
}

pub proof fn lemma_pow10_adds(a: nat, b: nat)
    ensures
        pow10(a + b) == pow10(a) * pow10(b),
    decreases a,
{
    if a == 0 {
    } else {
        lemma_pow10_adds((a - 1) as nat, b);
        assert((a + b - 1) as nat == (a - 1) as nat + b);
        assert(10 * (pow10((a - 1) as nat) * pow10(b)) == (10 * pow10((a - 1) as nat)) * pow10(
            b,
        )) by (nonlinear_arith);
    }
}

pub proof fn lemma_pow10_mono(a: nat, b: nat)
    requires
        a <= b,
    ensures
        pow10(a) <= pow10(b),
    decreases b,
{
    if a < b {
        lemma_pow10_mono(a, (b - 1) as nat);
        lemma_pow10_pos((b - 1) as nat);
    }
}

/// One of the six combining marks that build the magnitude groups.
pub open spec fn is_mark(c: char) -> bool {
    c == '\u{305}' || c == '\u{33f}' || c == '\u{332}' || c == '\u{333}' || c == '\u{20d2}' || c
        == '\u{20e6}'
}

/// One of the seven base letters.
pub open spec fn is_numeral_letter(c: char) -> bool {
    c == 'I' || c == 'V' || c == 'X' || c == 'L' || c == 'C' || c == 'D' || c == 'M'
}

/// A character that can occur in a numeral produced by the encoder.
pub open spec fn is_glyph_char(c: char) -> bool {
    is_numeral_letter(c) || is_mark(c)
}

/// Every character of `s` is a base letter or a combining mark.
pub open spec fn all_glyph_chars(s: Seq<char>) -> bool {
    forall|i: int| 0 <= i < s.len() ==> is_glyph_char(s[i])
}

/// A glyph named by its base letter (0..=6 for I V X L C D M) and its
/// magnitude group (0..=6).
pub struct GlyphId {
    pub letter: int,
    pub group: int,
}

pub open spec fn valid_glyph(id: GlyphId) -> bool {
    0 <= id.letter < 7 && 0 <= id.group < 7
}

/// The base letter's character.
pub open spec fn letter_char(l: int) -> char {
    if l == 0 {
        'I'
    } else if l == 1 {
        'V'
    } else if l == 2 {
        'X'
    } else if l == 3 {
        'L'
    } else if l == 4 {
        'C'
    } else if l == 5 {
        'D'
    } else {
        'M'
    }
}

/// The base letter's classical value.
pub open spec fn base_val(l: int) -> int {
    if l == 0 {
        1
    } else if l == 1 {
        5
    } else if l == 2 {
        10
    } else if l == 3 {
        50
    } else if l == 4 {
        100
    } else if l == 5 {
        500
    } else {
        1000
    }
}

/// The combining-mark suffix of magnitude group `g`.
pub open spec fn group_marks(g: int) -> Seq<char> {
    if g == 0 {
        Seq::<char>::empty()
    } else if g == 1 {
        seq!['\u{305}']
    } else if g == 2 {
        seq!['\u{33f}']
    } else if g == 3 {
        seq!['\u{332}', '\u{33f}']
    } else if g == 4 {
        seq!['\u{333}', '\u{33f}']
    } else if g == 5 {
        seq!['\u{20d2}', '\u{333}', '\u{33f}']
    } else {
        seq!['\u{20e6}', '\u{333}', '\u{33f}']
    }
}

/// The character sequence of a glyph.
pub open spec fn glyph_chars(id: GlyphId) -> Seq<char> {
    seq![letter_char(id.letter)] + group_marks(id.group)
}

/// The numeric value of a glyph: the letter's classical value times
/// `1000^group`.
pub open spec fn glyph_val(id: GlyphId) -> int {
    base_val(id.letter) * pow10((3 * id.group) as nat)
}

/// The letter index of a character, if it is a base letter.
pub open spec fn letter_index(c: char) -> Option<int> {
    if c == 'I' {
        Some(0)
    } else if c == 'V' {
        Some(1)
    } else if c == 'X' {
        Some(2)
    } else if c == 'L' {
        Some(3)
    } else if c == 'C' {
        Some(4)
    } else if c == 'D' {
        Some(5)
    } else if c == 'M' {
        Some(6)
    } else {
        None
    }
}

/// The magnitude group of a mark suffix, if it is one of the seven.
pub open spec fn mark_group(ms: Seq<char>) -> Option<int> {
    if ms.len() == 0 {
        Some(0)
    } else if ms == group_marks(1) {
        Some(1)
    } else if ms == group_marks(2) {
        Some(2)
    } else if ms == group_marks(3) {
        Some(3)
    } else if ms == group_marks(4) {
        Some(4)
    } else if ms == group_marks(5) {
        Some(5)
    } else if ms == group_marks(6) {
        Some(6)
    } else {
        None
    }
}

/// The value of a character sequence, if it is a glyph of the table.
pub open spec fn glyph_value_of(cs: Seq<char>) -> Option<int> {
    if cs.len() == 0 {
        None
    } else {
        match letter_index(cs[0]) {
            None => None,
            Some(l) => match mark_group(cs.skip(1)) {
                None => None,
                Some(g) => Some(base_val(l) * pow10((3 * g) as nat)),
            },
        }
    }
}

pub proof fn lemma_mark_group_inverse(g: int)
    requires
        0 <= g < 7,
    ensures
        mark_group(group_marks(g)) == Some(g),
{
    if g == 0 {
    } else if g == 1 {
    } else if g == 2 {
        assert(group_marks(2)[0] != group_marks(1)[0]);
    } else if g == 3 {
        assert(group_marks(3).len() != group_marks(1).len());
    } else if g == 4 {
        assert(group_marks(4)[0] != group_marks(3)[0]);
    } else if g == 5 {
        assert(group_marks(5).len() == 3);
    } else {
        assert(group_marks(6)[0] != group_marks(5)[0]);
    }
}

/// Looking up the characters of a glyph gives back its value.
pub proof fn lemma_glyph_chars_value(id: GlyphId)
    requires
        valid_glyph(id),
    ensures
        glyph_value_of(glyph_chars(id)) == Some(glyph_val(id)),
{
    let cs = glyph_chars(id);
    assert(cs[0] == letter_char(id.letter));
    assert(cs.skip(1) =~= group_marks(id.group));
    assert(letter_index(letter_char(id.letter)) == Some(id.letter));
    lemma_mark_group_inverse(id.group);
}

/// A glyph starts with a letter (never a mark) and continues with marks
/// only.
pub proof fn lemma_glyph_chars_wf(id: GlyphId)
    requires
        valid_glyph(id),
    ensures
        glyph_chars(id).len() >= 1,
        !is_mark(glyph_chars(id)[0]),
        is_numeral_letter(glyph_chars(id)[0]),
        forall|i: int| 1 <= i < glyph_chars(id).len() ==> is_mark(glyph_chars(id)[i]),
        all_glyph_chars(glyph_chars(id)),
{
    let cs = glyph_chars(id);
    assert(cs[0] == letter_char(id.letter));
    assert forall|i: int| 1 <= i < cs.len() implies is_mark(cs[i]) by {
        assert(cs[i] == group_marks(id.group)[i - 1]);
    }
    assert forall|i: int| 0 <= i < cs.len() implies is_glyph_char(cs[i]) by {
        if i >= 1 {
            assert(cs[i] == group_marks(id.group)[i - 1]);
        }
    }
}

/// Every glyph's value lies between 1 and `10^21`.
pub proof fn lemma_glyph_val_bounds(id: GlyphId)
    requires
        valid_glyph(id),
    ensures
        1 <= glyph_val(id) <= pow10(21),
{
    reveal_with_fuel(pow10, 4);
    let p = pow10((3 * id.group) as nat);
    lemma_pow10_pos((3 * id.group) as nat);
    lemma_pow10_mono((3 * id.group) as nat, 18);
    lemma_pow10_adds(3, 18);
    assert(base_val(id.letter) * p >= 1 * 1) by (nonlinear_arith)
        requires
            base_val(id.letter) >= 1,
            p >= 1,
    ;
    assert(base_val(id.letter) * p <= 1000 * pow10(18)) by (nonlinear_arith)
        requires
            1 <= base_val(id.letter) <= 1000,
            1 <= p <= pow10(18),
    ;
    assert(pow10(3) == 1000);
}

/// A character sequence the table resolves is made of glyph characters.
pub proof fn lemma_glyph_value_of_chars(cs: Seq<char>)
    requires
        glyph_value_of(cs) is Some,
    ensures
        all_glyph_chars(cs),
{
    assert(letter_index(cs[0]) is Some);
    assert(is_numeral_letter(cs[0]));
    let ms = cs.skip(1);
    assert(mark_group(ms) is Some);
    assert forall|i: int| 0 <= i < cs.len() implies is_glyph_char(cs[i]) by {
        if i >= 1 {
            assert(cs[i] == ms[i - 1]);
            assert(ms.len() >= 1);
            assert(ms == group_marks(1) || ms == group_marks(2) || ms == group_marks(3) || ms
                == group_marks(4) || ms == group_marks(5) || ms == group_marks(6));
            assert(is_mark(ms[i - 1]));
        }
    }
}

/// Every value the table resolves lies between 1 and `10^21`.
pub proof fn lemma_glyph_value_of_bounds(cs: Seq<char>)
    ensures
        glyph_value_of(cs) matches Some(v) ==> 1 <= v <= pow10(21),
{
    if cs.len() > 0 {
        match letter_index(cs[0]) {
            None => {},
            Some(l) => match mark_group(cs.skip(1)) {
                None => {},
                Some(g) => {
                    let id = GlyphId { letter: l, group: g };
                    assert(valid_glyph(id));
                    lemma_glyph_val_bounds(id);
                },
            },
        }
    }
}

/// The unit glyph (value `10^t`) of tier `t`.  At tier 6 the table keeps
/// the overlined M rather than introducing the doubly overlined I, the
/// counterpart of its preference at tier 2.
pub open spec fn tier_unit(t: int) -> GlyphId {
    let g = t / 3;
    if t == 6 {
        GlyphId { letter: 6, group: 1 }
    } else if t % 3 == 0 {
        GlyphId { letter: 0, group: g }
    } else if t % 3 == 1 {
        GlyphId { letter: 2, group: g }
    } else {
        GlyphId { letter: 4, group: g }
    }
}

/// The five glyph (value `5 * 10^t`) of tier `t`.
pub open spec fn tier_five(t: int) -> GlyphId {
    let g = t / 3;
    if t % 3 == 0 {
        GlyphId { letter: 1, group: g }
    } else if t % 3 == 1 {
        GlyphId { letter: 3, group: g }
    } else {
        GlyphId { letter: 5, group: g }
    }
}

/// The ten glyph (value `10^(t+1)`) of tier `t`.  At the classical boundary
/// (tier 2) the table prefers the overlined unit of the next group over M;
/// at the higher group boundaries it prefers the marked M.
pub open spec fn tier_ten(t: int) -> GlyphId {
    let g = t / 3;
    if t % 3 == 0 {
        GlyphId { letter: 2, group: g }
    } else if t % 3 == 1 {
        GlyphId { letter: 4, group: g }
    } else if t == 2 {
        GlyphId { letter: 0, group: 1 }
    } else {
        GlyphId { letter: 6, group: g }
    }
}

/// Ten raised to the power `e`, executable, for every exponent the value
/// table uses.
pub fn pow10_u128(e: u32) -> (r: u128)
    requires
        e <= 21,
    ensures
        r == pow10(e as nat),
{
    proof {
        reveal_with_fuel(pow10, 23);
    }
    match e {
        0 => 1,
        1 => 10,
        2 => 100,
        3 => 1000,
        4 => 10000,
        5 => 100000,
        6 => 1000000,
        7 => 10000000,
        8 => 100000000,
        9 => 1000000000,
        10 => 10000000000,
        11 => 100000000000,
        12 => 1000000000000,
        13 => 10000000000000,
        14 => 100000000000000,
        15 => 1000000000000000,
        16 => 10000000000000000,
        17 => 100000000000000000,
        18 => 1000000000000000000,
        19 => 10000000000000000000,
        20 => 100000000000000000000,
        _ => 1000000000000000000000,
    }
}

/// Ten raised to the power `e`, executable, for the tiers the encoder
/// walks.
pub fn pow10_u64(e: u32) -> (r: u64)
    requires
        e <= 19,
    ensures
        r == pow10(e as nat),
{
    let p = pow10_u128(e);
    proof {
        reveal_with_fuel(pow10, 23);
        lemma_pow10_mono(e as nat, 19);
        assert(pow10(19) <= u64::MAX);
    }
    p as u64
}

/// The value of a glyph given as its character sequence, or `None` where
/// the characters are no glyph of the table.
#[verifier::rlimit(60)]
pub fn glyph_lookup(cs: &Vec<char>) -> (r: Option<u128>)
    ensures
        r is None <==> glyph_value_of(cs@) is None,
        r matches Some(v) ==> glyph_value_of(cs@) == Some(v as int),
{
    if cs.len() == 0 {
        return None;
    }
    let base: u128 = match cs[0] {
        'I' => 1,
        'V' => 5,
        'X' => 10,
        'L' => 50,
        'C' => 100,
        'D' => 500,
        'M' => 1000,
        _ => {
            return None;
        },
    };
    let ghost suffix = cs@.skip(1);
    let group: u32 = if cs.len() == 1 {
        proof {
            assert(suffix =~= group_marks(0));
        }
        0
    } else if cs.len() == 2 {
        if cs[1] == '\u{305}' {
            proof {
                assert(suffix =~= group_marks(1));
            }
            1
        } else if cs[1] == '\u{33f}' {
            proof {
                assert(suffix =~= group_marks(2));
                assert(suffix[0] != group_marks(1)[0]);
            }
            2
        } else {
            proof {
                assert(mark_group(suffix) is None) by {
                    assert(suffix.len() == 1);
                    assert(suffix[0] == cs@[1]);
                }
            }
            return None;
        }
    } else if cs.len() == 3 {
        if cs[1] == '\u{332}' && cs[2] == '\u{33f}' {
            proof {
                assert(suffix =~= group_marks(3));
            }
            3
        } else if cs[1] == '\u{333}' && cs[2] == '\u{33f}' {
            proof {
                assert(suffix =~= group_marks(4));
                assert(suffix[0] != group_marks(3)[0]);
            }
            4
        } else {
            proof {
                assert(suffix.len() == 2);
                assert(suffix[0] == cs@[1] && suffix[1] == cs@[2]);
                assert(suffix != group_marks(3) && suffix != group_marks(4));
            }
            return None;
        }
    } else if cs.len() == 4 {
        if cs[1] == '\u{20d2}' && cs[2] == '\u{333}' && cs[3] == '\u{33f}' {
            proof {
                assert(suffix =~= group_marks(5));
            }
            5
        } else if cs[1] == '\u{20e6}' && cs[2] == '\u{333}' && cs[3] == '\u{33f}' {
            proof {
                assert(suffix =~= group_marks(6));
                assert(suffix[0] != group_marks(5)[0]);
            }
            6
        } else {
            proof {
                assert(suffix.len() == 3);
                assert(suffix[0] == cs@[1] && suffix[1] == cs@[2] && suffix[2] == cs@[3]);
                assert(suffix != group_marks(5) && suffix != group_marks(6));
            }
            return None;
        }
    } else {
        proof {
            assert(suffix.len() >= 4);
        }
        return None;
    };
    let p = pow10_u128(3 * group);
    proof {
        lemma_pow10_mono((3 * group) as nat, 18);
        reveal_with_fuel(pow10, 23);
        assert(base * p <= 1000 * pow10(18)) by (nonlinear_arith)
            requires
                1 <= base <= 1000,
                1 <= p <= pow10(18),
        ;
        lemma_pow10_pos((3 * group) as nat);
    }
    Some(base * p)
}

/// The characters of a string, in order.
pub fn str_chars(s: &str) -> (r: Vec<char>)
    ensures
        r@ == s@,
{
    let n = s.unicode_len();
    let mut r: Vec<char> = Vec::new();
    let mut i: usize = 0;
    while i < n
        invariant
            i <= n,
            n == s@.len(),
            r@ == s@.take(i as int),
        decreases n - i,
    {
        let c = s.get_char(i);
        r.push(c);
        proof {
            assert(r@ =~= s@.take(i + 1));
        }
        i = i + 1;
    }
    proof {
        assert(s@.take(n as int) =~= s@);
    }
    r
}

/// The numeric value of one glyph, or `UnknownGlyph` where the string is
/// no glyph of the table.
pub fn value(grapheme: &str) -> (r: Result<u128, DecodeError>)
    ensures
        r is Ok <==> glyph_value_of(grapheme@) is Some,
        r matches Ok(v) ==> glyph_value_of(grapheme@) == Some(v as int),
        r matches Err(e) ==> e == DecodeError::UnknownGlyph,
{
    let cs = str_chars(grapheme);
    match glyph_lookup(&cs) {
        Some(v) => Ok(v),
        None => Err(DecodeError::UnknownGlyph),
    }
}

/// The tier glyphs are valid and carry the tier's values.
pub proof fn lemma_tier_glyphs(t: int)
    requires
        0 <= t <= 20,
    ensures
        valid_glyph(tier_unit(t)),
        valid_glyph(tier_five(t)),
        valid_glyph(tier_ten(t)),
        glyph_val(tier_unit(t)) == pow10(t as nat),
        glyph_val(tier_five(t)) == 5 * pow10(t as nat),
        glyph_val(tier_ten(t)) == 10 * pow10(t as nat),
{
    reveal_with_fuel(pow10, 4);
    let g = t / 3;
    assert(0 <= g <= 6);
    assert(t == 3 * g + t % 3);
    if t == 6 {
        lemma_pow10_adds(3, 3);
        assert(pow10(3) == 1000);
        assert(glyph_val(tier_unit(6)) == 1000 * pow10(3));
        lemma_pow10_adds(1, 6);
        assert(pow10(7) == 10 * pow10(6));
    } else if t % 3 == 0 {
        assert(pow10((3 * g) as nat) == pow10(t as nat));
        lemma_pow10_adds(1, (3 * g) as nat);
        assert(pow10((t + 1) as nat) == 10 * pow10(t as nat));
    } else if t % 3 == 1 {
        lemma_pow10_adds(1, (3 * g) as nat);
        assert(pow10(t as nat) == 10 * pow10((3 * g) as nat));
        lemma_pow10_adds(2, (3 * g) as nat);
        assert(pow10(2) == 100);
        assert(glyph_val(tier_ten(t)) == 100 * pow10((3 * g) as nat));
    } else {
        lemma_pow10_adds(2, (3 * g) as nat);
        assert(pow10(2) == 100);
        assert(pow10(t as nat) == 100 * pow10((3 * g) as nat));
        if t == 2 {
            assert(g == 0);
            assert(tier_ten(2) == GlyphId { letter: 0, group: 1 });
            assert(glyph_val(GlyphId { letter: 0, group: 1 }) == 1 * pow10(3nat));
            assert(pow10(3) == 1000);
        } else {
            lemma_pow10_adds(3, (3 * g) as nat);
            assert(pow10(3) == 1000);
            assert(glyph_val(tier_ten(t)) == 1000 * pow10((3 * g) as nat));
        }
    }
}

} // verus!
