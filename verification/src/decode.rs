//! The decoder: numeral string to integer.
//!
//! The input is split into glyphs at grapheme-cluster boundaries (a glyph
//! is a base letter plus combining marks and must never be split), every
//! glyph is resolved through the value table, and the values are summed
//! left to right with subtractive-pair resolution.

use vstd::prelude::*;

use crate::errors::DecodeError;
use crate::glyphs::{
    all_glyph_chars, glyph_lookup, glyph_value_of, is_mark, lemma_glyph_value_of_bounds, pow10,
};
use crate::seq_util::concat_all;
use unicode_segmentation::UnicodeSegmentation;

verus! {

/// How many leading characters of `s` are combining marks.
pub open spec fn marks_prefix_len(s: Seq<char>) -> nat
    decreases s.len(),
{
    if s.len() == 0 || !is_mark(s[0]) {
        0
    } else {
        1 + marks_prefix_len(s.drop_first())
    }
}

pub proof fn lemma_marks_prefix_len_le(s: Seq<char>)
    ensures
        marks_prefix_len(s) <= s.len(),
    decreases s.len(),
{
    if s.len() > 0 && is_mark(s[0]) {
        lemma_marks_prefix_len_le(s.drop_first());
    }
}

/// The length of the first grapheme cluster of `s`: the leading run of
/// marks where `s` starts with a mark, else the first character together
/// with the marks that follow it.
pub open spec fn first_cluster_len(s: Seq<char>) -> nat {
    if s.len() == 0 {
        0
    } else if is_mark(s[0]) {
        marks_prefix_len(s)
    } else {
        1 + marks_prefix_len(s.skip(1))
    }
}

pub proof fn lemma_first_cluster_len(s: Seq<char>)
    requires
        s.len() > 0,
    ensures
        1 <= first_cluster_len(s) <= s.len(),
{
    if is_mark(s[0]) {
        lemma_marks_prefix_len_le(s);
    } else {
        lemma_marks_prefix_len_le(s.skip(1));
        assert(s.skip(1) =~= s.drop_first());
    }
}

/// The grapheme clusters of a string of base letters and combining marks:
/// each cluster is one leading character and the marks that follow it.
pub open spec fn split_glyphs(s: Seq<char>) -> Seq<Seq<char>>
    decreases s.len(),
    via split_glyphs_decreases
{
    if s.len() == 0 {
        Seq::<Seq<char>>::empty()
    } else {
        let k = first_cluster_len(s) as int;
        seq![s.take(k)] + split_glyphs(s.skip(k))
    }
}

#[via_fn]
proof fn split_glyphs_decreases(s: Seq<char>) {
    if s.len() > 0 {
        lemma_first_cluster_len(s);
    }
}

/// A well-formed cluster: nonempty, a non-mark first, marks after.
pub open spec fn wf_cluster(cs: Seq<char>) -> bool {
    &&& cs.len() >= 1
    &&& !is_mark(cs[0])
    &&& forall|i: int| 1 <= i < cs.len() ==> is_mark(cs[i])
}

/// A run of marks followed by a non-mark (or nothing) has exactly the run
/// as its marks prefix.
pub proof fn lemma_marks_prefix_of_run(ms: Seq<char>, rest: Seq<char>)
    requires
        forall|i: int| 0 <= i < ms.len() ==> is_mark(ms[i]),
        rest.len() == 0 || !is_mark(rest[0]),
    ensures
        marks_prefix_len(ms + rest) == ms.len(),
    decreases ms.len(),
{
    if ms.len() == 0 {
        assert(ms + rest =~= rest);
    } else {
        lemma_marks_prefix_of_run(ms.drop_first(), rest);
        assert((ms + rest)[0] == ms[0]);
        assert((ms + rest).drop_first() =~= ms.drop_first() + rest);
    }
}

/// Splitting takes one well-formed cluster off the front where the rest
/// starts with a non-mark.
pub proof fn lemma_split_cluster(g: Seq<char>, rest: Seq<char>)
    requires
        wf_cluster(g),
        rest.len() == 0 || !is_mark(rest[0]),
    ensures
        split_glyphs(g + rest) == seq![g] + split_glyphs(rest),
{
    let s = g + rest;
    assert(s[0] == g[0]);
    assert(s.skip(1) =~= g.skip(1) + rest);
    assert(forall|i: int| 0 <= i < g.skip(1).len() ==> is_mark(#[trigger] g.skip(1)[i]));
    lemma_marks_prefix_of_run(g.skip(1), rest);
    assert(first_cluster_len(s) == g.len());
    assert(s.take(g.len() as int) =~= g);
    assert(s.skip(g.len() as int) =~= rest);
}

/// Splitting the concatenation of well-formed clusters gives the clusters
/// back.
pub proof fn lemma_split_concat(ts: Seq<Seq<char>>)
    requires
        forall|i: int| 0 <= i < ts.len() ==> wf_cluster(#[trigger] ts[i]),
    ensures
        split_glyphs(concat_all(ts)) == ts,
    decreases ts.len(),
{
    if ts.len() == 0 {
    } else {
        let rest = concat_all(ts.drop_first());
        lemma_split_concat(ts.drop_first());
        if ts.drop_first().len() > 0 {
            assert(ts.drop_first()[0] == ts[1]);
            assert(rest[0] == ts[1][0]);
        }
        lemma_split_cluster(ts[0], rest);
        assert(seq![ts[0]] + ts.drop_first() =~= ts);
    }
}

/// The grapheme clusters of a string, as the segmentation library yields
/// them.
pub uninterp spec fn graphemes_of(s: Seq<char>) -> Seq<Seq<char>>;

/// Relies on unicode_segmentation's `UnicodeSegmentation::graphemes` with
/// `is_extended` set: it yields the extended grapheme clusters of UAX 29
/// as consecutive substrings whose concatenation is the input.  Its tables
/// class the combining marks U+0305, U+0332, U+0333, U+033F, U+20D2 and
/// U+20E6 as Extend and give Latin capitals no class, so for text made of
/// those characters every cluster is one leading character together with
/// the marks that follow it.
#[verifier::external_body]
fn split_graphemes(s: &str) -> (r: Vec<Vec<char>>)
    ensures
        r.deep_view() == graphemes_of(s@),
        concat_all(r.deep_view()) == s@,
        all_glyph_chars(s@) ==> r.deep_view() == split_glyphs(s@),
{
    s.graphemes(true).map(|g| g.chars().collect()).collect()
}

/// One step of the subtractive scan: a value smaller than its successor
/// was already added, so its pair contributes `next - 2 * prev` more; any
/// other value is a plain addend.  A step that would drive the total
/// negative is a malformed numeral; one that leaves the 64-bit range is an
/// overflow.
pub open spec fn scan_values(vs: Seq<int>, prev: int, total: int) -> Result<int, DecodeError>
    decreases vs.len(),
{
    if vs.len() == 0 {
        Ok(total)
    } else {
        let next = vs[0];
        let stepped = if prev < next {
            total - 2 * prev + next
        } else {
            total + next
        };
        if prev < next && stepped < 0 {
            Err(DecodeError::MalformedNumeral)
        } else if stepped > u64::MAX as int {
            Err(DecodeError::Overflow)
        } else {
            scan_values(vs.drop_first(), next, stepped)
        }
    }
}

/// The values of a sequence of glyph tokens (0 for an unknown token; the
/// decoder rejects the input before the value is used).
pub open spec fn token_values(ts: Seq<Seq<char>>) -> Seq<int> {
    ts.map_values(
        |cs: Seq<char>|
            match glyph_value_of(cs) {
                Some(v) => v,
                None => 0,
            },
    )
}

/// What the decoder returns for a given token sequence: `UnknownGlyph` if
/// any token is not in the value table, otherwise the subtractive scan of
/// the values, rejecting a zero result.
pub open spec fn spec_decode(ts: Seq<Seq<char>>) -> Result<u64, DecodeError> {
    if exists|i: int| 0 <= i < ts.len() && glyph_value_of(#[trigger] ts[i]) is None {
        Err(DecodeError::UnknownGlyph)
    } else {
        match scan_values(token_values(ts), 0, 0) {
            Err(e) => Err(e),
            Ok(total) => if total == 0 {
                Err(DecodeError::ZeroResult)
            } else {
                Ok(total as u64)
            },
        }
    }
}

/// The integer value of a numeral string: the glyphs are read at grapheme
/// boundaries, resolved through the value table, and summed left to right
/// with subtractive pairs.
pub fn vinculum2arabic(input: &str) -> (r: Result<u64, DecodeError>)
    ensures
        r == spec_decode(graphemes_of(input@)),
        concat_all(graphemes_of(input@)) == input@,
        all_glyph_chars(input@) ==> r == spec_decode(split_glyphs(input@)),
{
    let toks = split_graphemes(input);
    let ghost gts = toks.deep_view();
    let n = toks.len();
    let mut vals: Vec<u128> = Vec::new();
    let mut i: usize = 0;
    while i < n
        invariant
            i <= n,
            n == toks@.len(),
            n == gts.len(),
            gts == toks.deep_view(),
            gts == graphemes_of(input@),
            concat_all(gts) == input@,
            all_glyph_chars(input@) ==> gts == split_glyphs(input@),
            vals@.len() == i,
            forall|j: int| 0 <= j < i ==> glyph_value_of(#[trigger] gts[j]) is Some,
            forall|j: int| 0 <= j < i ==> vals@[j] as int == token_values(gts)[j],
            forall|j: int| 0 <= j < i ==> 1 <= #[trigger] vals@[j] <= pow10(21),
        decreases n - i,
    {
        proof {
            assert(gts[i as int] =~= toks@[i as int]@);
        }
        match glyph_lookup(&toks[i]) {
            Some(v) => {
                proof {
                    lemma_glyph_value_of_bounds(gts[i as int]);
                    assert(token_values(gts)[i as int] == v as int);
                }
                vals.push(v);
            },
            None => {
                proof {
                    assert(glyph_value_of(gts[i as int]) is None);
                }
                return Err(DecodeError::UnknownGlyph);
            },
        }
        i = i + 1;
    }
    proof {
        assert(!(exists|j: int| 0 <= j < gts.len() && glyph_value_of(#[trigger] gts[j]) is None));
    }
    let ghost vs = token_values(gts);
    let mut total: u128 = 0;
    let mut prev: u128 = 0;
    let mut k: usize = 0;
    proof {
        reveal_with_fuel(pow10, 23);
        assert(pow10(21) == 1000000000000000000000);
        assert(vs.skip(0) =~= vs);
    }
    while k < n
        invariant
            k <= n,
            n == gts.len(),
            gts == graphemes_of(input@),
            concat_all(gts) == input@,
            all_glyph_chars(input@) ==> gts == split_glyphs(input@),
            vals@.len() == n,
            vs == token_values(gts),
            forall|j: int| 0 <= j < n ==> vals@[j] as int == vs[j],
            forall|j: int| 0 <= j < n ==> 1 <= #[trigger] vals@[j] <= pow10(21),
            pow10(21) == 1000000000000000000000,
            total <= u64::MAX,
            prev <= pow10(21),
            scan_values(vs, 0, 0) == scan_values(vs.skip(k as int), prev as int, total as int),
            !(exists|j: int|
                0 <= j < gts.len() && glyph_value_of(#[trigger] gts[j]) is None),
        decreases n - k,
    {
        let next = vals[k];
        let ghost tail = vs.skip(k as int);
        let ghost total0 = total as int;
        let ghost prev0 = prev as int;
        proof {
            assert(tail[0] == vs[k as int]);
            assert(next as int == vs[k as int]);
            assert(tail.drop_first() =~= vs.skip(k as int + 1));
        }
        if prev < next {
            let sum = total + next;
            if sum < 2 * prev {
                proof {
                    assert(total0 - 2 * prev0 + (next as int) < 0);
                    assert(scan_values(tail, prev0, total0) == Err::<int, DecodeError>(
                        DecodeError::MalformedNumeral,
                    ));
                }
                return Err(DecodeError::MalformedNumeral);
            }
            total = sum - 2 * prev;
        } else {
            total = total + next;
        }
        proof {
            assert(total as int == if prev0 < (next as int) {
                total0 - 2 * prev0 + (next as int)
            } else {
                total0 + (next as int)
            });
        }
        if total > u64::MAX as u128 {
            proof {
                assert(scan_values(tail, prev0, total0) == Err::<int, DecodeError>(
                    DecodeError::Overflow,
                ));
            }
            return Err(DecodeError::Overflow);
        }
        proof {
            assert(scan_values(tail, prev0, total0) == scan_values(
                vs.skip(k as int + 1),
                next as int,
                total as int,
            ));
        }
        prev = next;
        k = k + 1;
    }
    proof {
        assert(vs.skip(n as int) =~= Seq::<int>::empty());
    }
    if total == 0 {
        Err(DecodeError::ZeroResult)
    } else {
        Ok(total as u64)
    }
}

} // verus!
