//! Concatenation of a sequence of character sequences, with the few facts
//! the codec proofs need about it.

use vstd::prelude::*;

verus! {

/// All the sequences of `ts`, joined in order.
pub open spec fn concat_all(ts: Seq<Seq<char>>) -> Seq<char>
    decreases ts.len(),
{
    if ts.len() == 0 {
        Seq::<char>::empty()
    } else {
        ts[0] + concat_all(ts.drop_first())
    }
}

pub proof fn lemma_concat_all_cons(a: Seq<char>, rest: Seq<Seq<char>>)
    ensures
        concat_all(seq![a] + rest) == a + concat_all(rest),
{
    let whole = seq![a] + rest;
    assert(whole[0] == a);
    assert(whole.drop_first() =~= rest);
}

pub proof fn lemma_concat_all_one(a: Seq<char>)
    ensures
        concat_all(seq![a]) == a,
{
    assert(seq![a].drop_first() =~= Seq::<Seq<char>>::empty());
    assert(concat_all(seq![a]) == seq![a][0] + concat_all(Seq::<Seq<char>>::empty()));
    assert(seq![a][0] == a);
    assert(a + Seq::<char>::empty() =~= a);
}

pub proof fn lemma_concat_all_append(x: Seq<Seq<char>>, y: Seq<Seq<char>>)
    ensures
        concat_all(x + y) == concat_all(x) + concat_all(y),
    decreases x.len(),
{
    if x.len() == 0 {
        assert(x + y =~= y);
        assert(concat_all(x) + concat_all(y) =~= concat_all(y));
    } else {
        lemma_concat_all_append(x.drop_first(), y);
        assert((x + y).drop_first() =~= x.drop_first() + y);
        assert((x + y)[0] == x[0]);
        assert(x[0] + (concat_all(x.drop_first()) + concat_all(y)) =~= (x[0] + concat_all(
            x.drop_first(),
        )) + concat_all(y));
    }
}

/// Every character of the joined sequence comes from one of the pieces.
pub proof fn lemma_concat_all_chars(ts: Seq<Seq<char>>, p: spec_fn(char) -> bool)
    requires
        forall|i: int, j: int|
            0 <= i < ts.len() && 0 <= j < ts[i].len() ==> p(#[trigger] ts[i][j]),
    ensures
        forall|k: int| 0 <= k < concat_all(ts).len() ==> p(#[trigger] concat_all(ts)[k]),
    decreases ts.len(),
{
    if ts.len() > 0 {
        lemma_concat_all_chars(ts.drop_first(), p);
        assert forall|k: int| 0 <= k < concat_all(ts).len() implies p(concat_all(ts)[k]) by {
            if k < ts[0].len() {
                assert(concat_all(ts)[k] == ts[0][k]);
            } else {
                assert(concat_all(ts)[k] == concat_all(ts.drop_first())[k - ts[0].len()]);
            }
        }
    }
}

/// Every character of the joined sequence stands in one of the pieces.
pub proof fn lemma_concat_all_char_source(ts: Seq<Seq<char>>, k: int)
    requires
        0 <= k < concat_all(ts).len(),
    ensures
        exists|i: int, j: int|
            0 <= i < ts.len() && 0 <= j < ts[i].len() && #[trigger] ts[i][j] == concat_all(ts)[k],
    decreases ts.len(),
{
    if k < ts[0].len() {
        assert(ts[0][k] == concat_all(ts)[k]);
    } else {
        lemma_concat_all_char_source(ts.drop_first(), k - ts[0].len());
        let (i0, j0) = choose|i: int, j: int|
            0 <= i < ts.drop_first().len() && 0 <= j < ts.drop_first()[i].len()
                && #[trigger] ts.drop_first()[i][j] == concat_all(ts.drop_first())[k - ts[0].len()];
        assert(ts[i0 + 1][j0] == concat_all(ts)[k]);
    }
}

} // verus!
