//! Facts about sequences.

use vstd::prelude::*;

verus! {

/// A sequence that is expanded element by element ends with the expansion of its last one.
pub proof fn lemma_flat_map_last<A, B>(s: Seq<A>, f: spec_fn(A) -> Seq<B>)
    ensures
        s.len() == 0 ==> s.flat_map(f) == Seq::<B>::empty(),
        s.len() > 0 ==> s.flat_map(f) == s.drop_last().flat_map(f) + f(s.last()),
{
    let parts = s.map_values(f);
    parts.lemma_flatten_and_flatten_alt_are_equivalent();
    if s.len() > 0 {
        assert(parts.drop_last() =~= s.drop_last().map_values(f));
        parts.drop_last().lemma_flatten_and_flatten_alt_are_equivalent();
    }
}

/// A filtered sequence ends with the last element if that is kept.
pub proof fn lemma_filter_last<A>(s: Seq<A>, p: spec_fn(A) -> bool)
    ensures
        s.len() == 0 ==> s.filter(p) == Seq::<A>::empty(),
        s.len() > 0 ==> s.filter(p) == (if p(s.last()) {
            s.drop_last().filter(p).push(s.last())
        } else {
            s.drop_last().filter(p)
        }),
{
    reveal(Seq::filter);
    if s.len() == 0 {
        assert(s =~= Seq::empty());
    }
}

} // verus!
