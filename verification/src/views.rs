//! Helpers for reasoning about deep views of vectors.

use vstd::prelude::*;

verus! {

/// The element-wise deep view of a sequence.
pub open spec fn seq_deep<T: DeepView>(s: Seq<T>) -> Seq<T::V> {
    Seq::new(s.len(), |i: int| s[i].deep_view())
}

/// A vector's deep view is the element-wise deep view of its view.
pub broadcast proof fn lemma_vec_deep<T: DeepView>(v: Vec<T>)
    ensures
        #[trigger] v.deep_view() == seq_deep(v@),
{
    assert(v.deep_view() =~= seq_deep(v@));
}

/// Deep views distribute over push.
pub broadcast proof fn lemma_deep_push<T: DeepView>(s: Seq<T>, x: T)
    ensures
        #[trigger] seq_deep(s.push(x)) == seq_deep(s).push(x.deep_view()),
{
    assert(seq_deep(s.push(x)) =~= seq_deep(s).push(x.deep_view()));
}

/// Deep views distribute over concatenation.
pub broadcast proof fn lemma_deep_add<T: DeepView>(a: Seq<T>, b: Seq<T>)
    ensures
        #[trigger] seq_deep(a + b) == seq_deep(a) + seq_deep(b),
{
    assert(seq_deep(a + b) =~= seq_deep(a) + seq_deep(b));
}

/// The deep view of an empty sequence is empty.
pub broadcast proof fn lemma_deep_empty<T: DeepView>(s: Seq<T>)
    ensures
        s.len() == 0 ==> #[trigger] seq_deep(s) == Seq::<T::V>::empty(),
{
    if s.len() == 0 {
        assert(seq_deep(s) =~= Seq::<T::V>::empty());
    }
}

pub broadcast group group_deep_view {
    lemma_vec_deep,
    lemma_deep_push,
    lemma_deep_add,
    lemma_deep_empty,
}

} // verus!
