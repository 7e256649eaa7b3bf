//! Optional text and sequences of viewed values.

use vstd::prelude::*;

verus! {

/// The characters of an optional string.
pub open spec fn opt_text(text: Option<String>) -> Option<Seq<char>> {
    match text {
        Some(s) => Some(s@),
        None => None,
    }
}

/// A copy of an optional string.
pub fn clone_opt(text: &Option<String>) -> (copy: Option<String>)
    ensures
        opt_text(copy) == opt_text(*text),
{
    match text {
        Some(s) => Some(s.clone()),
        None => None,
    }
}

/// The views of the values of a sequence, in order.
pub open spec fn views<T: View>(values: Seq<T>) -> Seq<T::V> {
    Seq::new(values.len(), |i: int| values[i]@)
}

/// The views of a sequence that grew by one value.
pub proof fn lemma_views_push<T: View>(values: Seq<T>, value: T)
    ensures
        views(values.push(value)) == views(values).push(value@),
{
    assert(views(values.push(value)) =~= views(values).push(value@));
}

/// The views of two sequences, one after the other.
pub proof fn lemma_views_add<T: View>(front: Seq<T>, back: Seq<T>)
    ensures
        views(front + back) == views(front) + views(back),
{
    assert(views(front + back) =~= views(front) + views(back));
}

} // verus!
