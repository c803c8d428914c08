use vstd::prelude::*;

verus! {

/// Holds when `needle` occurs in `hay` starting at index `i`.
pub open spec fn occurs_at<A>(hay: Seq<A>, needle: Seq<A>, i: int) -> bool {
    0 <= i && i + needle.len() <= hay.len() && hay.subrange(i, i + needle.len()) == needle
}

/// Holds when `needle` occurs somewhere in `hay`.
pub open spec fn contains_seq<A>(hay: Seq<A>, needle: Seq<A>) -> bool {
    exists|i: int| occurs_at(hay, needle, i)
}

/// An occurrence in the left part of a concatenation is an occurrence in the whole.
pub proof fn lemma_occurs_at_left<A>(a: Seq<A>, b: Seq<A>, needle: Seq<A>, i: int)
    requires
        occurs_at(a, needle, i),
    ensures
        occurs_at(a + b, needle, i),
{
    assert((a + b).subrange(i, i + needle.len()) =~= needle);
}

/// An occurrence in the right part of a concatenation is an occurrence in the
/// whole, shifted by the length of the left part.
pub proof fn lemma_occurs_at_right<A>(a: Seq<A>, b: Seq<A>, needle: Seq<A>, i: int)
    requires
        occurs_at(b, needle, i),
    ensures
        occurs_at(a + b, needle, a.len() + i),
{
    assert((a + b).subrange(a.len() + i, a.len() + i + needle.len()) =~= needle);
}

} // verus!
