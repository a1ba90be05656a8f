//! Finding the first element of a sequence that meets a condition.

use vstd::prelude::*;

verus! {

/// The first position whose element is wanted, or the length of the
/// sequence if no element is.
pub open spec fn first_match<T>(elements: Seq<T>, wanted: spec_fn(T) -> bool) -> int
    decreases elements.len(),
{
    if elements.len() == 0 {
        0
    } else if wanted(elements[0]) {
        0
    } else {
        1 + first_match(elements.skip(1), wanted)
    }
}

/// `first_match` gives a place within the sequence or its length; the
/// element at that place is wanted, and no element before it is.
pub proof fn lemma_first_match<T>(elements: Seq<T>, wanted: spec_fn(T) -> bool)
    ensures
        0 <= first_match(elements, wanted) <= elements.len(),
        first_match(elements, wanted) < elements.len() ==> wanted(
            elements[first_match(elements, wanted)],
        ),
        forall|j: int| 0 <= j < first_match(elements, wanted) ==> !wanted(#[trigger] elements[j]),
    decreases elements.len(),
{
    if elements.len() > 0 && !wanted(elements[0]) {
        let rest = elements.skip(1);
        lemma_first_match(rest, wanted);
        assert forall|j: int| 0 <= j < first_match(elements, wanted) implies !wanted(
            #[trigger] elements[j],
        ) by {
            if j > 0 {
                assert(elements[j] == rest[j - 1]);
            }
        }
    }
}

/// A place whose element is wanted, with no wanted element before it, is
/// the first match; and so is the length, if no element is wanted.
pub proof fn lemma_first_match_is<T>(elements: Seq<T>, wanted: spec_fn(T) -> bool, at: int)
    requires
        0 <= at <= elements.len(),
        at < elements.len() ==> wanted(elements[at]),
        forall|j: int| 0 <= j < at ==> !wanted(#[trigger] elements[j]),
    ensures
        first_match(elements, wanted) == at,
{
    lemma_first_match(elements, wanted);
}

} // verus!
