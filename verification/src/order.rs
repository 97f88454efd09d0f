use vstd::prelude::*;

verus! {

/// The natural order on path names that the sorting collaborator implements:
/// contiguous digit runs compare as magnitudes rather than character by
/// character, so a name ending in `.2` sorts before one ending in `.10`.
/// `natural_le(a, b)` holds when `a` sorts no later than `b`.
pub uninterp spec fn natural_le(a: Seq<char>, b: Seq<char>) -> bool;

/// A sequence of path names in ascending natural order.
pub open spec fn sorted_natural(v: Seq<Seq<char>>) -> bool {
    forall|i: int, j: int| 0 <= i < j < v.len() ==> natural_le(v[i], v[j])
}

/// Relies on `alphanumeric_sort::sort_str_slice`, which reorders the slice in
/// place by the crate's natural-order comparison `compare_str`: the result
/// holds the same names, in ascending natural order.
#[verifier::external_body]
pub(crate) fn sort_paths_natural(paths: &mut Vec<String>)
    ensures
        final(paths)@.len() == old(paths)@.len(),
        final(paths)@.map_values(|p: String| p@).to_multiset() == old(paths)@.map_values(
            |p: String| p@,
        ).to_multiset(),
        forall|i: int, j: int|
            0 <= i < j < final(paths)@.len() ==> natural_le(final(paths)@[i]@, final(paths)@[j]@),
{
    alphanumeric_sort::sort_str_slice(paths);
}

} // verus!
