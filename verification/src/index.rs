use crate::grid::{in_reach, on_grid};
use vstd::multiset::Multiset;
use vstd::prelude::*;

verus! {

/// The cell that a stored point stands for.
pub open spec fn point_of(a: [i64; 2]) -> (int, int) {
    (a@[0] as int, a@[1] as int)
}

/// The cells that a list of stored points stands for, in the same order.
pub open spec fn points_of(s: Seq<[i64; 2]>) -> Seq<(int, int)> {
    s.map_values(|a: [i64; 2]| point_of(a))
}

/// The cells that a list of borrowed stored points stands for, in the same order.
pub open spec fn hits_of(s: Seq<&[i64; 2]>) -> Seq<(int, int)> {
    s.map_values(|a: &[i64; 2]| point_of(*a))
}

/// A k-d tree over grid cells, kept by the `kd_tree` crate. Nothing of its
/// inside is visible to the proofs: they speak of `index_points` only.
#[verifier::external_body]
pub struct CellIndex {
    tree: kd_tree::KdTree<[i64; 2]>,
}

/// The cells that an index holds, each as often as it was handed to `index_build`.
pub uninterp spec fn index_points(index: CellIndex) -> Multiset<(int, int)>;

/// `kd_tree::KdTree::build`: the tree holds exactly the points it was built
/// from, rearranged. Not proved here.
#[verifier::external_body]
pub(crate) fn index_build(points: Vec<[i64; 2]>) -> (index: CellIndex)
    ensures
        index_points(index) == points_of(points@).to_multiset(),
{
    CellIndex { tree: kd_tree::KdTree::build(points) }
}

/// `kd_tree::KdSliceN::within_radius`: the points of the tree whose squared
/// distance from `query` is strictly below the square of `radius`, in no
/// promised order; none where `radius` is negative. The crate computes in
/// `i64` without checks, so the coordinates and the radius are held to 32
/// bits, where nothing overflows. Not proved here.
#[verifier::external_body]
pub(crate) fn index_within_radius<'a>(index: &'a CellIndex, query: &[i64; 2], radius: i64) -> (hits:
    Vec<&'a [i64; 2]>)
    requires
        on_grid(point_of(*query)),
        i32::MIN <= radius <= i32::MAX,
        forall|p: (int, int)| index_points(*index).count(p) > 0 ==> on_grid(p),
    ensures
        hits_of(hits@).to_multiset() == index_points(*index).filter(
            |p: (int, int)| in_reach(p, point_of(*query), radius as int),
        ),
{
    index.tree.within_radius(query, radius)
}

} // verus!
