//! From the corners of a face, in winding order, to the triangles that the
//! engine draws.

use vstd::prelude::*;
use crate::conversions::{bevy_indices, to_bevy_indecies};

verus! {

/// The place in the winding order of corner `k` of a fan's triangle list:
/// triangle `t` has the corners 0, `t + 1` and `t + 2`.
pub open spec fn fan_corner(k: int) -> int {
    if k % 3 == 0 {
        0
    } else {
        k / 3 + k % 3
    }
}

/// The triangles of the fan over a polygon, three corners each: every
/// triangle starts at the polygon's first corner and spans two neighbours.
pub open spec fn fan_triangles(winding: Seq<usize>) -> Seq<usize>
    recommends
        winding.len() >= 3,
{
    Seq::new((3 * (winding.len() - 2)) as nat, |k: int| winding[fan_corner(k)])
}

/// Trusted: `shambler::face::face_triangle_indices`, called for one face.
/// For a polygon of fewer than three corners it makes no entry; for any
/// other it lists, for each `i` from 0 to the number of corners less three,
/// the corners at places 0, `i + 1` and `i + 2` of the winding order.
#[verifier::external_body]
fn face_triangle_indices(winding: &Vec<usize>) -> (triangles: Option<Vec<usize>>)
    ensures
        winding@.len() < 3 ==> triangles.is_none(),
        winding@.len() >= 3 ==> triangles.is_some() && triangles.unwrap()@ == fan_triangles(
            winding@,
        ),
{
    let face = shambler::face::FaceId(0);
    let windings: shambler::face::FaceIndices = std::iter::once((face, winding.clone())).collect();
    shambler::face::face_triangle_indices(&windings).get(&face).cloned()
}

/// The triangle list of a polygon as the engine takes it, if the polygon
/// has at least three corners.
pub open spec fn triangle_list(winding: Seq<usize>) -> Option<Seq<u32>> {
    if winding.len() >= 3 {
        Some(bevy_indices(fan_triangles(winding)))
    } else {
        None
    }
}

/// Cuts a polygon, given by its corners in winding order, into the
/// triangles of a fan around its first corner, and narrows their indices
/// to 32 bits. A polygon of fewer than three corners has no triangles.
pub fn triangulate(winding: &Vec<usize>) -> (indices: Option<Vec<u32>>)
    ensures
        match (indices, triangle_list(winding@)) {
            (Some(found), Some(expected)) => found@ == expected,
            (None, None) => true,
            _ => false,
        },
{
    match face_triangle_indices(winding) {
        Some(triangles) => Some(to_bevy_indecies(&triangles)),
        None => None,
    }
}

/// Whether every entry of a winding order names a corner of its own
/// polygon, and the corners can be counted in 32 bits.
pub open spec fn winding_in_range(winding: Seq<usize>) -> bool {
    &&& winding.len() <= u32::MAX
    &&& forall|k: int| 0 <= k < winding.len() ==> #[trigger] winding[k] < winding.len()
}

/// Tells whether every entry of a winding order names a corner of its own
/// polygon.
pub fn is_winding_in_range(winding: &Vec<usize>) -> (yes: bool)
    ensures
        yes == winding_in_range(winding@),
{
    if winding.len() > 0xffff_ffff {
        return false;
    }
    let mut k: usize = 0;
    while k < winding.len()
        invariant
            k <= winding.len(),
            forall|j: int| 0 <= j < k ==> #[trigger] winding@[j] < winding@.len(),
        decreases winding.len() - k,
    {
        if winding[k] >= winding.len() {
            return false;
        }
        k += 1;
    }
    true
}

/// A fan over a polygon of `n` corners has exactly `n - 2` triangles.
pub proof fn lemma_fan_triangle_count(winding: Seq<usize>)
    requires
        winding.len() >= 3,
    ensures
        fan_triangles(winding).len() == 3 * (winding.len() - 2),
        triangle_list(winding).unwrap().len() == 3 * (winding.len() - 2),
{
}

/// Triangle `t` of a fan has the corners at places 0, `t + 1` and `t + 2`
/// of the winding order.
pub proof fn lemma_fan_triangle_corners(winding: Seq<usize>, t: int)
    requires
        winding.len() >= 3,
        0 <= t < winding.len() - 2,
    ensures
        fan_triangles(winding)[3 * t] == winding[0],
        fan_triangles(winding)[3 * t + 1] == winding[t + 1],
        fan_triangles(winding)[3 * t + 2] == winding[t + 2],
{
}

/// Where the winding order names corners of its own polygon, so does every
/// index of the triangle list, unchanged by the narrowing to 32 bits.
pub proof fn lemma_triangle_list_in_range(winding: Seq<usize>, k: int)
    requires
        winding.len() >= 3,
        winding_in_range(winding),
        0 <= k < 3 * (winding.len() - 2),
    ensures
        triangle_list(winding).unwrap()[k] == winding[fan_corner(k)],
        triangle_list(winding).unwrap()[k] < winding.len(),
{
    assert(0 <= fan_corner(k) < winding.len());
}

/// Where no corner is named twice in the winding order, the three corners
/// of each triangle of the fan differ from one another.
pub proof fn lemma_fan_triangles_distinct(winding: Seq<usize>, t: int)
    requires
        winding.len() >= 3,
        0 <= t < winding.len() - 2,
        forall|i: int, j: int|
            0 <= i < j < winding.len() ==> #[trigger] winding[i] != #[trigger] winding[j],
    ensures
        fan_triangles(winding)[3 * t] != fan_triangles(winding)[3 * t + 1],
        fan_triangles(winding)[3 * t] != fan_triangles(winding)[3 * t + 2],
        fan_triangles(winding)[3 * t + 1] != fan_triangles(winding)[3 * t + 2],
{
    lemma_fan_triangle_corners(winding, t);
}

/// The first `n` triangles of a triangle list without those that are not
/// to be kept: triangle `t` stays if `keep` says so at place `t`.
pub open spec fn kept_triangles(indices: Seq<u32>, keep: Seq<bool>, n: nat) -> Seq<u32>
    decreases n,
{
    if n == 0 {
        Seq::<u32>::empty()
    } else {
        let before = kept_triangles(indices, keep, (n - 1) as nat);
        if n <= keep.len() && 3 * n <= indices.len() && keep[n - 1] {
            before + indices.subrange(3 * (n - 1), 3 * n as int)
        } else {
            before
        }
    }
}

/// Leaves out of a triangle list the triangles that are not to be kept,
/// as those without an area: triangle `t` stays if `keep` says so at place
/// `t`, and the triangles that stay keep their order.
pub fn retain_triangles(indices: &Vec<u32>, keep: &Vec<bool>) -> (kept: Vec<u32>)
    ensures
        kept@ == kept_triangles(indices@, keep@, keep@.len()),
{
    let mut kept: Vec<u32> = Vec::new();
    let mut t: usize = 0;
    while t < keep.len()
        invariant
            t <= keep.len(),
            kept@ == kept_triangles(indices@, keep@, t as nat),
        decreases keep.len() - t,
    {
        if keep[t] && t < indices.len() / 3 {
            let ghost before = kept@;
            kept.push(indices[3 * t]);
            kept.push(indices[3 * t + 1]);
            kept.push(indices[3 * t + 2]);
            proof {
                assert(kept@ =~= before + indices@.subrange(3 * t as int, 3 * (t + 1) as int));
            }
        }
        t += 1;
    }
    kept
}

/// Where every triangle is kept, the list stays as it is.
pub proof fn lemma_all_triangles_kept(indices: Seq<u32>, keep: Seq<bool>, n: nat)
    requires
        n <= keep.len(),
        3 * n <= indices.len(),
        forall|t: int| 0 <= t < n ==> #[trigger] keep[t],
    ensures
        kept_triangles(indices, keep, n) == indices.take(3 * n as int),
    decreases n,
{
    if n > 0 {
        lemma_all_triangles_kept(indices, keep, (n - 1) as nat);
        assert(keep[n - 1]);
        assert(indices.take(3 * (n - 1)) + indices.subrange(3 * (n - 1), 3 * n as int)
            =~= indices.take(3 * n as int));
    } else {
        assert(indices.take(0) =~= Seq::<u32>::empty());
    }
}

} // verus!
