//! Vertex and index buffers, and what makes a pair of them a mesh.
//!
//! A vertex buffer is a flat sequence of scalars, three per vertex. An index
//! buffer names the corners of triangles, three per triangle, by vertex
//! number.

use vstd::prelude::*;
use crate::units::product;

verus! {

/// Number of vertices in a vertex buffer.
pub open spec fn vertex_count(positions: Seq<i32>) -> int {
    positions.len() as int / 3
}

/// A whole number of vertices, few enough to be numbered by an index.
pub open spec fn is_vertex_buffer(positions: Seq<i32>) -> bool {
    positions.len() % 3 == 0 && vertex_count(positions) <= u32::MAX
}

/// Every index is below `count`.
pub open spec fn in_range(indices: Seq<u32>, count: int) -> bool {
    forall|i: int| 0 <= i < indices.len() ==> (#[trigger] indices[i]) < count
}

/// The buffers form a triangle mesh: whole vertices, whole triangles, and
/// every corner an existing vertex.
pub open spec fn is_mesh(positions: Seq<i32>, indices: Seq<u32>) -> bool {
    is_vertex_buffer(positions) && indices.len() % 3 == 0 && in_range(
        indices,
        vertex_count(positions),
    )
}

/// Some index names vertex `v`.
pub open spec fn is_referenced(indices: Seq<u32>, v: int) -> bool {
    exists|i: int| 0 <= i < indices.len() && (#[trigger] indices[i]) == v
}

/// No vertex is orphaned: each one is named by some index.
pub open spec fn fully_referenced(positions: Seq<i32>, indices: Seq<u32>) -> bool {
    forall|v: int| 0 <= v < vertex_count(positions) ==> #[trigger] is_referenced(indices, v)
}

/// Scalar `axis` (0, 1 or 2 for x, y or z) of vertex `v`.
pub open spec fn coordinate(positions: Seq<i32>, v: int, axis: int) -> i32 {
    positions[3 * v + axis]
}

/// Twice the area of the triangle `a b c` as seen from above: positive
/// where the corners run counter-clockwise, negative where they run
/// clockwise.
pub open spec fn twice_signed_area(positions: Seq<i32>, a: int, b: int, c: int) -> int {
    product(
        coordinate(positions, b, 0) - coordinate(positions, a, 0),
        coordinate(positions, c, 1) - coordinate(positions, a, 1),
    ) - product(
        coordinate(positions, c, 0) - coordinate(positions, a, 0),
        coordinate(positions, b, 1) - coordinate(positions, a, 1),
    )
}

/// Tells whether every index is below `count`.
pub fn indices_in_range(indices: &[u32], count: usize) -> (ok: bool)
    ensures
        ok == in_range(indices@, count as int),
{
    let mut i: usize = 0;
    while i < indices.len()
        invariant
            i <= indices@.len(),
            forall|k: int| 0 <= k < i ==> (#[trigger] indices@[k]) < count,
        decreases indices@.len() - i,
    {
        if indices[i] as usize >= count {
            return false;
        }
        i += 1;
    }
    true
}

/// Marks the vertices that the index buffer names: entry `v` of the result
/// tells whether some index is `v`. Indices at or above `count` mark
/// nothing.
pub fn used_vertices(indices: &[u32], count: usize) -> (used: Vec<bool>)
    ensures
        used@.len() == count,
        forall|v: int| 0 <= v < count ==> (#[trigger] used@[v]) == is_referenced(indices@, v),
{
    let mut used: Vec<bool> = Vec::new();
    let mut v: usize = 0;
    while v < count
        invariant
            v <= count,
            used@.len() == v,
            forall|k: int| 0 <= k < v ==> !(#[trigger] used@[k]),
        decreases count - v,
    {
        used.push(false);
        v += 1;
    }
    let mut i: usize = 0;
    while i < indices.len()
        invariant
            i <= indices@.len(),
            used@.len() == count,
            forall|k: int|
                0 <= k < count ==> (#[trigger] used@[k]) == is_referenced(
                    indices@.subrange(0, i as int),
                    k,
                ),
        decreases indices@.len() - i,
    {
        let ghost seen = indices@.subrange(0, i as int);
        let ghost next = indices@.subrange(0, i + 1);
        let ghost before = used@;
        let index = indices[i] as usize;
        if index < count {
            used.set(index, true);
        }
        proof {
            assert forall|k: int| 0 <= k < count implies (#[trigger] used@[k]) == is_referenced(
                next,
                k,
            ) by {
                if is_referenced(seen, k) {
                    let j = choose|j: int| 0 <= j < seen.len() && (#[trigger] seen[j]) == k;
                    assert(next[j] == k);
                }
                if indices@[i as int] == k {
                    assert(next[i as int] == k);
                }
                if is_referenced(next, k) {
                    let j = choose|j: int| 0 <= j < next.len() && (#[trigger] next[j]) == k;
                    if j < i {
                        assert(seen[j] == k);
                    }
                }
            }
        }
        i += 1;
    }
    assert(indices@.subrange(0, i as int) =~= indices@);
    used
}

/// Tells whether the buffers form a triangle mesh.
pub fn check_mesh(positions: &[i32], indices: &[u32]) -> (ok: bool)
    ensures
        ok == is_mesh(positions@, indices@),
{
    let count: usize = positions.len() / 3;
    positions.len() % 3 == 0 && count <= 0xffff_ffff && indices.len() % 3 == 0 && indices_in_range(
        indices,
        count,
    )
}

} // verus!
