//! Dropping the vertices that no triangle uses.
//!
//! The vertices that remain are stored in the order in which the index
//! buffer first names them, so that a pass over the triangles reads the
//! vertex buffer front to back.

use vstd::prelude::*;
use crate::mesh::{
    coordinate,
    fully_referenced,
    in_range,
    is_referenced,
    is_vertex_buffer,
    vertex_count,
};

verus! {

/// The distinct values of an index buffer, in the order of their first
/// appearance.
pub open spec fn first_uses(indices: Seq<u32>) -> Seq<u32>
    decreases indices.len(),
{
    if indices.len() == 0 {
        Seq::empty()
    } else {
        let before = first_uses(indices.drop_last());
        if before.contains(indices.last()) {
            before
        } else {
            before.push(indices.last())
        }
    }
}

/// The index buffer renumbered: each index becomes the place of its vertex
/// among the first uses.
pub open spec fn remapped_indices(indices: Seq<u32>) -> Seq<u32> {
    Seq::new(indices.len(), |i: int| first_uses(indices).index_of(indices[i]) as u32)
}

/// The vertex buffer that holds the vertices `order` of `positions`, in
/// that order.
pub open spec fn gathered_positions(positions: Seq<i32>, order: Seq<u32>) -> Seq<i32> {
    Seq::new(3 * order.len(), |i: int| positions[3 * (order[i / 3] as int) + i % 3])
}

/// Calls `meshopt::optimize_vertex_fetch` on vertices of three scalars.
///
/// The routine walks the index buffer once. At the first use of a vertex it
/// appends the vertex to the output and gives it the next free number; it
/// overwrites every index with the number of its vertex. The contract says
/// exactly that. The routine reads vertices at the indices it is given, so
/// all of them must exist.
#[verifier::external_body]
fn fetch_order(indices: &mut Vec<u32>, positions: &[i32]) -> (compact: Vec<i32>)
    requires
        is_vertex_buffer(positions@),
        in_range(old(indices)@, vertex_count(positions@)),
    ensures
        final(indices)@ == remapped_indices(old(indices)@),
        compact@ == gathered_positions(positions@, first_uses(old(indices)@)),
{
    let vertices: Vec<[i32; 3]> = positions.chunks_exact(3).map(|p| [p[0], p[1], p[2]]).collect();
    let kept = meshopt::optimize_vertex_fetch(indices.as_mut_slice(), &vertices);
    kept.into_iter().flatten().collect()
}

/// The first uses hold exactly the values of the index buffer, each once.
pub proof fn lemma_first_uses(indices: Seq<u32>)
    ensures
        first_uses(indices).no_duplicates(),
        first_uses(indices).len() <= indices.len(),
        forall|v: u32| #[trigger] first_uses(indices).contains(v) <==> indices.contains(v),
    decreases indices.len(),
{
    if indices.len() > 0 {
        let head = indices.drop_last();
        let last = indices.last();
        lemma_first_uses(head);
        let before = first_uses(head);
        let order = first_uses(indices);
        assert forall|v: u32| #[trigger] order.contains(v) <==> indices.contains(v) by {
            if indices.contains(v) {
                let i = choose|i: int| 0 <= i < indices.len() && indices[i] == v;
                if i < head.len() {
                    assert(head[i] == v);
                    assert(head.contains(v));
                    assert(before.contains(v));
                    let j = choose|j: int| 0 <= j < before.len() && before[j] == v;
                    assert(order[j] == v);
                } else {
                    assert(v == last);
                    if !before.contains(last) {
                        assert(order[before.len() as int] == last);
                    }
                }
                assert(order.contains(v));
            }
            if order.contains(v) {
                let j = choose|j: int| 0 <= j < order.len() && order[j] == v;
                if j < before.len() {
                    assert(before[j] == v);
                    assert(before.contains(v));
                    assert(head.contains(v));
                    let i = choose|i: int| 0 <= i < head.len() && head[i] == v;
                    assert(indices[i] == v);
                } else {
                    assert(v == last);
                    assert(indices[indices.len() - 1] == v);
                }
                assert(indices.contains(v));
            }
        }
    }
}

/// The compacted vertex buffer has one vertex for each distinct index.
pub proof fn lemma_vertex_per_distinct_index(indices: Seq<u32>)
    ensures
        first_uses(indices).len() == indices.to_set().len(),
{
    lemma_first_uses(indices);
    let order = first_uses(indices);
    order.unique_seq_to_set();
    assert(order.to_set() =~= indices.to_set());
}

/// The first uses of indices below `count` are at most `count` many.
pub proof fn lemma_first_uses_bounded(indices: Seq<u32>, count: int)
    requires
        0 <= count,
        in_range(indices, count),
    ensures
        first_uses(indices).len() <= count,
        in_range(first_uses(indices), count),
{
    lemma_first_uses(indices);
    let order = first_uses(indices);
    assert forall|k: int| 0 <= k < order.len() implies (#[trigger] order[k]) < count by {
        assert(order.contains(order[k]));
        assert(indices.contains(order[k]));
        let i = choose|i: int| 0 <= i < indices.len() && indices[i] == order[k];
        assert(indices[i] < count);
    }
    order.unique_seq_to_set();
    let widen = |v: u32| v as int;
    let used = order.to_set();
    let range = vstd::set_lib::set_int_range(0, count);
    vstd::seq_lib::seq_to_set_is_finite(order);
    assert(vstd::relations::injective_on(widen, used));
    vstd::set_lib::lemma_map_size(used, used.map(widen), widen);
    vstd::set_lib::lemma_int_range(0, count);
    assert(used.map(widen).subset_of(range)) by {
        assert forall|x: int| used.map(widen).contains(x) implies range.contains(x) by {
            let v = choose|v: u32| used.contains(v) && x == widen(v);
            assert(order.contains(v));
            let k = choose|k: int| 0 <= k < order.len() && order[k] == v;
            assert(order[k] < count);
        }
    }
    vstd::set_lib::lemma_len_subset(used.map(widen), range);
}

/// Every renumbered index names the place, among the first uses, of the
/// vertex that the index named before.
pub proof fn lemma_remap_follows_order(indices: Seq<u32>, i: int)
    requires
        0 <= i < indices.len(),
    ensures
        remapped_indices(indices)[i] == first_uses(indices).index_of(indices[i]),
        0 <= remapped_indices(indices)[i] < first_uses(indices).len(),
        first_uses(indices)[remapped_indices(indices)[i] as int] == indices[i],
{
    lemma_first_uses(indices);
    lemma_first_uses_bounded(indices, 0x1_0000_0000);
    let order = first_uses(indices);
    assert(indices.contains(indices[i]));
    assert(order.contains(indices[i]));
    let k = order.index_of(indices[i]);
    assert(0 <= k < order.len() && order[k] == indices[i]);
}

/// No vertex is orphaned: every vertex of the compacted buffer is named by
/// some renumbered index.
pub proof fn lemma_no_orphans(indices: Seq<u32>, v: int)
    requires
        0 <= v < first_uses(indices).len(),
    ensures
        is_referenced(remapped_indices(indices), v),
{
    lemma_first_uses(indices);
    let order = first_uses(indices);
    assert(order.contains(order[v]));
    assert(indices.contains(order[v]));
    let i = choose|i: int| 0 <= i < indices.len() && indices[i] == order[v];
    lemma_remap_follows_order(indices, i);
    let k = remapped_indices(indices)[i] as int;
    assert(order[k] == order[v]);
    assert(k == v);
    assert(remapped_indices(indices)[i] == v);
}

/// Compaction moves no corner: each renumbered index finds, in the
/// compacted buffer, the coordinates that the index found before.
pub proof fn lemma_corners_kept(positions: Seq<i32>, indices: Seq<u32>, i: int, axis: int)
    requires
        0 <= i < indices.len(),
        0 <= axis < 3,
    ensures
        coordinate(
            gathered_positions(positions, first_uses(indices)),
            remapped_indices(indices)[i] as int,
            axis,
        ) == coordinate(positions, indices[i] as int, axis),
{
    lemma_remap_follows_order(indices, i);
}

/// Compaction makes no vertex: vertex `v` of the compacted buffer is the
/// vertex of the old buffer that was used `v`-th.
pub proof fn lemma_vertices_kept(positions: Seq<i32>, indices: Seq<u32>, v: int, axis: int)
    requires
        0 <= v < first_uses(indices).len(),
        0 <= axis < 3,
    ensures
        indices.contains(first_uses(indices)[v]),
        coordinate(gathered_positions(positions, first_uses(indices)), v, axis) == coordinate(
            positions,
            first_uses(indices)[v] as int,
            axis,
        ),
{
    lemma_first_uses(indices);
    assert(first_uses(indices).contains(first_uses(indices)[v]));
}

/// Drops the vertices that no index names, and renumbers the indices to
/// match.
///
/// The vertices that remain are stored in the order of their first use.
/// `index` holds the same triangles afterwards, named by the new vertex
/// numbers.
pub fn optimize(index: &mut Vec<u32>, position: &[i32]) -> (compact: Vec<i32>)
    requires
        is_vertex_buffer(position@),
        in_range(old(index)@, vertex_count(position@)),
    ensures
        final(index)@ == remapped_indices(old(index)@),
        compact@ == gathered_positions(position@, first_uses(old(index)@)),
        final(index)@.len() == old(index)@.len(),
        is_vertex_buffer(compact@),
        vertex_count(compact@) == first_uses(old(index)@).len(),
        vertex_count(compact@) == old(index)@.to_set().len(),
        vertex_count(compact@) <= vertex_count(position@),
        in_range(final(index)@, vertex_count(compact@)),
        fully_referenced(compact@, final(index)@),
{
    let ghost before = index@;
    let compact = fetch_order(index, position);
    proof {
        lemma_first_uses_bounded(before, vertex_count(position@));
        lemma_vertex_per_distinct_index(before);
        assert forall|v: int| 0 <= v < vertex_count(compact@) implies #[trigger] is_referenced(
            index@,
            v,
        ) by {
            lemma_no_orphans(before, v);
        }
        assert forall|i: int| 0 <= i < index@.len() implies (#[trigger] index@[i]) < vertex_count(
            compact@,
        ) by {
            lemma_remap_follows_order(before, i);
        }
    }
    compact
}

} // verus!
