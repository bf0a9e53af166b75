//! The budget handed to a mesh simplifier, and the test that its answer
//! must pass.
//!
//! The simplifier itself works on floating-point positions and is run by
//! the caller. This module fixes what it is asked for and decides whether
//! what it returns may replace the index buffer of the mesh.

use vstd::prelude::*;
use crate::mesh::{in_range, indices_in_range, is_referenced, used_vertices};
use crate::units::product;

verus! {

/// Share of the triangles, in percent, that a reduction aims to keep
/// unless told otherwise.
pub const DEFAULT_KEEP_PERCENT: u8 = 20;

/// Largest displacement, in error parts of 1/10000 of a unit, that a
/// reduction may cause unless told otherwise: 0.01 of a unit.
pub const DEFAULT_MAX_ERROR: u32 = 100;

/// How far a mesh is to be reduced.
#[derive(Clone, Copy, Debug, PartialEq, Eq, Structural)]
pub struct ReductionPolicy {
    /// Share of the triangles to keep, in percent. Anything above 100
    /// counts as 100.
    pub keep_percent: u8,
    /// Largest displacement that the reduction may cause, in error parts
    /// of 1/10000 of a unit.
    pub max_error: u32,
}

/// What a simplifier is asked for on one mesh.
#[derive(Clone, Copy, Debug, PartialEq, Eq, Structural)]
pub struct SimplificationBudget {
    /// Number of indices to aim for: three times the triangle target.
    pub target_index_count: usize,
    /// Largest displacement allowed, in error parts of 1/10000 of a unit.
    pub max_error: u32,
}

/// The share that is in fact kept: `keep_percent`, capped at 100.
pub open spec fn kept_percent(keep_percent: int) -> int {
    if keep_percent > 100 {
        100
    } else {
        keep_percent
    }
}

/// Number of triangles to aim for: the share of `triangles`, rounded down.
pub open spec fn target_triangles(triangles: int, keep_percent: int) -> int {
    product(triangles, kept_percent(keep_percent)) / 100
}

/// The budget for an index buffer of `index_count` entries.
pub open spec fn budget_of(index_count: int, policy: ReductionPolicy) -> SimplificationBudget {
    SimplificationBudget {
        target_index_count: (3 * target_triangles(index_count / 3, policy.keep_percent as int)) as usize,
        max_error: policy.max_error,
    }
}

/// Every vertex that `reduced` names is one that `indices` names: a
/// reduction lets vertices fall out of use and brings none into use.
pub open spec fn draws_from(reduced: Seq<u32>, indices: Seq<u32>) -> bool {
    forall|i: int|
        0 <= i < reduced.len() ==> is_referenced(indices, (#[trigger] reduced[i]) as int)
}

/// `reduced` may stand in for the index buffer `indices` over `count`
/// vertices: it is no longer, it holds whole triangles, every corner is one
/// of the vertices, and every corner is a vertex that `indices` uses.
pub open spec fn is_reduction(reduced: Seq<u32>, indices: Seq<u32>, count: int) -> bool {
    reduced.len() <= indices.len() && reduced.len() % 3 == 0 && in_range(reduced, count)
        && draws_from(reduced, indices)
}

/// A reduction does not raise the number of vertices in use.
pub proof fn lemma_reduction_uses_no_more(reduced: Seq<u32>, indices: Seq<u32>)
    requires
        draws_from(reduced, indices),
    ensures
        reduced.to_set().len() <= indices.to_set().len(),
{
    vstd::seq_lib::seq_to_set_is_finite(indices);
    assert(reduced.to_set().subset_of(indices.to_set())) by {
        assert forall|v: u32| reduced.to_set().contains(v) implies indices.to_set().contains(
            v,
        ) by {
            assert(reduced.contains(v));
            let i = choose|i: int| 0 <= i < reduced.len() && reduced[i] == v;
            assert(is_referenced(indices, reduced[i] as int));
            let j = choose|j: int| 0 <= j < indices.len() && (#[trigger] indices[j]) == v as int;
            assert(indices[j] == v);
            assert(indices.contains(v));
        }
    }
    vstd::set_lib::lemma_len_subset(reduced.to_set(), indices.to_set());
}

/// The triangle target never exceeds the triangle count.
pub proof fn lemma_target_bounded(triangles: int, keep_percent: int)
    requires
        0 <= triangles,
        0 <= keep_percent,
    ensures
        0 <= target_triangles(triangles, keep_percent) <= triangles,
{
    let p = kept_percent(keep_percent);
    assert(0 <= (triangles * p) / 100 <= triangles) by (nonlinear_arith)
        requires
            0 <= triangles,
            0 <= p <= 100,
    ;
}

impl ReductionPolicy {
    /// Keep a fifth of the triangles and move nothing by more than 0.01 of
    /// a unit.
    pub fn standard() -> (policy: ReductionPolicy)
        ensures
            policy == (ReductionPolicy {
                keep_percent: DEFAULT_KEEP_PERCENT,
                max_error: DEFAULT_MAX_ERROR,
            }),
    {
        ReductionPolicy { keep_percent: DEFAULT_KEEP_PERCENT, max_error: DEFAULT_MAX_ERROR }
    }
}

/// Number of triangles to aim for when `keep_percent` of `triangle_count`
/// are to stay.
pub fn triangle_target(triangle_count: usize, keep_percent: u8) -> (target: usize)
    ensures
        target == target_triangles(triangle_count as int, keep_percent as int),
        target <= triangle_count,
{
    let percent: usize = if keep_percent > 100 {
        100
    } else {
        keep_percent as usize
    };
    let hundreds: usize = triangle_count / 100;
    let rest: usize = triangle_count % 100;
    proof {
        lemma_target_bounded(triangle_count as int, keep_percent as int);
        assert((triangle_count * percent) / 100 == hundreds * percent + (rest * percent) / 100
            && hundreds * percent <= triangle_count && 0 <= rest * percent <= 9900)
            by (nonlinear_arith)
            requires
                triangle_count == hundreds * 100 + rest,
                0 <= rest < 100,
                0 <= percent <= 100,
                0 <= hundreds,
        ;
    }
    hundreds * percent + (rest * percent) / 100
}

/// The budget for reducing an index buffer of `index_count` entries.
pub fn simplification_budget(index_count: usize, policy: &ReductionPolicy) -> (budget:
    SimplificationBudget)
    ensures
        budget == budget_of(index_count as int, *policy),
        budget.target_index_count <= index_count,
        budget.target_index_count % 3 == 0,
{
    let target = triangle_target(index_count / 3, policy.keep_percent);
    SimplificationBudget { target_index_count: 3 * target, max_error: policy.max_error }
}

/// Tells whether `reduced` may stand in for the index buffer `indices` over
/// `vertex_count` vertices.
pub fn check_reduction(reduced: &[u32], indices: &[u32], vertex_count: usize) -> (ok: bool)
    ensures
        ok == is_reduction(reduced@, indices@, vertex_count as int),
{
    if reduced.len() > indices.len() || reduced.len() % 3 != 0 || !indices_in_range(
        reduced,
        vertex_count,
    ) {
        return false;
    }
    let used = used_vertices(indices, vertex_count);
    let mut i: usize = 0;
    while i < reduced.len()
        invariant
            i <= reduced@.len(),
            in_range(reduced@, vertex_count as int),
            used@.len() == vertex_count,
            forall|v: int|
                0 <= v < vertex_count ==> (#[trigger] used@[v]) == is_referenced(indices@, v),
            forall|k: int| 0 <= k < i ==> is_referenced(indices@, (#[trigger] reduced@[k]) as int),
        decreases reduced@.len() - i,
    {
        if !used[reduced[i] as usize] {
            assert(!is_referenced(indices@, reduced@[i as int] as int));
            return false;
        }
        i += 1;
    }
    true
}

} // verus!
