//! The tile pipeline: from image bytes to a mesh ready to render.
//!
//! The pipeline runs in two steps around the simplifier. [`plan_tile`]
//! decodes the image, builds the grid and fixes the budget. The caller
//! runs the simplifier on the grid. [`finish_tile`] tests what came back,
//! drops the vertices that are no longer used and derives the texture
//! coordinates. A failure in either step ends the run without a mesh.

use vstd::prelude::*;
use crate::compact::{first_uses, gathered_positions, optimize, remapped_indices};
use crate::elevation::{decoded_elevations, png2elevation_rs, ElevationError};
use crate::compact::lemma_vertices_kept;
use crate::mesh::{check_mesh, coordinate, fully_referenced, in_range, is_mesh, vertex_count};
use crate::plane::{
    build_tile_mesh,
    grid_indices,
    grid_positions,
    grid_vertex_count,
    lemma_grid_on_tile,
};
use crate::units::{HEIGHT_FIELD_LEN, UV_ONE};
use crate::uv::lemma_uv_on_tile;
use crate::reduce::{
    budget_of,
    check_reduction,
    is_reduction,
    simplification_budget,
    ReductionPolicy,
    SimplificationBudget,
};
use crate::uv::{synthesize_uvs, uvs_of};

verus! {

/// Why a run produced no mesh.
#[derive(Clone, Copy, Debug, PartialEq, Eq, Structural)]
pub enum TileError {
    /// The tile size is not positive.
    Size,
    /// The image gave no height field.
    Elevation(ElevationError),
    /// The buffers of the task are not a triangle mesh.
    Mesh,
    /// The reduced index buffer is longer than the one it replaces, holds a
    /// broken triangle, or names a vertex that does not exist or that the
    /// index buffer it replaces does not use.
    Reduction,
}

/// The grid of a tile and what a simplifier is asked to do with it.
pub struct ReductionTask {
    /// Edge of the tile in coordinate steps.
    pub size: i32,
    /// Vertex buffer of the grid.
    pub positions: Vec<i32>,
    /// Index buffer of the grid.
    pub indices: Vec<u32>,
    /// What the simplifier is asked for.
    pub budget: SimplificationBudget,
}

/// A finished tile.
pub struct TileMesh {
    /// Vertex buffer: three coordinates per vertex, in coordinate steps.
    pub positions: Vec<i32>,
    /// Index buffer: three vertex numbers per triangle.
    pub indices: Vec<u32>,
    /// Texture coordinates: two per vertex, in 1/65536.
    pub uvs: Vec<i64>,
}

impl ReductionTask {
    /// The task holds a positive size and a triangle mesh.
    pub open spec fn well_formed(&self) -> bool {
        self.size > 0 && is_mesh(self.positions@, self.indices@)
    }
}

impl TileMesh {
    /// The tile is a triangle mesh without orphaned vertices, with one
    /// texture coordinate pair per vertex.
    pub open spec fn well_formed(&self) -> bool {
        is_mesh(self.positions@, self.indices@) && fully_referenced(self.positions@, self.indices@)
            && self.uvs@.len() == 2 * vertex_count(self.positions@)
    }
}

/// A flat height field gives a flat tile: whatever the simplifier keeps of
/// the grid, every vertex of the compacted buffer is at the one elevation
/// of the field.
pub proof fn lemma_flat_field_flat_tile(
    size: int,
    segments: int,
    heights: Seq<i32>,
    reduced: Seq<u32>,
    level: i32,
    v: int,
)
    requires
        0 < size <= i32::MAX,
        0 <= segments <= 255,
        heights.len() == HEIGHT_FIELD_LEN,
        forall|k: int| 0 <= k < heights.len() ==> heights[k] == level,
        in_range(reduced, grid_vertex_count(segments)),
        0 <= v < first_uses(reduced).len(),
    ensures
        coordinate(
            gathered_positions(grid_positions(size, segments, heights), first_uses(reduced)),
            v,
            2,
        ) == level,
{
    let grid = grid_positions(size, segments, heights);
    lemma_vertices_kept(grid, reduced, v, 2);
    let old_vertex = first_uses(reduced)[v];
    let at = choose|at: int| 0 <= at < reduced.len() && reduced[at] == old_vertex;
    assert(reduced[at] < grid_vertex_count(segments));
    lemma_grid_on_tile(size, segments, heights, old_vertex as int);
}

/// The texture coordinates of a tile lie in the unit range: whatever the
/// simplifier keeps of the grid, every vertex of the compacted buffer is on
/// the tile.
pub proof fn lemma_tile_uvs_in_unit_range(
    size: int,
    segments: int,
    heights: Seq<i32>,
    reduced: Seq<u32>,
    i: int,
)
    requires
        0 < size <= i32::MAX,
        0 <= segments <= 255,
        heights.len() == HEIGHT_FIELD_LEN,
        in_range(reduced, grid_vertex_count(segments)),
        0 <= i < 2 * first_uses(reduced).len(),
    ensures
        0 <= uvs_of(
            gathered_positions(grid_positions(size, segments, heights), first_uses(reduced)),
            size,
        )[i] <= UV_ONE,
{
    let grid = grid_positions(size, segments, heights);
    let kept = gathered_positions(grid, first_uses(reduced));
    let v = i / 2;
    let axis = i % 2;
    lemma_vertices_kept(grid, reduced, v, axis);
    let old_vertex = first_uses(reduced)[v];
    let at = choose|at: int| 0 <= at < reduced.len() && reduced[at] == old_vertex;
    assert(reduced[at] < grid_vertex_count(segments));
    lemma_grid_on_tile(size, segments, heights, old_vertex as int);
    assert(kept[3 * v + axis] == coordinate(kept, v, axis));
    lemma_uv_on_tile(kept[3 * v + axis] as int, size);
}

/// What a run has after its first step: the decoder's refusal, if the image
/// gave no height field; else the refusal of a size that is not positive;
/// else the grid and the budget.
pub open spec fn planned(
    decoded: Result<Seq<i32>, ElevationError>,
    size: int,
    segments: int,
    policy: ReductionPolicy,
    r: Result<ReductionTask, TileError>,
) -> bool {
    match decoded {
        Err(e) => r == Err::<ReductionTask, TileError>(TileError::Elevation(e)),
        Ok(heights) => if size <= 0 {
            r == Err::<ReductionTask, TileError>(TileError::Size)
        } else {
            r matches Ok(task) && task.size == size && task.positions@ == grid_positions(
                size,
                segments,
                heights,
            ) && task.indices@ == grid_indices(segments) && task.budget == budget_of(
                task.indices@.len() as int,
                policy,
            ) && task.well_formed()
        },
    }
}

/// The decoder's result with the height field as a sequence.
pub open spec fn decoded_view(decoded: Result<Vec<i32>, ElevationError>) -> Result<
    Seq<i32>,
    ElevationError,
> {
    match decoded {
        Ok(heights) => Ok(heights@),
        Err(e) => Err(e),
    }
}

/// Lays a decoded height field out as a grid, ready for reduction.
///
/// The decoder comes first: its refusal ends the run whatever the size and
/// the segments are. Only where the image gave a height field is a size that
/// is not positive refused.
pub fn plan_decoded(
    decoded: Result<Vec<i32>, ElevationError>,
    size: i32,
    segments: u8,
    policy: &ReductionPolicy,
) -> (r: Result<ReductionTask, TileError>)
    requires
        decoded matches Ok(heights) ==> heights@.len() == HEIGHT_FIELD_LEN,
    ensures
        planned(decoded_view(decoded), size as int, segments as int, *policy, r),
{
    let heights = match decoded {
        Ok(h) => h,
        Err(e) => { return Err(TileError::Elevation(e)); },
    };
    if size <= 0 {
        return Err(TileError::Size);
    }
    let (positions, indices) = build_tile_mesh(size, segments, heights.as_slice());
    let budget = simplification_budget(indices.len(), policy);
    Ok(ReductionTask { size, positions, indices, budget })
}

/// Decodes an elevation image and lays it out as a grid, ready for
/// reduction.
///
/// `size` is the edge of the tile in coordinate steps and `segments` the
/// number of grid cells along each axis. The image is decoded first: an
/// image that gives no height field ends the run with the decoder's reason,
/// whatever the size and the segments are. A size that is not positive is
/// refused where the image decoded. A height field that is decoded has
/// 65536 samples.
pub fn plan_tile(png_bytes: &[u8], size: i32, segments: u8, policy: &ReductionPolicy) -> (r: Result<
    ReductionTask,
    TileError,
>)
    ensures
        planned(decoded_elevations(png_bytes@), size as int, segments as int, *policy, r),
        decoded_elevations(png_bytes@) matches Ok(heights) ==> heights.len() == HEIGHT_FIELD_LEN,
{
    let decoded = png2elevation_rs(png_bytes);
    plan_decoded(decoded, size, segments, policy)
}

/// Turns a task and the simplifier's answer to it into the finished tile.
///
/// The answer is accepted only if it is no longer than the index buffer of
/// the task, holds whole triangles and names only vertices that the task's
/// index buffer names. The finished tile holds exactly the vertices that the
/// answer names, in the order of their first use, the answer renumbered to
/// match, and the texture coordinates of those vertices.
pub fn finish_tile(task: &ReductionTask, reduced: Vec<u32>) -> (r: Result<TileMesh, TileError>)
    ensures
        task.size <= 0 ==> r == Err::<TileMesh, TileError>(TileError::Size),
        task.size > 0 && !is_mesh(task.positions@, task.indices@) ==> r == Err::<
            TileMesh,
            TileError,
        >(TileError::Mesh),
        task.well_formed() && !is_reduction(
            reduced@,
            task.indices@,
            vertex_count(task.positions@),
        ) ==> r == Err::<TileMesh, TileError>(TileError::Reduction),
        task.well_formed() && is_reduction(
            reduced@,
            task.indices@,
            vertex_count(task.positions@),
        ) ==> (r matches Ok(tile) && tile.indices@ == remapped_indices(reduced@) && tile.positions@
            == gathered_positions(task.positions@, first_uses(reduced@)) && tile.uvs@ == uvs_of(
            tile.positions@,
            task.size as int,
        ) && tile.well_formed() && tile.indices@.len() <= task.indices@.len() && vertex_count(
            tile.positions@,
        ) <= vertex_count(task.positions@)),
{
    if task.size <= 0 {
        return Err(TileError::Size);
    }
    if !check_mesh(task.positions.as_slice(), task.indices.as_slice()) {
        return Err(TileError::Mesh);
    }
    if !check_reduction(reduced.as_slice(), task.indices.as_slice(), task.positions.len() / 3) {
        return Err(TileError::Reduction);
    }
    let mut indices = reduced;
    let positions = optimize(&mut indices, task.positions.as_slice());
    let uvs = synthesize_uvs(positions.as_slice(), task.size);
    Ok(TileMesh { positions, indices, uvs })
}

} // verus!
