//! Laying a height field out as a regular triangle grid.
//!
//! The grid is centred on the origin. Grid line `k` of `segments` cells lies
//! at `(2 * k - segments) * size / (2 * segments)`, which runs from minus
//! half the size to plus half the size. The half is the exact one: nothing
//! is halved before the division. The quotient is rounded to the nearest
//! coordinate step, and a quotient half way between two steps to the one
//! nearer the centre, so no vertex lies off the tile, whether the size is
//! even or odd. Rows run from the top edge of the image down, so `y` falls
//! as the row grows, and every triangle is counter-clockwise when seen from
//! above.

use vstd::prelude::*;
use vstd::arithmetic::div_mod::{lemma_fundamental_div_mod, lemma_fundamental_div_mod_converse};
use crate::mesh::{coordinate, is_mesh, twice_signed_area};
use crate::units::{floor_quotient, product, remainder, HEIGHT_FIELD_LEN};

verus! {

/// The quotient of `num` by a positive `den`, rounded to the nearest whole
/// number, and toward zero where it lies half way between two.
pub open spec fn nearest(num: int, den: int) -> int {
    if num >= 0 {
        floor_quotient(2 * num + den - 1, 2 * den)
    } else {
        -floor_quotient(2 * (-num) + den - 1, 2 * den)
    }
}

/// Planar coordinate of grid line `k`, measured from the centre of a tile
/// of edge `size` with `segments` cells: `(2 * k - segments) * size / (2 *
/// segments)`, rounded to the nearest coordinate step.
pub open spec fn grid_coord(size: int, segments: int, k: int) -> int {
    nearest(product(2 * k - segments, size), 2 * segments)
}

/// The pixel row or column that grid line `k` samples: the nearest one at
/// or before it, with the last grid line on the last pixel.
pub open spec fn sample_coord(segments: int, k: int) -> int {
    floor_quotient(k * 255, segments)
}

/// Planar `x` of the vertices in column `col`.
pub open spec fn vertex_x(size: int, segments: int, col: int) -> int {
    grid_coord(size, segments, col)
}

/// Planar `y` of the vertices in row `row`.
pub open spec fn vertex_y(size: int, segments: int, row: int) -> int {
    -grid_coord(size, segments, row)
}

/// Where in the height field the vertex at `row`, `col` takes its elevation.
pub open spec fn sample_index(segments: int, row: int, col: int) -> int {
    sample_coord(segments, row) * 256 + sample_coord(segments, col)
}

/// Number of vertices in a grid of `segments` cells per axis. A grid
/// without cells has no vertex.
pub open spec fn grid_vertex_count(segments: int) -> int {
    if segments <= 0 {
        0
    } else {
        product(segments + 1, segments + 1)
    }
}

/// Scalar `i` of the vertex buffer: vertices in row-major order, three
/// scalars each.
pub open spec fn grid_scalar(size: int, segments: int, heights: Seq<i32>, i: int) -> i32 {
    let vertex = i / 3;
    let row = floor_quotient(vertex, segments + 1);
    let col = remainder(vertex, segments + 1);
    if i % 3 == 0 {
        vertex_x(size, segments, col) as i32
    } else if i % 3 == 1 {
        vertex_y(size, segments, row) as i32
    } else {
        heights[sample_index(segments, row, col)]
    }
}

/// The vertex buffer of the grid.
pub open spec fn grid_positions(size: int, segments: int, heights: Seq<i32>) -> Seq<i32> {
    Seq::new(
        (3 * grid_vertex_count(segments)) as nat,
        |i: int| grid_scalar(size, segments, heights, i),
    )
}

/// Entry `i` of the index buffer: cells in row-major order, two triangles
/// each. With `a` the cell's top left vertex, `b` the one below it, `c`
/// the one below and to the right and `d` the one to the right, the
/// triangles are `a b d` and `b c d`.
pub open spec fn grid_corner(segments: int, i: int) -> int {
    let cell = i / 6;
    let row = floor_quotient(cell, segments);
    let col = remainder(cell, segments);
    let a = product(row, segments + 1) + col;
    let b = a + segments + 1;
    let k = i % 6;
    if k == 0 {
        a
    } else if k == 1 || k == 3 {
        b
    } else if k == 4 {
        b + 1
    } else {
        a + 1
    }
}

/// The index buffer of the grid.
pub open spec fn grid_indices(segments: int) -> Seq<u32> {
    Seq::new((6 * product(segments, segments)) as nat, |i: int| grid_corner(segments, i) as u32)
}

proof fn lemma_sample_coord_bound(segments: int, k: int)
    requires
        0 <= k <= segments,
        0 < segments,
    ensures
        0 <= sample_coord(segments, k) <= 255,
{
    assert(0 <= (k * 255) / segments <= 255) by (nonlinear_arith)
        requires
            0 <= k <= segments,
            0 < segments,
    ;
}

/// A grid line lies on the tile: twice its coordinate is between minus the
/// size and the size.
proof fn lemma_grid_coord_bound(size: int, segments: int, k: int)
    requires
        0 <= k <= segments,
        0 < segments,
        0 < size,
    ensures
        -size <= 2 * grid_coord(size, segments, k) <= size,
        -(segments * size) <= (2 * k - segments) * size <= segments * size,
        segments <= 255 ==> -(255 * size) <= (2 * k - segments) * size <= 255 * size,
{
    let num = (2 * k - segments) * size;
    let den = 2 * segments;
    assert(-(segments * size) <= num <= segments * size && (segments <= 255 ==> -(255 * size)
        <= num <= 255 * size)) by (nonlinear_arith)
        requires
            num == (2 * k - segments) * size,
            0 <= k <= segments,
            0 < segments,
            0 < size,
    ;
    let far = if num >= 0 { num } else { -num };
    let q = (2 * far + den - 1) / (2 * den);
    assert(0 <= 2 * q <= size) by (nonlinear_arith)
        requires
            q == (2 * far + den - 1) / (2 * den),
            0 <= far <= segments * size,
            den == 2 * segments,
            0 < segments,
    ;
}

/// Row and column of a cell or vertex found again from its row-major
/// number.
proof fn lemma_row_major(width: int, row: int, col: int)
    requires
        0 <= col < width,
        0 <= row,
    ensures
        (row * width + col) / width == row,
        (row * width + col) % width == col,
        row * width + col <= (row + 1) * width - 1,
{
    lemma_fundamental_div_mod_converse(row * width + col, width, row, col);
    assert((row + 1) * width == row * width + width) by (nonlinear_arith);
}

/// Grid lines further along lie further out, and strictly so where the
/// tile is more coordinate steps wide than it has cells.
proof fn lemma_grid_coord_grows(size: int, segments: int, k: int)
    requires
        0 < segments,
        0 < size,
    ensures
        grid_coord(size, segments, k) <= grid_coord(size, segments, k + 1),
        size > segments ==> grid_coord(size, segments, k) < grid_coord(size, segments, k + 1),
{
    let lo = (2 * k - segments) * size;
    let hi = (2 * (k + 1) - segments) * size;
    let den = 2 * segments;
    assert(hi == lo + 2 * size) by (nonlinear_arith)
        requires
            lo == (2 * k - segments) * size,
            hi == (2 * (k + 1) - segments) * size,
    ;
    if lo >= 0 {
        let a = 2 * lo + den - 1;
        assert(a / (2 * den) <= (a + 4 * size) / (2 * den) && (2 * size >= den ==> a / (2 * den)
            < (a + 4 * size) / (2 * den))) by (nonlinear_arith)
            requires
                0 < size,
                0 < den,
                0 <= a,
        ;
    } else if hi < 0 {
        let a = 2 * (-hi) + den - 1;
        assert(a / (2 * den) <= (a + 4 * size) / (2 * den) && (2 * size >= den ==> a / (2 * den)
            < (a + 4 * size) / (2 * den))) by (nonlinear_arith)
            requires
                0 < size,
                0 < den,
                0 <= a,
        ;
    } else {
        let a = 2 * (-lo) + den - 1;
        let b = 2 * hi + den - 1;
        assert(0 <= a / (2 * den) && 0 <= b / (2 * den) && (2 * size > den ==> 0 < a / (2 * den)
            || 0 < b / (2 * den))) by (nonlinear_arith)
            requires
                a + b == 4 * size + 2 * den - 2,
                0 < den,
                0 <= a,
                0 <= b,
        ;
    }
}

/// The outermost grid lines lie half the size from the centre: on the very
/// edge of the tile where the size is even, half a coordinate step inside
/// it where the size is odd.
pub proof fn lemma_grid_edges(size: int, segments: int)
    requires
        0 < segments,
        0 < size,
    ensures
        grid_coord(size, segments, 0) == -(size / 2),
        grid_coord(size, segments, segments) == size / 2,
{
    let den = 2 * segments;
    let span = segments * size;
    assert((2 * 0 - segments) * size == -span && (2 * segments - segments) * size == span && span
        > 0) by (nonlinear_arith)
        requires
            span == segments * size,
            0 < segments,
            0 < size,
    ;
    let half = size / 2;
    assert((2 * span + den - 1) / (2 * den) == half) by (nonlinear_arith)
        requires
            span == segments * size,
            den == 2 * segments,
            0 < segments,
            2 * half <= size <= 2 * half + 1,
    ;
}

/// A grid line is the exact position rounded by no more than half a
/// coordinate step, and away from the centre by less than that.
pub proof fn lemma_grid_coord_rounding(size: int, segments: int, k: int)
    requires
        0 < segments,
    ensures
        (2 * k - segments) * size >= 0 ==> -segments <= 2 * segments * grid_coord(size, segments, k)
            - (2 * k - segments) * size < segments,
        (2 * k - segments) * size <= 0 ==> -segments < 2 * segments * grid_coord(size, segments, k)
            - (2 * k - segments) * size <= segments,
{
    let num = (2 * k - segments) * size;
    let den = 2 * segments;
    let far = if num >= 0 { num } else { -num };
    let q = (2 * far + den - 1) / (2 * den);
    assert(-segments <= 2 * segments * q - far < segments) by (nonlinear_arith)
        requires
            q == (2 * far + den - 1) / (2 * den),
            den == 2 * segments,
            0 <= far,
            0 < segments,
    ;
    if num < 0 {
        assert(2 * segments * (-q) == -(2 * segments * q)) by (nonlinear_arith);
    }
}

/// The vertex at `row`, `col` is vertex number `row * (segments + 1) + col`.
/// It lies on grid line `col` across and `row` down, at the elevation of
/// the height sample that the two lines select.
pub proof fn lemma_grid_vertex(size: int, segments: int, heights: Seq<i32>, row: int, col: int)
    requires
        0 < size <= i32::MAX,
        0 < segments,
        0 <= row <= segments,
        0 <= col <= segments,
    ensures
        0 <= row * (segments + 1) + col < grid_vertex_count(segments),
        coordinate(grid_positions(size, segments, heights), row * (segments + 1) + col, 0)
            == vertex_x(size, segments, col),
        coordinate(grid_positions(size, segments, heights), row * (segments + 1) + col, 1)
            == vertex_y(size, segments, row),
        coordinate(grid_positions(size, segments, heights), row * (segments + 1) + col, 2)
            == heights[sample_index(segments, row, col)],
{
    let width = segments + 1;
    let v = row * width + col;
    lemma_row_major(width, row, col);
    assert(0 <= row * width && (row + 1) * width <= width * width) by (nonlinear_arith)
        requires
            0 <= row < width,
    ;
    lemma_grid_coord_bound(size, segments, row);
    lemma_grid_coord_bound(size, segments, col);
    assert((3 * v) / 3 == v && (3 * v + 1) / 3 == v && (3 * v + 2) / 3 == v);
}

/// Every vertex of the grid lies on the tile, between minus half the size
/// and plus half the size on both axes, at the elevation of one of the
/// height samples.
pub proof fn lemma_grid_on_tile(size: int, segments: int, heights: Seq<i32>, v: int)
    requires
        0 < size <= i32::MAX,
        0 < segments <= 255,
        heights.len() == HEIGHT_FIELD_LEN,
        0 <= v < grid_vertex_count(segments),
    ensures
        -size <= 2 * coordinate(grid_positions(size, segments, heights), v, 0) <= size,
        -size <= 2 * coordinate(grid_positions(size, segments, heights), v, 1) <= size,
        exists|k: int|
            0 <= k < heights.len() && coordinate(grid_positions(size, segments, heights), v, 2)
                == #[trigger] heights[k],
{
    let width = segments + 1;
    let row = v / width;
    let col = v % width;
    lemma_fundamental_div_mod(v, width);
    assert(0 <= row < width && v == row * width + col) by (nonlinear_arith)
        requires
            0 <= v < width * width,
            0 < width,
            row == v / width,
            col == v % width,
            v == width * row + col,
    ;
    lemma_grid_vertex(size, segments, heights, row, col);
    lemma_grid_coord_bound(size, segments, row);
    lemma_grid_coord_bound(size, segments, col);
    lemma_sample_coord_bound(segments, row);
    lemma_sample_coord_bound(segments, col);
    let k = sample_index(segments, row, col);
    assert(0 <= k < heights.len());
    assert(coordinate(grid_positions(size, segments, heights), v, 2) == heights[k]);
}

/// Every triangle of the grid runs counter-clockwise when seen from above,
/// or has no area. It has an area wherever the tile is more coordinate
/// steps wide than it has cells; on a narrower tile there are more grid
/// lines than coordinates to put them on.
pub proof fn lemma_grid_winding(size: int, segments: int, heights: Seq<i32>, t: int)
    requires
        0 < size <= i32::MAX,
        0 < segments <= 255,
        0 <= t < 2 * segments * segments,
    ensures
        0 <= 3 * t && 3 * t + 2 < grid_indices(segments).len(),
        twice_signed_area(
            grid_positions(size, segments, heights),
            grid_indices(segments)[3 * t] as int,
            grid_indices(segments)[3 * t + 1] as int,
            grid_indices(segments)[3 * t + 2] as int,
        ) >= 0,
        size > segments ==> twice_signed_area(
            grid_positions(size, segments, heights),
            grid_indices(segments)[3 * t] as int,
            grid_indices(segments)[3 * t + 1] as int,
            grid_indices(segments)[3 * t + 2] as int,
        ) > 0,
{
    let width = segments + 1;
    let cell = t / 2;
    let row = cell / segments;
    let col = cell % segments;
    assert(2 * segments * segments == 2 * (segments * segments) && 6 * segments * segments == 6 * (
        segments * segments)) by (nonlinear_arith);
    assert(0 <= cell < segments * segments);
    assert(0 <= row < segments && 0 <= col < segments && cell == row * segments + col)
        by (nonlinear_arith)
        requires
            0 <= cell < segments * segments,
            0 < segments,
            row == cell / segments,
            col == cell % segments,
    ;
    assert((3 * t) / 6 == cell && (3 * t + 1) / 6 == cell && (3 * t + 2) / 6 == cell);
    let a = row * width + col;
    let b = a + width;
    assert(b == (row + 1) * width + col) by (nonlinear_arith)
        requires
            b == row * width + col + width,
    ;
    lemma_grid_vertex(size, segments, heights, row, col);
    lemma_grid_vertex(size, segments, heights, row, col + 1);
    lemma_grid_vertex(size, segments, heights, row + 1, col);
    lemma_grid_vertex(size, segments, heights, row + 1, col + 1);
    assert(grid_vertex_count(segments) <= 65536) by (nonlinear_arith)
        requires
            0 < segments <= 255,
            grid_vertex_count(segments) == (segments + 1) * (segments + 1),
    ;
    lemma_grid_coord_grows(size, segments, row);
    lemma_grid_coord_grows(size, segments, col);
    let across = vertex_x(size, segments, col + 1) - vertex_x(size, segments, col);
    let down = vertex_y(size, segments, row) - vertex_y(size, segments, row + 1);
    assert(across * down >= 0 && (across > 0 && down > 0 ==> across * down > 0))
        by (nonlinear_arith)
        requires
            across >= 0,
            down >= 0,
    ;
    let p = grid_positions(size, segments, heights);
    let i = grid_indices(segments);
    if t % 2 == 0 {
        assert((3 * t) % 6 == 0 && (3 * t + 1) % 6 == 1 && (3 * t + 2) % 6 == 2);
        assert(i[3 * t] == a && i[3 * t + 1] == b && i[3 * t + 2] == a + 1);
        assert(twice_signed_area(p, a, b, a + 1) == 0 * 0 - across * (-down));
        assert(across * (-down) == -(across * down)) by (nonlinear_arith);
    } else {
        assert((3 * t) % 6 == 3 && (3 * t + 1) % 6 == 4 && (3 * t + 2) % 6 == 5);
        assert(i[3 * t] == b && i[3 * t + 1] == b + 1 && i[3 * t + 2] == a + 1);
        assert(twice_signed_area(p, b, b + 1, a + 1) == across * down - across * 0);
    }
}

/// Planar coordinate of grid line `k`.
fn line_coord(size: i32, segments: usize, k: usize) -> (coord: i32)
    requires
        size > 0,
        0 < segments <= 255,
        k <= segments,
    ensures
        coord == grid_coord(size as int, segments as int, k as int),
        -size <= 2 * coord <= size,
{
    proof {
        lemma_grid_coord_bound(size as int, segments as int, k as int);
    }
    let num: i64 = (2 * (k as i64) - segments as i64) * (size as i64);
    let den: i64 = 2 * (segments as i64);
    if num >= 0 {
        ((2 * num + den - 1) / (2 * den)) as i32
    } else {
        (-((2 * (-num) + den - 1) / (2 * den))) as i32
    }
}

/// Builds the grid mesh of a tile: its vertex buffer and its index buffer.
///
/// `size` is the edge of the tile in coordinate steps and `segments` the
/// number of cells along each axis. The grid is centred on the origin and
/// reaches half the size to each side; each grid line is rounded to the
/// nearest coordinate step on the tile. Each vertex takes its elevation
/// from the nearest height sample at or before it. Without cells the mesh
/// is empty.
pub fn build_tile_mesh(size: i32, segments: u8, heightmap: &[i32]) -> (mesh: (Vec<i32>, Vec<u32>))
    requires
        size > 0,
        heightmap@.len() == HEIGHT_FIELD_LEN,
    ensures
        mesh.0@ == grid_positions(size as int, segments as int, heightmap@),
        mesh.1@ == grid_indices(segments as int),
        mesh.0@.len() == 3 * grid_vertex_count(segments as int),
        mesh.1@.len() == 6 * (segments as int) * (segments as int),
        forall|i: int| 0 <= i < mesh.1@.len() ==> (#[trigger] mesh.1@[i]) < grid_vertex_count(segments as int),
        is_mesh(mesh.0@, mesh.1@),
{
    let mut positions: Vec<i32> = Vec::new();
    let mut indices: Vec<u32> = Vec::new();
    if segments == 0 {
        assert(positions@ =~= grid_positions(size as int, 0, heightmap@));
        assert(indices@ =~= grid_indices(0));
        return (positions, indices);
    }
    let n: usize = segments as usize;
    let width: usize = n + 1;
    let ghost sz = size as int;
    let ghost seg = segments as int;
    assert(grid_vertex_count(seg) == width * width);
    assert(width * width <= 65536) by (nonlinear_arith)
        requires
            0 < width <= 256,
    ;
    assert(6 * n * n <= 6 * 65536) by (nonlinear_arith)
        requires
            0 < n <= 255,
    ;

    let mut row: usize = 0;
    while row < width
        invariant
            0 < n <= 255,
            width == n + 1,
            seg == n,
            sz == size,
            size > 0,
            heightmap@.len() == HEIGHT_FIELD_LEN,
            row <= width,
            positions@.len() == 3 * (row * width),
            forall|k: int| 0 <= k < positions@.len() ==> positions@[k] == grid_scalar(sz, seg, heightmap@, k),
        decreases width - row,
    {
        proof {
            lemma_grid_coord_bound(sz, seg, row as int);
            lemma_sample_coord_bound(seg, row as int);
        }
        let y: i32 = -line_coord(size, n, row);
        let sample_row: usize = row * 255 / n;
        let mut col: usize = 0;
        while col < width
            invariant
                0 < n <= 255,
                width == n + 1,
                seg == n,
                sz == size,
                size > 0,
                    heightmap@.len() == HEIGHT_FIELD_LEN,
                row < width,
                col <= width,
                y == vertex_y(sz, seg, row as int),
                sample_row == sample_coord(seg, row as int),
                0 <= sample_row <= 255,
                positions@.len() == 3 * (row * width + col),
                forall|k: int| 0 <= k < positions@.len() ==> positions@[k] == grid_scalar(sz, seg, heightmap@, k),
            decreases width - col,
        {
            proof {
                lemma_grid_coord_bound(sz, seg, col as int);
                lemma_sample_coord_bound(seg, col as int);
                lemma_row_major(width as int, row as int, col as int);
            }
            let x: i32 = line_coord(size, n, col);
            let sample_col: usize = col * 255 / n;
            let z: i32 = heightmap[sample_row * 256 + sample_col];
            let ghost base = 3 * (row * width + col);
            assert(base / 3 == row * width + col && (base + 1) / 3 == row * width + col && (base + 2) / 3
                == row * width + col);
            positions.push(x);
            positions.push(y);
            positions.push(z);
            col += 1;
            assert(3 * (row * width + col) == base + 3) by (nonlinear_arith)
                requires
                    base == 3 * (row * width + (col - 1)),
            ;
        }
        assert(row * width + width == (row + 1) * width) by (nonlinear_arith);
        row += 1;
    }
    assert(positions@ =~= grid_positions(sz, seg, heightmap@));

    let mut row: usize = 0;
    while row < n
        invariant
            0 < n <= 255,
            width == n + 1,
            seg == n,
            row <= n,
            indices@.len() == 6 * (row * n),
            forall|k: int| 0 <= k < indices@.len() ==> indices@[k] as int == grid_corner(seg, k),
            forall|k: int| 0 <= k < indices@.len() ==> (#[trigger] indices@[k]) < width * width,
        decreases n - row,
    {
        let mut col: usize = 0;
        while col < n
            invariant
                0 < n <= 255,
                width == n + 1,
                seg == n,
                row < n,
                col <= n,
                indices@.len() == 6 * (row * n + col),
                forall|k: int| 0 <= k < indices@.len() ==> indices@[k] as int == grid_corner(seg, k),
                forall|k: int| 0 <= k < indices@.len() ==> (#[trigger] indices@[k]) < width * width,
            decreases n - col,
        {
            proof {
                lemma_row_major(n as int, row as int, col as int);
                lemma_row_major(width as int, row as int + 1, col as int + 1);
                assert((row + 1) * width == row * width + width) by (nonlinear_arith);
                assert((row + 2) * width <= width * width) by (nonlinear_arith)
                    requires
                        row + 2 <= width,
                        0 < width,
                ;
                assert(0 <= row * width <= 255 * 256) by (nonlinear_arith)
                    requires
                        0 <= row < 255,
                        0 < width <= 256,
                ;
            }
            let a: usize = row * width + col;
            let b: usize = a + width;
            let ghost base = 6 * (row * n + col);
            assert(base / 6 == row * n + col && (base + 1) / 6 == row * n + col && (base + 2) / 6 == row
                * n + col && (base + 3) / 6 == row * n + col && (base + 4) / 6 == row * n + col && (base
                + 5) / 6 == row * n + col);
            indices.push(a as u32);
            indices.push(b as u32);
            indices.push((a + 1) as u32);
            indices.push(b as u32);
            indices.push((b + 1) as u32);
            indices.push((a + 1) as u32);
            col += 1;
            assert(6 * (row * n + col) == base + 6) by (nonlinear_arith)
                requires
                    base == 6 * (row * n + (col - 1)),
            ;
        }
        assert(row * n + n == (row + 1) * n) by (nonlinear_arith);
        row += 1;
    }
    assert(6 * (n * n) == 6 * n * n && (6 * (n * n)) % 3 == 0) by (nonlinear_arith);
    assert(indices@ =~= grid_indices(seg));
    (positions, indices)
}

} // verus!
