//! Texture coordinates from vertex positions.
//!
//! A vertex at planar position `(x, y)` on a tile of edge `size` gets the
//! texture coordinate `((x + size / 2) / size, (y + size / 2) / size)`,
//! counted in 1/65536 and rounded down. The half is the exact half of the
//! size, also where the size is odd: the quotient is taken as `(2 * x +
//! size) / (2 * size)`, so that nothing is rounded before the one division.
//! Nothing is clamped: a vertex outside the tile gets a coordinate outside
//! the unit square.

use vstd::prelude::*;
use crate::mesh::{coordinate, vertex_count};
use crate::units::{floor_quotient, UV_ONE};

verus! {

/// Texture coordinate of one planar coordinate: `(planar + size / 2) /
/// size` with the exact half, in 1/65536, rounded down.
pub open spec fn uv_of(planar: int, size: int) -> int {
    floor_quotient((2 * planar + size) * UV_ONE as int, 2 * size)
}

/// The texture coordinates of a vertex buffer: two per vertex, from its
/// `x` and its `y`.
pub open spec fn uvs_of(positions: Seq<i32>, size: int) -> Seq<i64> {
    Seq::new(
        2 * (positions.len() / 3),
        |i: int| uv_of(positions[3 * (i / 2) + i % 2] as int, size) as i64,
    )
}

/// A texture coordinate fits in 64 bits whatever the position.
pub proof fn lemma_uv_fits(planar: int, size: int)
    requires
        i32::MIN <= planar <= i32::MAX,
        0 < size <= i32::MAX,
    ensures
        -0x1_0000_0000_0000 <= uv_of(planar, size) <= 0x1_8000_0000_0000,
{
    let num = (2 * planar + size) * 65536;
    let den = 2 * size;
    assert(-0x1_0000_0000_0000 <= num / den <= 0x1_8000_0000_0000) by (nonlinear_arith)
        requires
            -0x1_0000_0000_0000 <= num <= 0x1_8000_0000_0000,
            2 <= den,
    ;
}

/// The texture coordinate is the exact quotient `(planar + size / 2) /
/// size`, counted in 1/65536 and rounded down: it falls short of the exact
/// value by less than 1/65536.
pub proof fn lemma_uv_rounds_down(planar: int, size: int)
    requires
        0 < size,
    ensures
        uv_of(planar, size) * (2 * size) <= (2 * planar + size) * UV_ONE < (uv_of(planar, size)
            + 1) * (2 * size),
{
    let num = (2 * planar + size) * 65536;
    let den = 2 * size;
    assert((num / den) * den <= num < (num / den + 1) * den) by (nonlinear_arith)
        requires
            0 < den,
    ;
}

/// A position on the tile, between minus half the size and plus half the
/// size, has its texture coordinate in the unit range, with 0 on the one
/// edge and 1 on the other.
pub proof fn lemma_uv_on_tile(planar: int, size: int)
    requires
        0 < size,
        -size <= 2 * planar <= size,
    ensures
        0 <= uv_of(planar, size) <= UV_ONE,
        2 * planar == -size ==> uv_of(planar, size) == 0,
        2 * planar == size ==> uv_of(planar, size) == UV_ONE,
{
    let shifted = 2 * planar + size;
    let den = 2 * size;
    assert(0 <= (shifted * 65536) / den <= 65536 && (shifted == 0 ==> (shifted * 65536) / den == 0)
        && (shifted == den ==> (shifted * 65536) / den == 65536)) by (nonlinear_arith)
        requires
            0 <= shifted <= den,
            0 < den,
    ;
}

/// Synthesis keeps no state: two results for the same vertex buffer and
/// tile size are the same.
pub proof fn lemma_uvs_repeatable(positions: Seq<i32>, size: int, first: Seq<i64>, second: Seq<i64>)
    requires
        first == uvs_of(positions, size),
        second == uvs_of(positions, size),
    ensures
        first == second,
{
}

/// Texture coordinates come from the planar position alone: vertex buffers
/// that differ in elevation only have the same texture coordinates.
pub proof fn lemma_uvs_ignore_elevation(a: Seq<i32>, b: Seq<i32>, size: int)
    requires
        a.len() == b.len(),
        forall|v: int, axis: int|
            0 <= v < vertex_count(a) && 0 <= axis < 2 ==> #[trigger] coordinate(a, v, axis)
                == coordinate(b, v, axis),
    ensures
        uvs_of(a, size) == uvs_of(b, size),
{
    assert forall|i: int| 0 <= i < 2 * (a.len() / 3) implies uvs_of(a, size)[i] == uvs_of(
        b,
        size,
    )[i] by {
        assert(coordinate(a, i / 2, i % 2) == coordinate(b, i / 2, i % 2));
    }
    assert(uvs_of(a, size) =~= uvs_of(b, size));
}

/// Texture coordinate of one planar coordinate.
pub fn planar_uv(planar: i32, size: i32) -> (uv: i64)
    requires
        size > 0,
    ensures
        uv == uv_of(planar as int, size as int),
{
    let num: i64 = (2 * (planar as i64) + size as i64) * 65536;
    let den: i64 = 2 * (size as i64);
    proof {
        lemma_uv_fits(planar as int, size as int);
    }
    if num >= 0 {
        num / den
    } else {
        let up: i64 = (den - 1 - num) / den;
        assert(-up == num / den) by (nonlinear_arith)
            requires
                num < 0,
                den > 0,
                up == (den - 1 - num) / (den as int),
        ;
        -up
    }
}

/// Derives the texture coordinates of every vertex of a vertex buffer.
///
/// The result depends on the positions and the tile size alone.
pub fn synthesize_uvs(positions: &[i32], size: i32) -> (uvs: Vec<i64>)
    requires
        size > 0,
        positions@.len() % 3 == 0,
    ensures
        uvs@ == uvs_of(positions@, size as int),
        uvs@.len() == 2 * (positions@.len() / 3),
{
    let len: usize = positions.len();
    let count: usize = len / 3;
    let mut uvs: Vec<i64> = Vec::with_capacity(count);
    let mut v: usize = 0;
    while v < count
        invariant
            positions@.len() == len,
            len == 3 * count,
            size > 0,
            v <= count,
            uvs@.len() == 2 * v,
            forall|k: int| 0 <= k < uvs@.len() ==> uvs@[k] == uvs_of(positions@, size as int)[k],
        decreases count - v,
    {
        let u = planar_uv(positions[3 * v], size);
        let w = planar_uv(positions[3 * v + 1], size);
        uvs.push(u);
        uvs.push(w);
        v += 1;
    }
    assert(uvs@ =~= uvs_of(positions@, size as int));
    uvs
}

} // verus!
