//! The fixed-point scales shared by every stage.

use vstd::prelude::*;

verus! {

/// Number of coordinate steps in one world unit. Positions, elevations and
/// tile sizes are all counted in these steps.
pub const STEPS_PER_UNIT: i32 = 256;

/// Number of error parts in one world unit. Error bounds are counted in
/// these parts, which hold a bound of one hundredth of a unit exactly.
pub const ERROR_PARTS_PER_UNIT: u32 = 10000;

/// The texture coordinate that stands for 1.
pub const UV_ONE: i64 = 65536;

/// The product of two quantities. Named, as the quotient and the remainder
/// below are, so that a definition built from it is worked out on given
/// numbers by unfolding alone.
pub open spec fn product(a: int, b: int) -> int {
    a * b
}

/// The quotient of `num` by a positive `den`, rounded down.
pub open spec fn floor_quotient(num: int, den: int) -> int {
    num / den
}

/// What is left of `num` when as many whole `den` as possible are taken
/// from it.
pub open spec fn remainder(num: int, den: int) -> int {
    num % den
}

/// Edge length of an elevation image in pixels.
pub const TILE_PIXELS: u32 = 256;

/// Color channels of an elevation image.
pub const TILE_CHANNELS: u8 = 3;

/// Bits in each color channel of an elevation image.
pub const TILE_BIT_DEPTH: u8 = 8;

/// Number of elevation samples in a height field.
pub const HEIGHT_FIELD_LEN: usize = 65536;

/// Number of bytes in the decoded raster of an elevation image.
pub const RASTER_LEN: usize = 196608;

} // verus!
