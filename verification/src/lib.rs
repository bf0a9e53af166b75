//! Terrain tile meshing on fixed-point coordinates.
//!
//! An elevation tile arrives as a 256 x 256 RGB image. It is decoded into a
//! height field, laid out as a regular triangle grid, reduced by a mesh
//! simplifier, compacted so that only referenced vertices remain, and given
//! texture coordinates.
//!
//! Every length and elevation is an integer count of 1/256 of a world unit
//! (see [`units`]), which holds the image encoding without rounding.
//! Texture coordinates are counted in 1/65536 and error bounds in 1/10000
//! of a unit.
//!
//! The simplifier works on floating-point positions and is run by the
//! caller between [`plan_tile`] and [`finish_tile`].

pub mod units;
pub mod elevation;
pub mod plane;
pub mod mesh;
pub mod reduce;
pub mod compact;
pub mod uv;
pub mod tile;
pub mod registry;

pub use crate::compact::optimize;
pub use crate::elevation::png2elevation_rs;
pub use crate::plane::build_tile_mesh;
pub use crate::tile::{finish_tile, plan_decoded, plan_tile};
pub use crate::uv::synthesize_uvs;
