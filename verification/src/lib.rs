//! An offline ray tracer over a fixed-point model of 3-d space.
//!
//! Every coordinate is a signed 64-bit integer counting millionths of a
//! world unit, clamped to a fixed safe range, so that all geometry is
//! exact integer arithmetic and every routine carries a proved contract.
//! The scene parsers and the image writer live outside the library and
//! hand it plain, already-validated data.

pub mod camera;
pub mod cull;
pub mod dot;
pub mod gem;
pub mod intersect;
pub mod light;
pub mod mat;
pub mod num;
pub mod objects;
pub mod pixel;
pub mod scene;
pub mod spear;
pub mod trace;
