//! Scene objects.
//!
//! The closed set of primitives the tracer knows: sphere (`Ball`),
//! axis-aligned cube (`Box`), axis-aligned cylinder (`Roll`) and plane
//! (`Mat`).  Each carries an 8-bit colour and fixed-point geometry, as
//! the scene parser hands them over; positions and normals are clamped
//! on their way into the geometric routines.

use vstd::prelude::*;

verus! {

#[derive(Debug, Clone, Copy, PartialEq)]
pub enum Objects {
    Ball { color: [u8; 3], position: [i64; 3], radius: i64 },
    Box { color: [u8; 3], position: [i64; 3], size: i64 },
    Roll { color: [u8; 3], position: [i64; 3], radius: i64, height: i64 },
    Mat { color: [u8; 3], position: [i64; 3], normal: [i64; 3] },
}

} // verus!
