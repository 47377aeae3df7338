//! Verified core of a small path tracer: integer hashing for jitter and
//! gradient noise, nearest-hit selection over ordered parameter keys, the
//! bounce-budget policy of the shading recursion, and the pixel buffer with
//! its binary pixel-map encoding.
use vstd::prelude::*;

pub mod array;
pub mod image;
pub mod intersect;
pub mod shading;
pub mod noise;

verus! {

} // verus!
