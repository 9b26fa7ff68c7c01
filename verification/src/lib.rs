//! Pixel-domain processing core of a block-based video encoder: padded plane
//! buffers with replicated-edge margins, windowed views, inverse block
//! transforms, sub-pixel motion compensation, constrained directional
//! enhancement filtering, and block distortion metrics.
//!
//! Every kernel is specified by the exact fixed-point arithmetic it performs,
//! so that any two implementations meeting these contracts are bit-exact.

pub mod cdef;
pub mod dist;
pub mod frame;
pub mod lrf;
pub mod mc;
pub mod pixel;
pub mod plane;
pub mod tiling;
pub mod transform;
pub mod util;
