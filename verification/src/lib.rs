//! A deterministic two-image compositor.
//!
//! Two encoded images are decoded, each resized to an exact 585x585 square,
//! placed side by side on a 1200x605 canvas filled with an opaque near-black
//! background, and the canvas is serialized as a PNG. The canvas allocation
//! and the per-pixel source-over compositing are implemented and verified
//! here; decoding, resampling and PNG serialization are performed by the
//! `image` crate behind trusted wrappers.

pub mod buffer;
pub mod codec;
pub mod pipeline;
pub mod pixel;

pub use pipeline::compose;
