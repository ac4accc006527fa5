//! The frame buffer, the per-frame parameters and the drawing pipeline.

pub mod buffers;
pub mod uniforms;
pub mod raster;
pub mod pipeline;
