//! A software rendering pipeline for a procedurally shaded star.
//!
//! Everything is computed in fixed-point arithmetic, so that a frame is the
//! same on every machine, bit for bit. The arithmetic is total: a result that
//! does not fit is clamped, and nothing overflows.
//!
//! - [`fixed`] and [`elementary`] hold the scalars with their arithmetic,
//!   square roots, sines and powers.
//! - [`math`] holds vectors, matrices, the transforms of the viewing
//!   pipeline, and the noise functions.
//! - [`mesh`] holds indexed triangle meshes and the sphere.
//! - [`camera`] holds the camera, which makes view and projection matrices.
//! - [`renderer`] holds the frame buffer, the uniforms, the rasterizer and
//!   the traversal of a mesh.
//! - [`shaders`] holds the shading styles, the star first among them.

pub mod fixed;
pub mod elementary;
pub mod math;
pub mod mesh;
pub mod camera;
pub mod renderer;
pub mod shaders;
