//! Vectors, matrices and procedural noise.

pub mod vec;
pub mod mat;
pub mod noise;
