//! A small Whitted-style ray tracer over fixed-point scalars.
//!
//! Every scalar the engine works with is a fixed-point number: an `i64`
//! counting steps of `1/SCALE` of a world unit. All arithmetic saturates
//! into `[-MAXV, MAXV]`, so every operation is total and its exact result
//! is stated by a spec-level twin. The rendering pipeline — ray/sphere
//! intersection, recursive shading with shadows and mirror reflection,
//! and camera ray generation — is verified against those twins.

pub mod fixed;
pub mod image;
pub mod laws;
pub mod object;
pub mod render;
pub mod vec3;
