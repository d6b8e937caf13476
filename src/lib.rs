//! A discrete-time, impulse-based 2D rigid-body physics engine over exact
//! fixed-point arithmetic.
//!
//! - `fixed`: the saturating decimal scalar `Real`, with square root, sine
//!   and cosine.
//! - `types`: vectors and 2x2 matrices over `Real`.
//! - `operations`: cross products, squared lengths, near-equality.
//! - `body`: shapes, mass properties, and rigid bodies with their
//!   integration steps.
//! - `collision`: circle-circle and circle-polygon contact tests, and the
//!   contact manifold's physical parameters.
//! - `scene`: the world, with contact generation, the sequential-impulse
//!   solver, positional correction and the per-tick pipeline.
pub mod fixed;
pub mod types;
pub mod body;
pub mod collision;
pub mod operations;
pub mod scene;
