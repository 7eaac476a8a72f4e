//! Numeric core of a signed-distance ray marcher: colours, scene samples and
//! their union, the secant refinement, uniform-step marching and the
//! row-major frame loop.
//!
//! Distances are of a generic scalar type: the library makes the decisions
//! and composes the results, while the caller's closures carry out the
//! scalar arithmetic.

pub mod colour;
pub mod frame;
pub mod root_find;
pub mod scene;

pub use colour::Colour;
pub use frame::render;
pub use root_find::{ray_march, secant};
pub use scene::SignedDistance;
