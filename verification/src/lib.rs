//! The deciding core of a ray tracer for scenes of axis-aligned boxes.
//!
//! A ray tracer computes with single-precision numbers; what it decides
//! depends only on how those numbers compare. This library takes them by
//! their bits, orders them exactly as the numbers are ordered, and decides:
//! whether a ray hits a box and through which face, which face a surface
//! point lies on, which hit is the nearest, which box casts a shadow, and
//! whether a ray bends, lights a surface or shows the sky. It also holds
//! the colors that are shown and the textures that surfaces are read from.

pub mod cast;
pub mod color;
pub mod cube;
pub mod face;
pub mod intersect;
pub mod scalar;
pub mod texture;

pub use cast::{
    cast_ray, cast_shadow, intersect_all, nearest, sky_color, within_budget, Trace, MAX_DEPTH,
};
pub use color::Color;
pub use cube::ray_intersect;
pub use face::{uv_axes, Axis, Face, PerFace};
pub use intersect::{Intersect, Target};
pub use scalar::Scalar;
pub use texture::{base_color, Texture, TextureError};
