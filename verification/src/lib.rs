//! The discrete core of a path tracer.
//!
//! A path tracer follows rays through a scene of surfaces and materials. Its
//! arithmetic is on real numbers and is the caller's. What this crate holds
//! are the decisions between the steps of that arithmetic, each with a
//! contract: which root of an intersection counts as the hit, which surface
//! of a scene is nearest, which face a ray meets, whether a material sends a
//! ray on and which way, when a ray's bounces end, and how the colours of a
//! render are laid out as a picture.
//!
//! Real quantities reach the crate as scalars, integers that keep their
//! order and sign; `math` says how.
pub mod geom;
pub mod material;
pub mod math;
pub mod ppm;
pub mod ray;
pub mod render;
pub mod vec;
