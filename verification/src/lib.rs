//! Placement generation for self-similar fractal structures.
//!
//! The crate computes instance placements (translation + uniform scale) for a
//! Sierpinski tetrahedron (recursive corner subdivision) and a Menger-sponge
//! style grid subtraction, together with the canonical tetrahedron base mesh
//! that every Sierpinski instance renders with, and a one-shot driver that
//! expands placeholder instances into full fractals.
//!
//! All geometry is held in exact integer coordinates: each axis of a vector is
//! an integer coefficient of a fixed unit length documented at the type or
//! function that produces it. This keeps every position and scale exact, so
//! the recursive subdivision rules can be stated and proved precisely; a
//! rendering front end multiplies the coefficients by the (irrational) unit
//! lengths when it needs floating-point coordinates.

pub mod driver;
pub mod math;
pub mod menger;
pub mod mesh;
pub mod sierpinski;
