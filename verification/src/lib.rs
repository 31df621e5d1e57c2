//! Integer core of a deterministic value-noise terrain generator.
//!
//! The noise field rests on a pseudo-random hash of integer lattice
//! coordinates, and the terrain mesh on a regular grid whose triangle
//! index buffer is pure integer arithmetic.  Both are verified here:
//! the hash result and the whole index buffer are pinned down exactly,
//! so two invocations on the same inputs are proved to agree.
//!
//! The floating-point layers above (smoothstep blending, the fractal
//! sum, vertex positions and normals) cannot be verified and live with
//! the caller; they consume these functions through plain values.

pub mod hash;
pub mod mesh;
