//! Exact-arithmetic core of a small real-time scene renderer.
//!
//! The crate provides the two pieces of the renderer that carry real logic:
//! a 4x4 homogeneous transform type ([`transform::Mat4`]) whose composition
//! operators are specified as exact left-multiplications over rational
//! numbers, and a procedural geometry generator ([`mesh`]) that builds a
//! triangle-fan approximation of a regular polygon and replicates it across
//! independently posable entities.
//!
//! Window management, GPU upload and the per-frame loop are external
//! collaborators: they consume the plain values produced here (vertex
//! records, index arrays, matrix elements) and are kept outside the library.

use vstd::prelude::*;

pub mod rational;
pub mod mesh;
pub mod transform;
pub mod laws;

verus! {

/// Errors reported by the core. All of them are configuration errors: they
/// are raised at construction time, never during per-frame arithmetic on a
/// value that was accepted.
#[derive(Clone, Copy, Debug, PartialEq, Eq, Structural)]
pub enum CoreError {
    /// A polygon with fewer than three sides was requested.
    InvalidPolygonSides,
    /// A replication with zero entities was requested.
    InvalidEntityCount,
    /// Projection bounds that would divide by zero (for example
    /// `near == far`).
    DegenerateFrustum,
    /// A look-at camera whose up vector is parallel to the view direction.
    DegenerateCameraBasis,
    /// An exact rational computation left the range of 64-bit components.
    ArithmeticOverflow,
}

} // verus!
