//! What mesh generation can report instead of a mesh.

use vstd::prelude::*;

verus! {

/// Why no mesh was produced.
#[derive(Clone, Copy, Debug, PartialEq, Eq, Structural)]
pub enum MeshError {
    /// The sampled volume holds no surface: no triangle can be emitted.
    EmptyResult,
    /// The field gave a sample that is not finite.
    InvalidField,
}

} // verus!
