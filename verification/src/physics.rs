//! Physics plain data: collider kinds.

use vstd::prelude::*;

verus! {

/// Shape of a collider.
#[derive(Debug, Clone, Copy, PartialEq, Eq, Structural)]
pub enum ColliderType {
    Sphere,
    Box,
    Capsule,
    ConvexHull,
    Mesh,
}

} // verus!
