use vstd::prelude::*;

verus! {

/// A point of the global coordinate system.
#[derive(Debug, Clone, Copy, PartialEq)]
pub struct Point3D<F> {
    pub x: F,
    pub y: F,
    pub z: F,
}

/// A direction or a vector quantity (force, moment, displacement).
#[derive(Debug, Clone, Copy, PartialEq)]
pub struct Vector3D<F> {
    pub x: F,
    pub y: F,
    pub z: F,
}

} // verus!
