//! Plain 2-, 3- and 4-component vectors.

use vstd::prelude::*;

verus! {

/// A two-component vector.
#[derive(Debug, Default, Clone, Copy, PartialEq, Eq)]
pub struct Vector2<T> {
    pub x: T,
    pub y: T,
}

/// A three-component vector.
#[derive(Debug, Default, Clone, Copy, PartialEq, Eq)]
pub struct Vector3<T> {
    pub x: T,
    pub y: T,
    pub z: T,
}

/// A four-component vector.
#[derive(Debug, Default, Clone, Copy, PartialEq, Eq)]
pub struct Vector4<T> {
    pub x: T,
    pub y: T,
    pub z: T,
    pub w: T,
}

impl<T> Vector2<T> {
    /// A vector from its two components.
    pub fn new(x: T, y: T) -> (v: Self)
        ensures
            v == (Vector2 { x, y }),
    {
        Self { x, y }
    }
}

impl<T> Vector3<T> {
    /// A vector from its three components.
    pub fn new(x: T, y: T, z: T) -> (v: Self)
        ensures
            v == (Vector3 { x, y, z }),
    {
        Self { x, y, z }
    }
}

impl<T> Vector4<T> {
    /// A vector from its four components.
    pub fn new(x: T, y: T, z: T, w: T) -> (v: Self)
        ensures
            v == (Vector4 { x, y, z, w }),
    {
        Self { x, y, z, w }
    }
}

/// A two-component vector of signed integers.
pub type Vector2i = Vector2<i32>;

/// A two-component vector of unsigned integers.
pub type Vector2u = Vector2<u32>;

} // verus!
