//! A 2D axis-aligned rectangle.

use crate::vector::Vector2;
use vstd::math::{max, min};
use vstd::prelude::*;

verus! {

/// A 2D axis-aligned rectangle given by a corner and a (possibly negative)
/// extent.
#[derive(Debug, Default, Clone, Copy, PartialEq, Eq)]
pub struct Rect<T> {
    pub left: T,
    pub top: T,
    pub width: T,
    pub height: T,
}

/// A rectangle over signed integer coordinates.
pub type IntRect = Rect<i32>;

impl<T> Rect<T> {
    /// A rectangle with the given corner and extent.
    pub fn new(left: T, top: T, width: T, height: T) -> (r: Self)
        ensures
            r == (Rect { left, top, width, height }),
    {
        Self { left, top, width, height }
    }
}

impl<T: Copy> Rect<T> {
    /// The top-left corner as a vector.
    pub fn get_corner(&self) -> (v: Vector2<T>)
        ensures
            v == (Vector2 { x: self.left, y: self.top }),
    {
        Vector2 { x: self.left, y: self.top }
    }

    /// The extent (width and height) as a vector.
    pub fn get_size(&self) -> (v: Vector2<T>)
        ensures
            v == (Vector2 { x: self.width, y: self.height }),
    {
        Vector2 { x: self.width, y: self.height }
    }
}

/// The lower x bound of a rectangle, whichever sign its width has.
pub open spec fn x_min(r: Rect<i32>) -> int {
    min(r.left as int, r.left + r.width)
}

/// The upper x bound of a rectangle.
pub open spec fn x_max(r: Rect<i32>) -> int {
    max(r.left as int, r.left + r.width)
}

/// The lower y bound of a rectangle.
pub open spec fn y_min(r: Rect<i32>) -> int {
    min(r.top as int, r.top + r.height)
}

/// The upper y bound of a rectangle.
pub open spec fn y_max(r: Rect<i32>) -> int {
    max(r.top as int, r.top + r.height)
}

/// Whether a rectangle's corner-plus-extent sums stay inside the coordinate
/// type, so they can be computed.
pub open spec fn extents_in_range(r: Rect<i32>) -> bool {
    &&& i32::MIN <= r.left + r.width <= i32::MAX
    &&& i32::MIN <= r.top + r.height <= i32::MAX
}

impl Rect<i32> {
    /// Whether the rectangle contains the point: at or beyond the lower
    /// bounds, strictly inside the upper ones.
    pub fn contains(&self, point: Vector2<i32>) -> (r: bool)
        requires
            extents_in_range(*self),
        ensures
            r == (x_min(*self) <= point.x < x_max(*self) && y_min(*self) <= point.y < y_max(
                *self,
            )),
    {
        let right: i32 = self.left + self.width;
        let bottom: i32 = self.top + self.height;
        let min_x: i32 = if self.left <= right {
            self.left
        } else {
            right
        };
        let max_x: i32 = if self.left <= right {
            right
        } else {
            self.left
        };
        let min_y: i32 = if self.top <= bottom {
            self.top
        } else {
            bottom
        };
        let max_y: i32 = if self.top <= bottom {
            bottom
        } else {
            self.top
        };
        point.x >= min_x && point.x < max_x && point.y >= min_y && point.y < max_y
    }

    /// The intersection of two rectangles, where there is one: the common
    /// area with positive width and height.
    pub fn intersects(&self, other: &Self) -> (r: Option<Self>)
        requires
            extents_in_range(*self),
            extents_in_range(*other),
            i32::MIN < self.width,
            i32::MIN < self.height,
        ensures
            ({
                let inter_left = max(x_min(*self), x_min(*other));
                let inter_top = max(y_min(*self), y_min(*other));
                let inter_right = min(x_max(*self), x_max(*other));
                let inter_bottom = min(y_max(*self), y_max(*other));
                &&& r is Some <==> (inter_left < inter_right && inter_top < inter_bottom)
                &&& r matches Some(ix) ==> ix.left == inter_left && ix.top == inter_top && ix.width
                    == inter_right - inter_left && ix.height == inter_bottom - inter_top
            }),
    {
        let r1_right: i32 = self.left + self.width;
        let r1_bottom: i32 = self.top + self.height;
        let r2_right: i32 = other.left + other.width;
        let r2_bottom: i32 = other.top + other.height;

        let r1_min_x: i32 = min_i32(self.left, r1_right);
        let r1_max_x: i32 = max_i32(self.left, r1_right);
        let r1_min_y: i32 = min_i32(self.top, r1_bottom);
        let r1_max_y: i32 = max_i32(self.top, r1_bottom);

        let r2_min_x: i32 = min_i32(other.left, r2_right);
        let r2_max_x: i32 = max_i32(other.left, r2_right);
        let r2_min_y: i32 = min_i32(other.top, r2_bottom);
        let r2_max_y: i32 = max_i32(other.top, r2_bottom);

        let inter_left: i32 = max_i32(r1_min_x, r2_min_x);
        let inter_top: i32 = max_i32(r1_min_y, r2_min_y);
        let inter_right: i32 = min_i32(r1_max_x, r2_max_x);
        let inter_bottom: i32 = min_i32(r1_max_y, r2_max_y);

        if inter_left < inter_right && inter_top < inter_bottom {
            Some(
                Self {
                    left: inter_left,
                    top: inter_top,
                    width: inter_right - inter_left,
                    height: inter_bottom - inter_top,
                },
            )
        } else {
            None
        }
    }

    /// Whether the two rectangles have identical corner and extent.
    pub fn equals(&self, other: &Self) -> (r: bool)
        ensures
            r == (*self == *other),
    {
        self.left == other.left && self.top == other.top && self.width == other.width
            && self.height == other.height
    }

    /// The corner opposite the top-left one: corner plus extent.
    pub fn get_other_corner(&self) -> (v: Vector2<i32>)
        requires
            extents_in_range(*self),
        ensures
            v.x == self.left + self.width,
            v.y == self.top + self.height,
    {
        Vector2 { x: self.left + self.width, y: self.top + self.height }
    }
}

/// The smaller of two signed values.
fn min_i32(a: i32, b: i32) -> (r: i32)
    ensures
        r == min(a as int, b as int),
{
    if a <= b {
        a
    } else {
        b
    }
}

/// The larger of two signed values.
fn max_i32(a: i32, b: i32) -> (r: i32)
    ensures
        r == max(a as int, b as int),
{
    if a >= b {
        a
    } else {
        b
    }
}

} // verus!
