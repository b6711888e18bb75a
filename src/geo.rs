//! Plain integer geometry: points and sizes.
use vstd::prelude::*;

verus! {

/// A point with non-negative integer coordinates.
#[derive(Debug, Clone, Copy, PartialEq, Eq, Structural)]
pub struct Vector2 {
    pub x: usize,
    pub y: usize,
}

/// An axis-aligned size with non-negative integer width and height.
#[derive(Debug, Clone, Copy, PartialEq, Eq, Structural)]
pub struct Rect2 {
    pub width: usize,
    pub height: usize,
}

impl Vector2 {
    pub fn new(x: usize, y: usize) -> (r: Vector2)
        ensures
            r.x == x,
            r.y == y,
    {
        Vector2 { x, y }
    }
}

impl Rect2 {
    pub fn new(width: usize, height: usize) -> (r: Rect2)
        ensures
            r.width == width,
            r.height == height,
    {
        Rect2 { width, height }
    }

    /// The number of unit cells covered: `width * height`.
    pub open spec fn spec_area(self) -> nat {
        (self.width * self.height) as nat
    }

    /// `width * height`; the product must fit in a `usize`.
    pub fn area(&self) -> (r: usize)
        requires
            self.spec_area() <= usize::MAX,
        ensures
            r == self.spec_area(),
    {
        self.width * self.height
    }
}

impl From<(usize, usize)> for Vector2 {
    fn from(v: (usize, usize)) -> (r: Vector2) {
        Vector2 { x: v.0, y: v.1 }
    }
}

impl vstd::std_specs::convert::FromSpecImpl<(usize, usize)> for Vector2 {
    open spec fn obeys_from_spec() -> bool {
        true
    }

    open spec fn from_spec(v: (usize, usize)) -> Vector2 {
        Vector2 { x: v.0, y: v.1 }
    }
}

impl From<(usize, usize)> for Rect2 {
    fn from(v: (usize, usize)) -> (r: Rect2) {
        Rect2 { width: v.0, height: v.1 }
    }
}

impl vstd::std_specs::convert::FromSpecImpl<(usize, usize)> for Rect2 {
    open spec fn obeys_from_spec() -> bool {
        true
    }

    open spec fn from_spec(v: (usize, usize)) -> Rect2 {
        Rect2 { width: v.0, height: v.1 }
    }
}

} // verus!
