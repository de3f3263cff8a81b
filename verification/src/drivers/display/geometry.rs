//! Pixel geometry: y grows downward.

use vstd::prelude::*;

verus! {

#[derive(Debug, Clone, Copy, PartialEq, Eq, Structural)]
pub struct Point {
    pub x: i32,
    pub y: i32,
}

impl Point {
    pub fn new(x: i32, y: i32) -> (p: Self)
        ensures
            p == (Point { x, y }),
    {
        Point { x, y }
    }
}

#[derive(Debug, Clone, Copy, PartialEq, Eq, Structural)]
pub struct Size {
    pub width: u32,
    pub height: u32,
}

impl Size {
    pub fn new(width: u32, height: u32) -> (s: Self)
        ensures
            s == (Size { width, height }),
    {
        Size { width, height }
    }
}

/// An axis-parallel rectangle of pixels.
#[derive(Debug, Clone, Copy, PartialEq, Eq, Structural)]
pub struct Rectangle {
    pub top_left: Point,
    pub size: Size,
}

impl Rectangle {
    pub fn new(top_left: Point, size: Size) -> (r: Self)
        ensures
            r == (Rectangle { top_left, size }),
    {
        Rectangle { top_left, size }
    }

    /// Whether a pixel lies inside.
    pub open spec fn covers(self, x: int, y: int) -> bool {
        &&& self.top_left.x <= x < self.top_left.x + self.size.width
        &&& self.top_left.y <= y < self.top_left.y + self.size.height
    }

    /// Whether the coordinates of the pixels inside and next to the rectangle
    /// are all representable.
    pub open spec fn in_range(self) -> bool {
        &&& self.top_left.x + self.size.width < i32::MAX
        &&& self.top_left.y + self.size.height < i32::MAX
        &&& self.size.width <= i32::MAX
        &&& self.size.height <= i32::MAX
        &&& self.top_left.y >= i32::MIN + 2
    }

    pub fn is_in_range(&self) -> (r: bool)
        ensures
            r == self.in_range(),
    {
        self.top_left.x as i64 + (self.size.width as i64) < i32::MAX as i64 && self.top_left.y as i64
            + (self.size.height as i64) < i32::MAX as i64 && self.size.width <= i32::MAX as u32
            && self.size.height <= i32::MAX as u32 && self.top_left.y >= i32::MIN + 2
    }
}

} // verus!
