//! Points, sizes and rectangles.

use vstd::prelude::*;

verus! {

/// A pixel coordinate.
#[derive(Clone, Copy, Debug, PartialEq, Eq)]
pub struct Point {
    pub x: i32,
    pub y: i32,
}

/// A width and a height in pixels.
#[derive(Clone, Copy, Debug, PartialEq, Eq)]
pub struct Size {
    pub width: u32,
    pub height: u32,
}

/// An axis-aligned rectangle given by its top left corner and its size.
#[derive(Clone, Copy, Debug, PartialEq, Eq)]
pub struct Rectangle {
    pub top_left: Point,
    pub size: Size,
}

impl Point {
    /// The point in column `x` and row `y`.
    pub fn new(x: i32, y: i32) -> (p: Point)
        ensures
            p.x == x,
            p.y == y,
    {
        Point { x, y }
    }
}

impl Size {
    /// The size of `width` columns and `height` rows.
    pub fn new(width: u32, height: u32) -> (s: Size)
        ensures
            s.width == width,
            s.height == height,
    {
        Size { width, height }
    }
}

impl Rectangle {
    /// The rectangle of the given size whose top left corner is `top_left`.
    pub fn new(top_left: Point, size: Size) -> (r: Rectangle)
        ensures
            r.top_left == top_left,
            r.size == size,
    {
        Rectangle { top_left, size }
    }

    /// The number of pixels that the rectangle covers.
    pub open spec fn area(self) -> int {
        self.size.width * self.size.height
    }

    /// Moved by `by`, the corner of the rectangle and each of its points
    /// have `i32` coordinates.
    pub open spec fn fits_at(self, by: Point) -> bool {
        &&& i32::MIN <= by.x + self.top_left.x
        &&& i32::MIN <= by.y + self.top_left.y
        &&& by.x + self.top_left.x + self.size.width <= i32::MAX
        &&& by.y + self.top_left.y + self.size.height <= i32::MAX
    }

    /// The rectangle moved by `by`.
    pub open spec fn spec_translate(self, by: Point) -> Rectangle {
        Rectangle {
            top_left: Point {
                x: (self.top_left.x + by.x) as i32,
                y: (self.top_left.y + by.y) as i32,
            },
            size: self.size,
        }
    }

    /// The `i`-th point of the rectangle in row-major order: rows from top to
    /// bottom, and each row from left to right.
    pub open spec fn point_at(self, i: int) -> Point
        recommends
            0 <= i < self.area(),
    {
        Point {
            x: (self.top_left.x + i % (self.size.width as int)) as i32,
            y: (self.top_left.y + i / (self.size.width as int)) as i32,
        }
    }

    /// Tests whether the rectangle can be moved by `by`.
    pub fn can_translate(&self, by: Point) -> (ok: bool)
        ensures
            ok == self.fits_at(by),
    {
        let left: i64 = (by.x as i64) + (self.top_left.x as i64);
        let top: i64 = (by.y as i64) + (self.top_left.y as i64);
        left >= -0x8000_0000i64 && top >= -0x8000_0000i64 && left + (self.size.width as i64)
            <= 0x7fff_ffffi64 && top + (self.size.height as i64) <= 0x7fff_ffffi64
    }

    /// The rectangle moved by `by`.
    pub fn translate(&self, by: Point) -> (r: Rectangle)
        requires
            i32::MIN <= self.top_left.x + by.x <= i32::MAX,
            i32::MIN <= self.top_left.y + by.y <= i32::MAX,
        ensures
            r == self.spec_translate(by),
    {
        Rectangle {
            top_left: Point { x: self.top_left.x + by.x, y: self.top_left.y + by.y },
            size: self.size,
        }
    }
}

} // verus!
