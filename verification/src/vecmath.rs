//! Integer vectors and rectangles.

use std::ops::{Add, Sub};
use vstd::prelude::*;
use vstd::std_specs::ops::{AddSpecImpl, SubSpecImpl};

verus! {

/// A pair of signed coordinates.
#[derive(Debug, PartialEq, Eq, Copy, Clone, Structural)]
pub struct V2 {
    pub x: i32,
    pub y: i32,
}

/// Whether `v` is representable as an `i32`.
pub open spec fn fits_i32(v: int) -> bool {
    i32::MIN <= v <= i32::MAX
}

impl V2 {
    /// The origin.
    pub fn new() -> (r: V2)
        ensures
            r == (V2 { x: 0, y: 0 }),
    {
        V2 { x: 0, y: 0 }
    }

    pub fn make(x: i32, y: i32) -> (r: V2)
        ensures
            r == (V2 { x, y }),
    {
        V2 { x, y }
    }
}

impl AddSpecImpl for V2 {
    open spec fn obeys_add_spec() -> bool {
        true
    }

    open spec fn add_req(self, other: V2) -> bool {
        fits_i32(self.x + other.x) && fits_i32(self.y + other.y)
    }

    open spec fn add_spec(self, other: V2) -> V2 {
        V2 { x: (self.x + other.x) as i32, y: (self.y + other.y) as i32 }
    }
}

impl Add for V2 {
    type Output = V2;

    /// Componentwise sum.
    fn add(self, other: V2) -> V2 {
        V2 { x: self.x + other.x, y: self.y + other.y }
    }
}

impl SubSpecImpl for V2 {
    open spec fn obeys_sub_spec() -> bool {
        true
    }

    open spec fn sub_req(self, other: V2) -> bool {
        fits_i32(self.x - other.x) && fits_i32(self.y - other.y)
    }

    open spec fn sub_spec(self, other: V2) -> V2 {
        V2 { x: (self.x - other.x) as i32, y: (self.y - other.y) as i32 }
    }
}

impl Sub for V2 {
    type Output = V2;

    /// Componentwise difference.
    fn sub(self, other: V2) -> V2 {
        V2 { x: self.x - other.x, y: self.y - other.y }
    }
}

/// An axis-aligned rectangle given by its top left corner and its size.
#[derive(Copy, Clone)]
pub struct Rectangle {
    pub pos: V2,
    pub size: V2,
}

impl Rectangle {
    /// Column of the last cell inside the rectangle, as a mathematical integer.
    pub open spec fn spec_right(self) -> int {
        self.pos.x + self.size.x - 1
    }

    /// Row of the last cell inside the rectangle, as a mathematical integer.
    pub open spec fn spec_bottom(self) -> int {
        self.pos.y + self.size.y - 1
    }

    /// The horizontal extent can be computed in `i32` step by step.
    pub open spec fn spans_x(self) -> bool {
        fits_i32(self.pos.x + self.size.x) && fits_i32(self.spec_right())
    }

    /// The vertical extent can be computed in `i32` step by step.
    pub open spec fn spans_y(self) -> bool {
        fits_i32(self.pos.y + self.size.y) && fits_i32(self.spec_bottom())
    }

    pub fn bottom_right(&self) -> (r: V2)
        requires
            self.spans_x(),
            self.spans_y(),
        ensures
            r.x == self.spec_right(),
            r.y == self.spec_bottom(),
    {
        self.pos + self.size + V2::make(-1, -1)
    }

    pub fn left(&self) -> (r: i32)
        ensures
            r == self.pos.x,
    {
        self.pos.x
    }

    pub fn right(&self) -> (r: i32)
        requires
            self.spans_x(),
        ensures
            r == self.spec_right(),
    {
        self.pos.x + self.size.x - 1
    }

    pub fn top(&self) -> (r: i32)
        ensures
            r == self.pos.y,
    {
        self.pos.y
    }

    pub fn bottom(&self) -> (r: i32)
        requires
            self.spans_y(),
        ensures
            r == self.spec_bottom(),
    {
        self.pos.y + self.size.y - 1
    }

    pub fn bottom_left(&self) -> (r: V2)
        requires
            self.spans_y(),
        ensures
            r.x == self.pos.x,
            r.y == self.spec_bottom(),
    {
        V2::make(self.left(), self.bottom())
    }

    pub fn top_right(&self) -> (r: V2)
        requires
            self.spans_x(),
        ensures
            r.x == self.spec_right(),
            r.y == self.pos.y,
    {
        V2::make(self.right(), self.top())
    }

    /// The rectangle widened by `size` cells on each of its four sides.
    pub fn grow(&self, size: i32) -> (r: Rectangle)
        requires
            fits_i32(2 * size),
            fits_i32(self.pos.x - size),
            fits_i32(self.pos.y - size),
            fits_i32(self.size.x + 2 * size),
            fits_i32(self.size.y + 2 * size),
        ensures
            r.pos.x == self.pos.x - size,
            r.pos.y == self.pos.y - size,
            r.size.x == self.size.x + 2 * size,
            r.size.y == self.size.y + 2 * size,
    {
        Rectangle {
            pos: self.pos - V2::make(size, size),
            size: self.size + V2::make(2 * size, 2 * size),
        }
    }
}

} // verus!
