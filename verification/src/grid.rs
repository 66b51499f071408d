//! Integer vectors and grid coordinates.
use vstd::prelude::*;

verus! {

/// A two-dimensional integer vector.
#[derive(Copy, Clone, Debug, PartialEq, Eq, Hash, Default, Structural)]
pub struct IVec2 {
    pub x: i32,
    pub y: i32,
}

/// Coordinates of a tile on the game grid.
#[derive(Copy, Clone, Debug, PartialEq, Eq, Hash, Default, Structural)]
pub struct GridCoords {
    pub x: i32,
    pub y: i32,
}

impl IVec2 {
    pub fn new(x: i32, y: i32) -> (v: IVec2)
        ensures
            v.x == x,
            v.y == y,
    {
        IVec2 { x, y }
    }

    /// Whether the component-wise sum of `self` and `rhs` fits in `i32`.
    pub open spec fn can_add(self, rhs: IVec2) -> bool {
        i32::MIN <= self.x + rhs.x <= i32::MAX && i32::MIN <= self.y + rhs.y <= i32::MAX
    }

    /// Component-wise sum.
    pub fn add(self, rhs: IVec2) -> (v: IVec2)
        requires
            self.can_add(rhs),
        ensures
            v.x == self.x + rhs.x,
            v.y == self.y + rhs.y,
    {
        IVec2 { x: self.x + rhs.x, y: self.y + rhs.y }
    }
}

impl GridCoords {
    pub fn new(x: i32, y: i32) -> (g: GridCoords)
        ensures
            g.x == x,
            g.y == y,
    {
        GridCoords { x, y }
    }

    /// Converts a vector into grid coordinates with the same components.
    pub fn from_ivec2(v: IVec2) -> (g: GridCoords)
        ensures
            g.x == v.x,
            g.y == v.y,
    {
        GridCoords { x: v.x, y: v.y }
    }

    /// Converts grid coordinates into a vector with the same components.
    pub fn to_ivec2(self) -> (v: IVec2)
        ensures
            v.x == self.x,
            v.y == self.y,
    {
        IVec2 { x: self.x, y: self.y }
    }
}

} // verus!
