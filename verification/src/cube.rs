use vstd::prelude::*;

verus! {

/// An axis-aligned bounding box, kept as its extreme coordinates.
#[derive(Debug, Clone, Copy, PartialEq, Eq, Structural)]
pub struct BoxAABB {
    pub x_min: u32,
    pub x_max: u32,
    pub y_min: u32,
    pub y_max: u32,
}

/// A point on the screen.
#[derive(Debug, Clone, Copy, PartialEq, Eq, Structural)]
pub struct Point {
    pub x: u32,
    pub y: u32,
}

impl Point {
    pub fn new(x: u32, y: u32) -> (r: Self)
        ensures
            r == (Point { x, y }),
    {
        Self { x, y }
    }
}

impl BoxAABB {
    fn new(x_min: u32, x_max: u32, y_min: u32, y_max: u32) -> (r: Self)
        ensures
            r == (BoxAABB { x_min, x_max, y_min, y_max }),
    {
        Self { x_min, x_max, y_min, y_max }
    }
}

impl Default for Point {
    fn default() -> (r: Self)
        ensures
            r == (Point { x: 0, y: 0 }),
    {
        Self::new(0, 0)
    }
}

impl Default for BoxAABB {
    fn default() -> (r: Self)
        ensures
            r == (BoxAABB { x_min: 0, x_max: 0, y_min: 0, y_max: 0 }),
    {
        Self::new(0, 0, 0, 0)
    }
}

} // verus!
