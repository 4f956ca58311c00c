use vstd::prelude::*;

verus! {

/// An axis-aligned rectangle: origin `(x, y)` and extent `(w, h)`, in integer
/// pixel coordinates.  Rectangles have value semantics; the spatial index
/// copies them at insertion time and never mutates them.
#[derive(Clone, Copy, Debug, PartialEq, Eq, Structural)]
pub struct Rect {
    pub x: i32,
    pub y: i32,
    pub w: i32,
    pub h: i32,
}

impl Rect {
    pub fn new(x: i32, y: i32, w: i32, h: i32) -> (r: Rect)
        ensures
            r == (Rect { x, y, w, h }),
    {
        Rect { x, y, w, h }
    }
}

/// Static level geometry handed to the spatial index by the level loader:
/// either a single rectangle or a batch of them.
pub enum LocationType {
    Single(Rect),
    Multiple(Vec<Rect>),
}

} // verus!
