//! Screen rectangles.
//!
//! A `Rect` stores a position (`left`, `top`) and a size (`right` is the
//! width, `bottom` is the height), matching the shape the OS hands back for
//! monitor work areas.

use vstd::prelude::*;

verus! {

/// Pixel bounds for every coordinate the layout engine works with; wide
/// enough for any realistic monitor arrangement and keeps all the layout
/// arithmetic far away from `i32` overflow.
pub const COORD_LIMIT: i32 = 0x0100_0000;

/// A rectangle on the virtual screen: `left`/`top` is the position of its
/// top-left corner, `right` is its width and `bottom` its height.
#[derive(Debug, Clone, Copy, PartialEq, Eq, Structural)]
pub struct Rect {
    pub left: i32,
    pub top: i32,
    pub right: i32,
    pub bottom: i32,
}

/// The mathematical counterpart of a `Rect`: the same four fields as
/// unbounded integers, which the layout specifications compute with.
pub ghost struct Region {
    pub left: int,
    pub top: int,
    pub right: int,
    pub bottom: int,
}

impl Region {
    /// Loose bounds that every rectangle handed to the OS satisfies: the
    /// layout pipeline keeps all coordinates well inside these, so the
    /// invisible-border correction cannot overflow.
    pub open spec fn positionable(self) -> bool {
        &&& -32 * (COORD_LIMIT as int) <= self.left <= 32 * (COORD_LIMIT as int)
        &&& -32 * (COORD_LIMIT as int) <= self.top <= 32 * (COORD_LIMIT as int)
        &&& -32 * (COORD_LIMIT as int) <= self.right <= 32 * (COORD_LIMIT as int)
        &&& -32 * (COORD_LIMIT as int) <= self.bottom <= 32 * (COORD_LIMIT as int)
    }

    /// Bounds that the layout engine preserves while it subdivides a work
    /// area: the rectangle spans no further than four times the coordinate
    /// limit and its sides are no larger than the limit.
    pub open spec fn ok(self) -> bool {
        &&& -4 * (COORD_LIMIT as int) <= self.left
        &&& self.left + self.right <= 4 * (COORD_LIMIT as int)
        &&& -4 * (COORD_LIMIT as int) <= self.top
        &&& self.top + self.bottom <= 4 * (COORD_LIMIT as int)
        &&& 0 <= self.right <= COORD_LIMIT as int
        &&& 0 <= self.bottom <= COORD_LIMIT as int
    }
}

/// The concrete rectangle with the fields of `g`; on regions whose fields
/// fit the coordinate type this inverts `Rect::region`.
pub open spec fn rect_of_region(g: Region) -> Rect {
    Rect { left: g.left as i32, top: g.top as i32, right: g.right as i32, bottom: g.bottom as i32 }
}

impl Rect {
    /// The rectangle as a mathematical `Region`.
    pub open spec fn region(self) -> Region {
        Region {
            left: self.left as int,
            top: self.top as int,
            right: self.right as int,
            bottom: self.bottom as int,
        }
    }

    /// All four fields within the coordinate bounds, so that sums and
    /// halvings of them stay within `i32`.
    pub open spec fn in_bounds(self) -> bool {
        -COORD_LIMIT <= self.left <= COORD_LIMIT && -COORD_LIMIT <= self.top <= COORD_LIMIT
            && 0 <= self.right <= COORD_LIMIT && 0 <= self.bottom <= COORD_LIMIT
    }

    /// A resize delta: each field is an edge offset and may be negative,
    /// bounded by the coordinate limit.
    pub open spec fn delta_ok(self) -> bool {
        -COORD_LIMIT <= self.left <= COORD_LIMIT && -COORD_LIMIT <= self.top <= COORD_LIMIT
            && -COORD_LIMIT <= self.right <= COORD_LIMIT && -COORD_LIMIT <= self.bottom
            <= COORD_LIMIT
    }

    pub fn new(left: i32, top: i32, right: i32, bottom: i32) -> (r: Rect)
        ensures
            r == (Rect { left, top, right, bottom }),
    {
        Rect { left, top, right, bottom }
    }
}

} // verus!
