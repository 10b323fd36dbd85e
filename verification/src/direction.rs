//! Directions of movement and sizing across the layout.
//!
//! `OperationDirection::candidate` is the geometric neighbour function: for
//! a focused container index it names the container index that lies in a
//! given direction under the current layout, judged in unflipped space
//! (callers that work on flipped rectangles invert the direction first).

use vstd::prelude::*;

use crate::layout::Flip;
use crate::layout::Layout;
use crate::rect::COORD_LIMIT;

verus! {

/// A direction on the screen.
#[derive(Debug, Clone, Copy, PartialEq, Eq, Structural)]
pub enum OperationDirection {
    Left,
    Right,
    Up,
    Down,
}

/// Whether an adjustment grows or shrinks its target.
#[derive(Debug, Clone, Copy, PartialEq, Eq, Structural)]
pub enum Sizing {
    Increase,
    Decrease,
}

/// A step through a cycle of indices.
#[derive(Debug, Clone, Copy, PartialEq, Eq, Structural)]
pub enum CycleDirection {
    Previous,
    Next,
}

impl Sizing {
    /// The adjusted value: increased or decreased by `adjustment`.
    pub open spec fn spec_adjust_by(self, value: int, adjustment: int) -> int {
        match self {
            Sizing::Increase => value + adjustment,
            Sizing::Decrease => value - adjustment,
        }
    }

    pub fn adjust_by(&self, value: i32, adjustment: i32) -> (r: i32)
        requires
            -COORD_LIMIT <= value <= COORD_LIMIT,
            -COORD_LIMIT <= adjustment <= COORD_LIMIT,
        ensures
            r == self.spec_adjust_by(value as int, adjustment as int),
    {
        match self {
            Sizing::Increase => value + adjustment,
            Sizing::Decrease => value - adjustment,
        }
    }
}

impl CycleDirection {
    /// The next index in the cycle, wrapping at both ends.
    pub open spec fn spec_next_idx(self, idx: int, len: int) -> int {
        match self {
            CycleDirection::Previous => if idx == 0 {
                len - 1
            } else {
                idx - 1
            },
            CycleDirection::Next => if idx == len - 1 {
                0
            } else {
                idx + 1
            },
        }
    }

    pub fn next_idx(&self, idx: usize, len: usize) -> (r: usize)
        requires
            len >= 1,
            idx < len,
        ensures
            r == self.spec_next_idx(idx as int, len as int),
            r < len,
    {
        match self {
            CycleDirection::Previous => if idx == 0 {
                len - 1
            } else {
                idx - 1
            },
            CycleDirection::Next => if idx == len - 1 {
                0
            } else {
                idx + 1
            },
        }
    }
}

impl OperationDirection {
    /// The opposite direction.
    pub open spec fn spec_opposite(self) -> OperationDirection {
        match self {
            OperationDirection::Left => OperationDirection::Right,
            OperationDirection::Right => OperationDirection::Left,
            OperationDirection::Up => OperationDirection::Down,
            OperationDirection::Down => OperationDirection::Up,
        }
    }

    pub fn opposite(&self) -> (r: OperationDirection)
        ensures
            r == self.spec_opposite(),
    {
        match self {
            OperationDirection::Left => OperationDirection::Right,
            OperationDirection::Right => OperationDirection::Left,
            OperationDirection::Up => OperationDirection::Down,
            OperationDirection::Down => OperationDirection::Up,
        }
    }

    /// The neighbouring container index in direction `self` from `idx`
    /// among `len` containers laid out by `l`, or `None` when no container
    /// lies in that direction.
    ///
    /// The bisection layout alternates vertical and horizontal cuts, so an
    /// even index has its successor to its right and an odd index has its
    /// successor below. The stack layouts treat their first container as
    /// the main zone and the rest as a stack.
    pub open spec fn spec_candidate(self, l: Layout, idx: int, len: int) -> Option<int> {
        match l {
            Layout::Bsp => match self {
                OperationDirection::Left => if idx >= 1 {
                    Some(
                        if idx % 2 == 1 {
                            idx - 1
                        } else {
                            idx - 2
                        },
                    )
                } else {
                    None
                },
                OperationDirection::Right => if idx % 2 == 0 && idx + 1 < len {
                    Some(idx + 1)
                } else {
                    None
                },
                OperationDirection::Up => if idx >= 2 {
                    Some(
                        if idx % 2 == 0 {
                            idx - 1
                        } else {
                            idx - 2
                        },
                    )
                } else {
                    None
                },
                OperationDirection::Down => if idx % 2 == 1 && idx + 1 < len {
                    Some(idx + 1)
                } else {
                    None
                },
            },
            Layout::Columns => match self {
                OperationDirection::Left => if idx >= 1 {
                    Some(idx - 1)
                } else {
                    None
                },
                OperationDirection::Right => if idx + 1 < len {
                    Some(idx + 1)
                } else {
                    None
                },
                _ => None,
            },
            Layout::Rows => match self {
                OperationDirection::Up => if idx >= 1 {
                    Some(idx - 1)
                } else {
                    None
                },
                OperationDirection::Down => if idx + 1 < len {
                    Some(idx + 1)
                } else {
                    None
                },
                _ => None,
            },
            Layout::VerticalStack => match self {
                OperationDirection::Left => if idx >= 1 {
                    Some(0int)
                } else {
                    None
                },
                OperationDirection::Right => if idx >= 1 {
                    Some(0int)
                } else if len > 1 {
                    Some(1int)
                } else {
                    None
                },
                OperationDirection::Up => if idx >= 2 {
                    Some(idx - 1)
                } else {
                    None
                },
                OperationDirection::Down => if idx >= 1 && idx + 1 < len {
                    Some(idx + 1)
                } else {
                    None
                },
            },
            Layout::HorizontalStack => match self {
                OperationDirection::Up => if idx >= 1 {
                    Some(0int)
                } else {
                    None
                },
                OperationDirection::Down => if idx >= 1 {
                    Some(0int)
                } else if len > 1 {
                    Some(1int)
                } else {
                    None
                },
                OperationDirection::Left => if idx >= 2 {
                    Some(idx - 1)
                } else {
                    None
                },
                OperationDirection::Right => if idx >= 1 && idx + 1 < len {
                    Some(idx + 1)
                } else {
                    None
                },
            },
            Layout::UltrawideVerticalStack => match self {
                OperationDirection::Left => if idx == 0 && len > 1 {
                    Some(1int)
                } else if idx >= 2 {
                    Some(0int)
                } else {
                    None
                },
                OperationDirection::Right => if idx == 0 && len > 2 {
                    Some(2int)
                } else if idx == 1 {
                    Some(0int)
                } else {
                    None
                },
                OperationDirection::Up => if idx >= 3 {
                    Some(idx - 1)
                } else {
                    None
                },
                OperationDirection::Down => if idx >= 2 && idx + 1 < len {
                    Some(idx + 1)
                } else {
                    None
                },
            },
        }
    }

    /// A candidate named by `spec_candidate` is always a valid container
    /// index different from the focused one.
    pub proof fn lemma_candidate_in_range(self, l: Layout, idx: int, len: int)
        requires
            0 <= idx < len,
        ensures
            match self.spec_candidate(l, idx, len) {
                Some(c) => 0 <= c < len && c != idx,
                None => true,
            },
    {
    }

    /// The direction to use on unflipped rectangles when the workspace is
    /// flipped: a horizontal flip mirrors left and right, a vertical flip
    /// mirrors up and down, the combined flip mirrors every direction.
    pub open spec fn spec_unflipped(self, flip: Option<Flip>) -> OperationDirection {
        match flip {
            None => self,
            Some(Flip::Horizontal) => match self {
                OperationDirection::Left => OperationDirection::Right,
                OperationDirection::Right => OperationDirection::Left,
                _ => self,
            },
            Some(Flip::Vertical) => match self {
                OperationDirection::Up => OperationDirection::Down,
                OperationDirection::Down => OperationDirection::Up,
                _ => self,
            },
            Some(Flip::HorizontalAndVertical) => self.spec_opposite(),
        }
    }

    /// The direction to use on unflipped rectangles, executable form.
    pub fn unflipped(&self, flip: Option<Flip>) -> (r: OperationDirection)
        ensures
            r == self.spec_unflipped(flip),
    {
        match flip {
            None => *self,
            Some(Flip::Horizontal) => match self {
                OperationDirection::Left => OperationDirection::Right,
                OperationDirection::Right => OperationDirection::Left,
                _ => *self,
            },
            Some(Flip::Vertical) => match self {
                OperationDirection::Up => OperationDirection::Down,
                OperationDirection::Down => OperationDirection::Up,
                _ => *self,
            },
            Some(Flip::HorizontalAndVertical) => self.opposite(),
        }
    }

    /// Whether a container lies in direction `self` from `idx`.
    ///
    /// Validity is judged in unflipped space; `layout_flip` does not change
    /// which neighbours exist, and resizing inverts the direction itself
    /// before it touches the unflipped rectangles.
    pub fn is_valid(&self, layout: &Layout, layout_flip: Option<Flip>, idx: usize, len: usize)
        -> (b: bool)
        requires
            idx < len,
        ensures
            b == self.spec_candidate(*layout, idx as int, len as int).is_some(),
    {
        let _ = layout_flip;
        self.new_idx(layout, idx, len).is_some()
    }

    /// The neighbouring container index, executable form.
    pub fn new_idx(&self, layout: &Layout, idx: usize, len: usize) -> (r: Option<usize>)
        requires
            idx < len,
        ensures
            match r {
                Some(c) => {
                    &&& self.spec_candidate(*layout, idx as int, len as int) == Some(c as int)
                    &&& c < len
                    &&& c != idx
                },
                None => self.spec_candidate(*layout, idx as int, len as int) is None,
            },
    {
        proof {
            self.lemma_candidate_in_range(*layout, idx as int, len as int);
        }
        match layout {
            Layout::Bsp => match self {
                OperationDirection::Left => if idx >= 1 {
                    if idx % 2 == 1 {
                        Some(idx - 1)
                    } else {
                        Some(idx - 2)
                    }
                } else {
                    None
                },
                OperationDirection::Right => if idx % 2 == 0 && idx + 1 < len {
                    Some(idx + 1)
                } else {
                    None
                },
                OperationDirection::Up => if idx >= 2 {
                    if idx % 2 == 0 {
                        Some(idx - 1)
                    } else {
                        Some(idx - 2)
                    }
                } else {
                    None
                },
                OperationDirection::Down => if idx % 2 == 1 && idx + 1 < len {
                    Some(idx + 1)
                } else {
                    None
                },
            },
            Layout::Columns => match self {
                OperationDirection::Left => if idx >= 1 {
                    Some(idx - 1)
                } else {
                    None
                },
                OperationDirection::Right => if idx + 1 < len {
                    Some(idx + 1)
                } else {
                    None
                },
                _ => None,
            },
            Layout::Rows => match self {
                OperationDirection::Up => if idx >= 1 {
                    Some(idx - 1)
                } else {
                    None
                },
                OperationDirection::Down => if idx + 1 < len {
                    Some(idx + 1)
                } else {
                    None
                },
                _ => None,
            },
            Layout::VerticalStack => match self {
                OperationDirection::Left => if idx >= 1 {
                    Some(0)
                } else {
                    None
                },
                OperationDirection::Right => if idx >= 1 {
                    Some(0)
                } else if len > 1 {
                    Some(1)
                } else {
                    None
                },
                OperationDirection::Up => if idx >= 2 {
                    Some(idx - 1)
                } else {
                    None
                },
                OperationDirection::Down => if idx >= 1 && idx + 1 < len {
                    Some(idx + 1)
                } else {
                    None
                },
            },
            Layout::HorizontalStack => match self {
                OperationDirection::Up => if idx >= 1 {
                    Some(0)
                } else {
                    None
                },
                OperationDirection::Down => if idx >= 1 {
                    Some(0)
                } else if len > 1 {
                    Some(1)
                } else {
                    None
                },
                OperationDirection::Left => if idx >= 2 {
                    Some(idx - 1)
                } else {
                    None
                },
                OperationDirection::Right => if idx >= 1 && idx + 1 < len {
                    Some(idx + 1)
                } else {
                    None
                },
            },
            Layout::UltrawideVerticalStack => match self {
                OperationDirection::Left => if idx == 0 && len > 1 {
                    Some(1)
                } else if idx >= 2 {
                    Some(0)
                } else {
                    None
                },
                OperationDirection::Right => if idx == 0 && len > 2 {
                    Some(2)
                } else if idx == 1 {
                    Some(0)
                } else {
                    None
                },
                OperationDirection::Up => if idx >= 3 {
                    Some(idx - 1)
                } else {
                    None
                },
                OperationDirection::Down => if idx >= 2 && idx + 1 < len {
                    Some(idx + 1)
                } else {
                    None
                },
            },
        }
    }
}

} // verus!
