//! The errors a reducer can hand back to a command caller.

use vstd::prelude::*;

verus! {

/// Why a reducer refused to act.
#[derive(Debug, Clone, Copy, PartialEq, Eq, Structural)]
pub enum WmError {
    /// No monitor stands at the named index, or none is focused.
    NoSuchMonitor,
    /// No workspace stands at the named index, or none is focused.
    NoSuchWorkspace,
    /// No container stands at the named index, or none is focused.
    NoSuchContainer,
    /// No window with that handle is where the command needs it.
    NoSuchWindow,
    /// The direction has no geometric neighbour under the current layout.
    InvalidDirection,
    /// The overlay states forbid this transition, for example moving a
    /// natively maximized window or unstacking a lone window.
    InvalidOverlayTransition,
    /// The padding to adjust is unset.
    NoPadding,
}

impl WmError {
    /// A short description of the error.
    pub fn message(&self) -> (r: String)
        ensures
            r@.len() > 0,
    {
        let m: &str = match self {
            WmError::NoSuchMonitor => "there is no monitor",
            WmError::NoSuchWorkspace => "there is no workspace",
            WmError::NoSuchContainer => "there is no container",
            WmError::NoSuchWindow => "there is no window",
            WmError::InvalidDirection => "this is not a valid direction from the current position",
            WmError::InvalidOverlayTransition => "the current overlay state forbids this operation",
            WmError::NoPadding => "there is no padding to adjust",
        };
        proof {
            reveal_strlit("there is no monitor");
            reveal_strlit("there is no workspace");
            reveal_strlit("there is no container");
            reveal_strlit("there is no window");
            reveal_strlit("this is not a valid direction from the current position");
            reveal_strlit("the current overlay state forbids this operation");
            reveal_strlit("there is no padding to adjust");
        }
        m.to_owned()
    }
}

} // verus!
