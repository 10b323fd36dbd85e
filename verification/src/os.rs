//! The modelled OS surface.
//!
//! The reducers never call into the OS themselves: every visibility or
//! position change is recorded as an `OsCommand` in an `OsSink`, together
//! with the registry of windows the manager itself has hidden. A host
//! drains the commands and performs the real calls, in order.

use vstd::prelude::*;

use crate::rect::Rect;

verus! {

/// One call the manager wants made against the OS.
#[derive(Debug, Clone, Copy, PartialEq, Eq, Structural)]
pub enum OsCommand {
    /// Hide the window.
    Hide(isize),
    /// Show the window at its last position.
    Restore(isize),
    /// Natively maximize the window.
    Maximize(isize),
    /// Move the window to a rectangle, optionally above the tiled layer.
    Position { hwnd: isize, rect: Rect, topmost: bool },
    /// Raise the window, attach thread input and focus it.
    Focus(isize),
    /// Drop focus onto the bare desktop.
    FocusDesktop,
}

/// The queue of pending OS calls and the registry of programmatically
/// hidden windows.
///
/// The registry holds each handle at most once; `hide` records a handle,
/// `restore` and `maximize` take it out again.
#[derive(Debug, Clone)]
pub struct OsSink {
    pub hidden_hwnds: Vec<isize>,
    pub commands: Vec<OsCommand>,
}

impl OsSink {
    /// The hidden-window registry as a sequence.
    pub open spec fn hidden(self) -> Seq<isize> {
        self.hidden_hwnds@
    }

    /// The pending commands as a sequence.
    pub open spec fn cmds(self) -> Seq<OsCommand> {
        self.commands@
    }

    /// The registry holds no handle twice.
    pub open spec fn wf(self) -> bool {
        forall|i: int, j: int|
            0 <= i < j < self.hidden().len() ==> self.hidden()[i] != self.hidden()[j]
    }

    pub fn new() -> (r: OsSink)
        ensures
            r.hidden() == Seq::<isize>::empty(),
            r.cmds() == Seq::<OsCommand>::empty(),
            r.wf(),
    {
        OsSink { hidden_hwnds: Vec::new(), commands: Vec::new() }
    }

    /// Drain the pending commands for the host to perform, leaving the
    /// hidden-window registry in place.
    pub fn take_commands(&mut self) -> (r: Vec<OsCommand>)
        ensures
            r@ == old(self).cmds(),
            final(self).cmds() == Seq::<OsCommand>::empty(),
            final(self).hidden() == old(self).hidden(),
    {
        let mut out: Vec<OsCommand> = Vec::new();
        core::mem::swap(&mut out, &mut self.commands);
        out
    }
}

} // verus!
