//! One OS window, identified by its opaque handle.
//!
//! A `Window` is a flyweight: it owns nothing and carries only the handle.
//! What the OS knows about a window (title, executable, class, styles,
//! cloak state) reaches the library as a plain `WindowInfo` record, read by
//! the host at its edge, so the classification predicate is a pure function
//! over that record and the identifier lists.

use vstd::prelude::*;

use crate::layout::half_of;
use crate::os::OsCommand;
use crate::os::OsSink;
use crate::rect::Rect;
use crate::rect::Region;

verus! {

/// Style bit: the window has a title bar.
pub const STYLE_CAPTION: u32 = 0x00C0_0000;

/// Extended style bit: the window has a raised border edge.
pub const EX_STYLE_WINDOWEDGE: u32 = 0x0000_0100;

/// Extended style bit: the window has a modal dialog frame.
pub const EX_STYLE_DLGMODALFRAME: u32 = 0x0000_0001;

/// Extended style bit: the window is layered.
pub const EX_STYLE_LAYERED: u32 = 0x0008_0000;

/// The invisible drop-shadow margin the OS adds around a window; layout
/// rectangles are widened by it before they are handed to the OS so the
/// visible frame lands exactly on the computed rectangle.
pub const BORDER_LEFT: i32 = 12;

pub const BORDER_TOP: i32 = 0;

pub const BORDER_RIGHT: i32 = 24;

pub const BORDER_BOTTOM: i32 = 12;

/// One OS window, identified by its handle.
#[derive(Debug, Clone, Copy, PartialEq, Eq, Structural)]
pub struct Window {
    pub hwnd: isize,
}

/// What the OS reports about a window, read once at the host's edge and
/// handed to the library as plain values. A `None` means the corresponding
/// read failed.
#[derive(Debug, Clone)]
pub struct WindowInfo {
    pub hwnd: isize,
    pub title: Option<String>,
    pub exe: Option<String>,
    pub class: Option<String>,
    pub cloaked: bool,
    pub style: u32,
    pub ex_style: u32,
}

/// An event the OS hook reports about a window, normalized.
#[derive(Debug, Clone, Copy, PartialEq, Eq, Structural)]
pub enum WindowManagerEvent {
    Destroy(Window),
    FocusChange(Window),
    Hide(Window),
    Minimize(Window),
    Show(Window),
    Manage(Window),
    Unmanage(Window),
}

/// Whether some string of `l` has exactly the characters `s`.
pub open spec fn has_string(l: Seq<String>, s: Seq<char>) -> bool {
    exists|i: int| 0 <= i < l.len() && l[i]@ == s
}

/// Whether the identifier list `l` holds `s`.
fn list_contains(l: &Vec<String>, s: &String) -> (r: bool)
    ensures
        r == has_string(l@, s@),
{
    let mut i: usize = 0;
    while i < l.len()
        invariant
            i <= l@.len(),
            forall|j: int| 0 <= j < i ==> l@[j]@ != s@,
        decreases l@.len() - i,
    {
        if l[i].eq(s) {
            return true;
        }
        i = i + 1;
    }
    false
}

/// The rectangle widened by the invisible-border correction.
pub open spec fn spec_border_corrected(r: Region) -> Region {
    Region {
        left: r.left - BORDER_LEFT as int,
        top: r.top - BORDER_TOP as int,
        right: r.right + BORDER_RIGHT as int,
        bottom: r.bottom + BORDER_BOTTOM as int,
    }
}

/// The invisible-border correction on a concrete rectangle.
pub open spec fn spec_border_rect(r: Rect) -> Rect {
    Rect {
        left: (r.left - BORDER_LEFT) as i32,
        top: (r.top - BORDER_TOP) as i32,
        right: (r.right + BORDER_RIGHT) as i32,
        bottom: (r.bottom + BORDER_BOTTOM) as i32,
    }
}

/// The centered rectangle of half the work area's size.
pub open spec fn spec_centered_rect(wa: Rect) -> Rect {
    let hw = wa.right as int / 2;
    let hh = wa.bottom as int / 2;
    Rect {
        left: (wa.left + (wa.right - hw) / 2) as i32,
        top: (wa.top + (wa.bottom - hh) / 2) as i32,
        right: hw as i32,
        bottom: hh as i32,
    }
}

/// The classification predicate: whether the manager should tile this
/// window. True exactly when the title read succeeded, the window is not
/// cloaked (unless the event that carried it is a hide event), none of its
/// title, executable or class is on the float list, and either its styles
/// mark it as an ordinary top-level window (caption and window edge, no
/// modal dialog frame, and not layered unless its executable is
/// whitelisted) or its executable or class is on the manage override list.
pub open spec fn spec_should_manage(
    info: WindowInfo,
    event_is_hide: bool,
    float_identifiers: Seq<String>,
    manage_identifiers: Seq<String>,
    layered_exe_whitelist: Seq<String>,
) -> bool {
    match (info.title, info.exe, info.class) {
        (Some(title), Some(exe), Some(class)) => {
            &&& (event_is_hide || !info.cloaked)
            &&& !has_string(float_identifiers, title@)
            &&& !has_string(float_identifiers, exe@)
            &&& !has_string(float_identifiers, class@)
            &&& {
                ||| {
                    &&& info.style & STYLE_CAPTION == STYLE_CAPTION
                    &&& info.ex_style & EX_STYLE_WINDOWEDGE == EX_STYLE_WINDOWEDGE
                    &&& info.ex_style & EX_STYLE_DLGMODALFRAME != EX_STYLE_DLGMODALFRAME
                    &&& (has_string(layered_exe_whitelist, exe@) || info.ex_style
                        & EX_STYLE_LAYERED != EX_STYLE_LAYERED)
                }
                ||| has_string(manage_identifiers, exe@)
                ||| has_string(manage_identifiers, class@)
            }
        },
        _ => false,
    }
}

impl Window {
    pub fn new(hwnd: isize) -> (r: Window)
        ensures
            r.hwnd == hwnd,
    {
        Window { hwnd }
    }

    /// Record this window as programmatically hidden and queue the hide
    /// call. The registry gains the handle unless it already holds it.
    pub fn hide_window(self, sink: &mut OsSink)
        ensures
            final(sink).hidden() == if old(sink).hidden().contains(self.hwnd) {
                old(sink).hidden()
            } else {
                old(sink).hidden().push(self.hwnd)
            },
            final(sink).cmds() == old(sink).cmds().push(OsCommand::Hide(self.hwnd)),
            final(sink).hidden().contains(self.hwnd),
            old(sink).wf() ==> final(sink).wf(),
    {
        let mut found = false;
        let mut i: usize = 0;
        while i < sink.hidden_hwnds.len()
            invariant
                i <= sink.hidden().len(),
                found == exists|j: int| 0 <= j < i && sink.hidden()[j] == self.hwnd,
                sink.hidden() == old(sink).hidden(),
                sink.cmds() == old(sink).cmds(),
            decreases sink.hidden().len() - i,
        {
            if sink.hidden_hwnds[i] == self.hwnd {
                found = true;
            }
            i = i + 1;
        }
        if !found {
            sink.hidden_hwnds.push(self.hwnd);
            proof {
                assert(sink.hidden()[sink.hidden().len() - 1] == self.hwnd);
            }
        }
        sink.commands.push(OsCommand::Hide(self.hwnd));
        proof {
            if old(sink).hidden().contains(self.hwnd) {
                assert(sink.hidden() =~= old(sink).hidden());
            }
        }
    }

    /// Take this window out of the hidden registry (its first occurrence,
    /// if any) and queue the restore call.
    pub fn restore(self, sink: &mut OsSink)
        ensures
            final(sink).hidden() == old(sink).hidden().remove_value(self.hwnd),
            final(sink).cmds() == old(sink).cmds().push(OsCommand::Restore(self.hwnd)),
            old(sink).wf() ==> final(sink).wf(),
            old(sink).wf() ==> !final(sink).hidden().contains(self.hwnd),
    {
        self.unregister(sink);
        sink.commands.push(OsCommand::Restore(self.hwnd));
    }

    /// Take this window out of the hidden registry and queue the native
    /// maximize call.
    pub fn maximize(self, sink: &mut OsSink)
        ensures
            final(sink).hidden() == old(sink).hidden().remove_value(self.hwnd),
            final(sink).cmds() == old(sink).cmds().push(OsCommand::Maximize(self.hwnd)),
            old(sink).wf() ==> final(sink).wf(),
            old(sink).wf() ==> !final(sink).hidden().contains(self.hwnd),
    {
        self.unregister(sink);
        sink.commands.push(OsCommand::Maximize(self.hwnd));
    }

    /// Remove the first occurrence of this window's handle from the hidden
    /// registry.
    fn unregister(self, sink: &mut OsSink)
        ensures
            final(sink).hidden() == old(sink).hidden().remove_value(self.hwnd),
            final(sink).cmds() == old(sink).cmds(),
            old(sink).wf() ==> final(sink).wf(),
            old(sink).wf() ==> !final(sink).hidden().contains(self.hwnd),
    {
        let mut i: usize = 0;
        let n = sink.hidden_hwnds.len();
        while i < n
            invariant
                n == sink.hidden().len(),
                i <= n,
                forall|j: int| 0 <= j < i ==> sink.hidden()[j] != self.hwnd,
                sink.hidden() == old(sink).hidden(),
                sink.cmds() == old(sink).cmds(),
            decreases n - i,
        {
            if sink.hidden_hwnds[i] == self.hwnd {
                proof {
                    old(sink).hidden().index_of_first_ensures(self.hwnd);
                    assert(old(sink).hidden().contains(self.hwnd)) by {
                        assert(old(sink).hidden()[i as int] == self.hwnd);
                    }
                    let idx_opt = old(sink).hidden().index_of_first(self.hwnd);
                    assert(idx_opt is Some);
                    let k = idx_opt.unwrap();
                    if k < i as int {
                        assert(old(sink).hidden()[k] == self.hwnd);
                        assert(false);
                    } else if k > i as int {
                        assert(old(sink).hidden()[i as int] != self.hwnd);
                        assert(false);
                    }
                    assert(old(sink).hidden().index_of_first(self.hwnd) == Some(i as int));
                }
                sink.hidden_hwnds.remove(i);
                proof {
                    if old(sink).wf() {
                        assert forall|k: int|
                            0 <= k < sink.hidden().len() implies sink.hidden()[k]
                            != self.hwnd by {
                            if k < i {
                            } else {
                                assert(sink.hidden()[k] == old(sink).hidden()[k + 1]);
                            }
                        }
                        assert(!sink.hidden().contains(self.hwnd));
                    }
                }
                return ;
            }
            i = i + 1;
        }
        proof {
            old(sink).hidden().index_of_first_ensures(self.hwnd);
            assert(!old(sink).hidden().contains(self.hwnd));
        }
    }

    /// Queue the call that raises this window, attaches thread input and
    /// focuses it. Focusing is best-effort at the OS: the command records
    /// the intent.
    pub fn focus(self, sink: &mut OsSink)
        ensures
            final(sink).cmds() == old(sink).cmds().push(OsCommand::Focus(self.hwnd)),
            final(sink).hidden() == old(sink).hidden(),
    {
        sink.commands.push(OsCommand::Focus(self.hwnd));
    }

    /// Queue a position change to `layout`, widened by the invisible-border
    /// correction.
    pub fn set_position(self, layout: &Rect, top: bool, sink: &mut OsSink)
        requires
            layout.region().positionable(),
        ensures
            final(sink).cmds() == old(sink).cmds().push(
                OsCommand::Position {
                    hwnd: self.hwnd,
                    rect: spec_border_rect(*layout),
                    topmost: top,
                },
            ),
            final(sink).hidden() == old(sink).hidden(),
    {
        let rect = Rect {
            left: layout.left - BORDER_LEFT,
            top: layout.top - BORDER_TOP,
            right: layout.right + BORDER_RIGHT,
            bottom: layout.bottom + BORDER_BOTTOM,
        };
        sink.commands.push(OsCommand::Position { hwnd: self.hwnd, rect, topmost: top });
    }

    /// Queue a move of this window to the center of the work area, at half
    /// the work area's size, above the tiled layer.
    pub fn center(self, work_area: &Rect, sink: &mut OsSink)
        requires
            work_area.in_bounds(),
        ensures
            final(sink).cmds() == old(sink).cmds().push(
                OsCommand::Position {
                    hwnd: self.hwnd,
                    rect: spec_border_rect(spec_centered_rect(*work_area)),
                    topmost: true,
                },
            ),
            final(sink).hidden() == old(sink).hidden(),
    {
        let half_width = half_of(work_area.right);
        let half_height = half_of(work_area.bottom);
        let centered = Rect {
            left: work_area.left + half_of(work_area.right - half_width),
            top: work_area.top + half_of(work_area.bottom - half_height),
            right: half_width,
            bottom: half_height,
        };
        self.set_position(&centered, true, sink);
    }

    /// Classify this window from what the OS reports about it.
    pub fn should_manage(
        self,
        event: Option<WindowManagerEvent>,
        info: &WindowInfo,
        float_identifiers: &Vec<String>,
        manage_identifiers: &Vec<String>,
        layered_exe_whitelist: &Vec<String>,
    ) -> (r: bool)
        ensures
            r == spec_should_manage(
                *info,
                event matches Some(WindowManagerEvent::Hide(_)),
                float_identifiers@,
                manage_identifiers@,
                layered_exe_whitelist@,
            ),
    {
        let event_is_hide = matches!(event, Some(WindowManagerEvent::Hide(_)));
        match (&info.title, &info.exe, &info.class) {
            (Some(title), Some(exe), Some(class)) => {
                if !event_is_hide && info.cloaked {
                    return false;
                }
                if list_contains(float_identifiers, title) || list_contains(
                    float_identifiers,
                    exe,
                ) || list_contains(float_identifiers, class) {
                    return false;
                }
                let managed_override = list_contains(manage_identifiers, exe) || list_contains(
                    manage_identifiers,
                    class,
                );
                let allow_layered = list_contains(layered_exe_whitelist, exe);
                let plain = info.style & STYLE_CAPTION == STYLE_CAPTION && info.ex_style
                    & EX_STYLE_WINDOWEDGE == EX_STYLE_WINDOWEDGE && info.ex_style
                    & EX_STYLE_DLGMODALFRAME != EX_STYLE_DLGMODALFRAME && (allow_layered
                    || info.ex_style & EX_STYLE_LAYERED != EX_STYLE_LAYERED);
                plain || managed_override
            },
            _ => false,
        }
    }
}

} // verus!
