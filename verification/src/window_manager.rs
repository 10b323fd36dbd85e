//! The top-level reducer: the ring of monitors, the classification and
//! rule lists, and the command handlers that mutate the hierarchy and
//! project it back onto the OS.

use vstd::prelude::*;

use crate::container::Container;
use crate::direction::CycleDirection;
use crate::direction::OperationDirection;
use crate::direction::Sizing;
use crate::error::WmError;
use crate::layout::Flip;
use crate::layout::Layout;
use crate::monitor::monitor_wf;
use crate::monitor::spec_load_monitor_cmds;
use crate::monitor::Monitor;
use crate::monitor::MonitorView;
use crate::os::OsCommand;
use crate::os::OsSink;
use crate::rect::Rect;
use crate::rect::COORD_LIMIT;
use crate::ring::Ring;
use crate::window::Window;
use crate::window::WindowInfo;
use crate::workspace::focused_window_of;
use crate::workspace::monocle_off_view;
use crate::workspace::monocle_on_view;
use crate::workspace::padding_field_ok;
use crate::workspace::spec_update_cmds;
use crate::workspace::Workspace;
use crate::workspace::WorkspaceView;

verus! {

/// A rule that pins windows of one application (by executable name or
/// title) to a monitor and workspace.
#[derive(Debug, Clone)]
#[verifier::ext_equal]
pub struct WorkspaceRule {
    pub identifier: String,
    pub monitor_idx: usize,
    pub workspace_idx: usize,
}

/// The in-memory state of the window manager.
#[derive(Debug)]
#[verifier::ext_equal]
pub struct WindowManager {
    monitors: Ring<Monitor>,
    is_paused: bool,
    virtual_desktop_id: Option<usize>,
    float_identifiers: Vec<String>,
    manage_identifiers: Vec<String>,
    layered_exe_whitelist: Vec<String>,
    tray_and_multi_window_exes: Vec<String>,
    tray_and_multi_window_classes: Vec<String>,
    workspace_rules: Vec<WorkspaceRule>,
}

/// The mathematical state of the window manager.
#[verifier::ext_equal]
pub ghost struct WmView {
    pub monitors: Seq<Monitor>,
    pub focused: int,
    pub is_paused: bool,
    pub virtual_desktop_id: Option<usize>,
    pub float_identifiers: Seq<String>,
    pub manage_identifiers: Seq<String>,
    pub layered_exe_whitelist: Seq<String>,
    pub tray_and_multi_window_exes: Seq<String>,
    pub tray_and_multi_window_classes: Seq<String>,
    pub workspace_rules: Seq<WorkspaceRule>,
}

impl View for WindowManager {
    type V = WmView;

    closed spec fn view(&self) -> WmView {
        WmView {
            monitors: self.monitors.seq(),
            focused: self.monitors.focused_spec(),
            is_paused: self.is_paused,
            virtual_desktop_id: self.virtual_desktop_id,
            float_identifiers: self.float_identifiers@,
            manage_identifiers: self.manage_identifiers@,
            layered_exe_whitelist: self.layered_exe_whitelist@,
            tray_and_multi_window_exes: self.tray_and_multi_window_exes@,
            tray_and_multi_window_classes: self.tray_and_multi_window_classes@,
            workspace_rules: self.workspace_rules@,
        }
    }
}

/// The manager invariant: the monitor ring keeps the focus invariant and
/// every monitor is well-formed. The ring may be empty before `init`.
pub open spec fn wm_wf(v: WmView) -> bool {
    &&& if v.monitors.len() > 0 {
        0 <= v.focused < v.monitors.len()
    } else {
        v.focused == 0
    }
    &&& forall|i: int| 0 <= i < v.monitors.len() ==> (#[trigger] v.monitors[i]).wf()
}

/// The focused monitor's view.
pub open spec fn wm_focused_monitor(v: WmView) -> MonitorView {
    v.monitors[v.focused]@
}

/// The focused workspace's view: the focused workspace of the focused
/// monitor.
pub open spec fn wm_focused_ws(v: WmView) -> WorkspaceView {
    wm_focused_monitor(v).workspaces[wm_focused_monitor(v).focused]@
}

/// `post` is `pre` with exactly the focused workspace's state replaced by
/// `wsv` and everything else unchanged.
pub open spec fn focused_ws_replaced(pre: WmView, post: WmView, wsv: WorkspaceView) -> bool {
    &&& pre.monitors.len() > 0
    &&& 0 <= pre.focused < pre.monitors.len()
    &&& post.monitors.len() == pre.monitors.len()
    &&& forall|j: int|
        0 <= j < post.monitors.len() && j != pre.focused ==> post.monitors[j]
            == pre.monitors[j]
    &&& {
        let m0 = pre.monitors[pre.focused]@;
        let m1 = post.monitors[pre.focused]@;
        &&& m1.workspaces.len() == m0.workspaces.len()
        &&& forall|k: int|
            0 <= k < m1.workspaces.len() && k != m0.focused ==> m1.workspaces[k]
                == m0.workspaces[k]
        &&& 0 <= m0.focused < m0.workspaces.len()
        &&& m1.workspaces[m0.focused]@ == wsv
        &&& m1 == (MonitorView { workspaces: m1.workspaces, ..m0 })
    }
    &&& post == (WmView { monitors: post.monitors, ..pre })
}

/// `post` is `pre` with exactly the workspace at (`mi`, `wi`) replaced by
/// `wsv` and everything else unchanged.
pub open spec fn one_workspace_replaced(
    pre: WmView,
    post: WmView,
    mi: int,
    wi: int,
    wsv: WorkspaceView,
) -> bool {
    &&& 0 <= mi < pre.monitors.len()
    &&& post.monitors.len() == pre.monitors.len()
    &&& forall|m2: int|
        0 <= m2 < post.monitors.len() && m2 != mi ==> post.monitors[m2] == pre.monitors[m2]
    &&& {
        let m0 = pre.monitors[mi]@;
        let m1 = post.monitors[mi]@;
        &&& 0 <= wi < m0.workspaces.len()
        &&& m1.workspaces.len() == m0.workspaces.len()
        &&& forall|w2: int|
            0 <= w2 < m1.workspaces.len() && w2 != wi ==> m1.workspaces[w2]
                == m0.workspaces[w2]
        &&& m1.workspaces[wi]@ == wsv
        &&& m1 == (MonitorView { workspaces: m1.workspaces, ..m0 })
    }
    &&& post == (WmView { monitors: post.monitors, ..pre })
}

/// The focus command that follows a projection when the mouse follows
/// focus: the maximized window wins, then the monocle container's focused
/// window, then the focused workspace's focused window, and with nothing
/// to focus the bare desktop takes it.
pub open spec fn spec_focus_cmds(w: WorkspaceView) -> Seq<OsCommand> {
    if w.maximized is Some {
        seq![OsCommand::Focus(w.maximized.unwrap().hwnd)]
    } else if w.monocle is Some {
        let c = w.monocle.unwrap();
        seq![OsCommand::Focus(c.windows_seq()[c.focused_window_spec()].hwnd)]
    } else if w.containers.len() > 0 {
        let c = w.containers[w.focused];
        seq![OsCommand::Focus(c.windows_seq()[c.focused_window_spec()].hwnd)]
    } else {
        seq![OsCommand::FocusDesktop]
    }
}

/// Every OS call one projection of monitor `m` issues: realise workspace
/// focus, tile the focused workspace, and optionally move the input focus.
pub open spec fn spec_project_cmds(m: Monitor, mouse_follows_focus: bool) -> Seq<OsCommand> {
    spec_load_monitor_cmds(m@.workspaces, m@.focused, 0) + spec_update_cmds(
        m@.workspaces[m@.focused]@,
        m@.work_area,
    ) + (if mouse_follows_focus {
        spec_focus_cmds(m@.workspaces[m@.focused]@)
    } else {
        Seq::empty()
    })
}

impl WindowManager {
    /// The manager invariant on this manager's state.
    pub open spec fn wf(self) -> bool {
        wm_wf(self@)
    }

    /// A fresh manager: no monitors yet, not paused, the default layered
    /// whitelist and tray lists, no rules.
    pub fn new(virtual_desktop_id: Option<usize>) -> (r: WindowManager)
        ensures
            r.wf(),
            r@.monitors == Seq::<Monitor>::empty(),
            r@.focused == 0,
            !r@.is_paused,
            r@.virtual_desktop_id == virtual_desktop_id,
            r@.float_identifiers == Seq::<String>::empty(),
            r@.manage_identifiers == Seq::<String>::empty(),
            r@.layered_exe_whitelist.len() == 1,
            r@.tray_and_multi_window_exes.len() == 6,
            r@.tray_and_multi_window_classes == Seq::<String>::empty(),
            r@.workspace_rules == Seq::<WorkspaceRule>::empty(),
    {
        let mut layered_exe_whitelist: Vec<String> = Vec::new();
        layered_exe_whitelist.push("steam.exe".to_owned());
        let mut tray_exes: Vec<String> = Vec::new();
        tray_exes.push("explorer.exe".to_owned());
        tray_exes.push("firefox.exe".to_owned());
        tray_exes.push("chrome.exe".to_owned());
        tray_exes.push("idea64.exe".to_owned());
        tray_exes.push("ApplicationFrameHost.exe".to_owned());
        tray_exes.push("steam.exe".to_owned());
        WindowManager {
            monitors: Ring::new(),
            is_paused: false,
            virtual_desktop_id,
            float_identifiers: Vec::new(),
            manage_identifiers: Vec::new(),
            layered_exe_whitelist,
            tray_and_multi_window_exes: tray_exes,
            tray_and_multi_window_classes: Vec::new(),
            workspace_rules: Vec::new(),
        }
    }

    /// Install the monitors the OS reported and project the initial state.
    pub fn init(&mut self, monitors: Vec<Monitor>, sink: &mut OsSink) -> (r: Result<(), WmError>)
        requires
            old(self).wf(),
            forall|i: int| 0 <= i < monitors@.len() ==> (#[trigger] monitors@[i]).wf(),
        ensures
            final(self)@ == (WmView { monitors: monitors@, focused: 0, ..old(self)@ }),
            final(self).wf(),
            match r {
                Ok(()) => monitors@.len() > 0,
                Err(e) => e == WmError::NoSuchMonitor && monitors@.len() == 0,
            },
    {
        let mut ring: Ring<Monitor> = Ring::new();
        let mut ms = monitors;
        let n = ms.len();
        while ms.len() > 0
            invariant
                ring.seq() + ms@ == monitors@,
                ring.focused_spec() == 0,
                forall|i: int| 0 <= i < monitors@.len() ==> (#[trigger] monitors@[i]).wf(),
            decreases ms@.len(),
        {
            let m = ms.remove(0);
            proof {
                assert(monitors@[ring.seq().len() as int] == m);
            }
            ring.push_back(m);
        }
        proof {
            assert(ring.seq() + ms@ =~= ring.seq());
            assert(ring.seq() =~= monitors@);
        }
        self.monitors = ring;
        if self.monitors.len() == 0 {
            return Err(WmError::NoSuchMonitor);
        }
        self.update_focused_workspace(false, sink)
    }

    pub fn monitors(&self) -> (r: &Ring<Monitor>)
        ensures
            r.seq() == self@.monitors,
            r.focused_spec() == self@.focused,
    {
        &self.monitors
    }

    pub fn focused_monitor_idx(&self) -> (r: usize)
        ensures
            r == self@.focused,
    {
        self.monitors.focused_idx()
    }

    pub fn is_paused(&self) -> (r: bool)
        ensures
            r == self@.is_paused,
    {
        self.is_paused
    }

    /// Pause or resume event handling.
    pub fn toggle_pause(&mut self)
        ensures
            final(self)@ == (WmView { is_paused: !old(self)@.is_paused, ..old(self)@ }),
            old(self).wf() ==> final(self).wf(),
    {
        self.is_paused = !self.is_paused;
    }

    pub fn virtual_desktop_id(&self) -> (r: Option<usize>)
        ensures
            r == self@.virtual_desktop_id,
    {
        self.virtual_desktop_id
    }

    /// Whether events arriving now belong to the virtual desktop this
    /// manager was started on; `current` is what the OS reports now.
    pub fn validate_virtual_desktop_id(&self, current: Option<usize>) -> (r: bool)
        ensures
            r == match (self@.virtual_desktop_id, current) {
                (Some(own), Some(now)) => own == now,
                _ => true,
            },
    {
        match (self.virtual_desktop_id, current) {
            (Some(own), Some(now)) => own == now,
            _ => true,
        }
    }

    pub fn float_identifiers(&self) -> (r: &Vec<String>)
        ensures
            r@ == self@.float_identifiers,
    {
        &self.float_identifiers
    }

    pub fn manage_identifiers(&self) -> (r: &Vec<String>)
        ensures
            r@ == self@.manage_identifiers,
    {
        &self.manage_identifiers
    }

    pub fn layered_exe_whitelist(&self) -> (r: &Vec<String>)
        ensures
            r@ == self@.layered_exe_whitelist,
    {
        &self.layered_exe_whitelist
    }

    pub fn tray_and_multi_window_exes(&self) -> (r: &Vec<String>)
        ensures
            r@ == self@.tray_and_multi_window_exes,
    {
        &self.tray_and_multi_window_exes
    }

    pub fn tray_and_multi_window_classes(&self) -> (r: &Vec<String>)
        ensures
            r@ == self@.tray_and_multi_window_classes,
    {
        &self.tray_and_multi_window_classes
    }

    pub fn workspace_rules(&self) -> (r: &Vec<WorkspaceRule>)
        ensures
            r@ == self@.workspace_rules,
    {
        &self.workspace_rules
    }

    /// Record a float rule identifier.
    pub fn add_float_identifier(&mut self, id: String)
        ensures
            final(self)@ == (WmView {
                float_identifiers: old(self)@.float_identifiers.push(id),
                ..old(self)@
            }),
            old(self).wf() ==> final(self).wf(),
    {
        self.float_identifiers.push(id);
    }

    /// Record a manage override identifier.
    pub fn add_manage_identifier(&mut self, id: String)
        ensures
            final(self)@ == (WmView {
                manage_identifiers: old(self)@.manage_identifiers.push(id),
                ..old(self)@
            }),
            old(self).wf() ==> final(self).wf(),
    {
        self.manage_identifiers.push(id);
    }

    /// Record an application that closes to the system tray.
    pub fn add_tray_exe(&mut self, exe: String)
        ensures
            final(self)@ == (WmView {
                tray_and_multi_window_exes: old(self)@.tray_and_multi_window_exes.push(exe),
                ..old(self)@
            }),
            old(self).wf() ==> final(self).wf(),
    {
        self.tray_and_multi_window_exes.push(exe);
    }

    /// Record a window class that closes to the system tray.
    pub fn add_tray_class(&mut self, class: String)
        ensures
            final(self)@ == (WmView {
                tray_and_multi_window_classes: old(self)@.tray_and_multi_window_classes.push(
                    class,
                ),
                ..old(self)@
            }),
            old(self).wf() ==> final(self).wf(),
    {
        self.tray_and_multi_window_classes.push(class);
    }

    /// Record a workspace rule, replacing an earlier rule for the same
    /// identifier: afterwards the lookup for this identifier finds exactly
    /// this rule, and every other identifier resolves as before.
    pub fn add_workspace_rule(&mut self, rule: WorkspaceRule)
        ensures
            rule_match(final(self)@.workspace_rules, rule.identifier@) == Some(rule),
            forall|s: Seq<char>|
                s != rule.identifier@ ==> #[trigger] rule_match(
                    final(self)@.workspace_rules,
                    s,
                ) == rule_match(old(self)@.workspace_rules, s),
            final(self)@ == (WmView {
                workspace_rules: final(self)@.workspace_rules,
                ..old(self)@
            }),
            old(self).wf() ==> final(self).wf(),
    {
        let mut x: usize = 0;
        let n = self.workspace_rules.len();
        while x < n
            invariant
                *self == *old(self),
                n == self@.workspace_rules.len(),
                x <= n,
                forall|j: int|
                    0 <= j < x ==> (#[trigger] self@.workspace_rules[j]).identifier@
                        != rule.identifier@,
            decreases n - x,
        {
            if self.workspace_rules[x].identifier.eq(&rule.identifier) {
                proof {
                    lemma_rule_match_update(
                        self@.workspace_rules,
                        x as int,
                        rule,
                    );
                }
                self.workspace_rules[x] = rule;
                return ;
            }
            x = x + 1;
        }
        proof {
            lemma_rule_match_push(self@.workspace_rules, rule);
        }
        self.workspace_rules.push(rule);
    }

    pub fn focused_monitor(&self) -> (r: Option<&Monitor>)
        requires
            self.wf(),
        ensures
            match r {
                Some(m) => self@.monitors.len() > 0 && *m == self@.monitors[self@.focused],
                None => self@.monitors.len() == 0,
            },
    {
        self.monitors.focused()
    }

    /// A mutable borrow of the focused monitor.
    pub fn focused_monitor_mut(&mut self) -> (r: &mut Monitor)
        requires
            old(self).wf(),
            old(self)@.monitors.len() > 0,
        ensures
            *r == old(self)@.monitors[old(self)@.focused],
            final(self)@ == (WmView {
                monitors: old(self)@.monitors.update(old(self)@.focused, *final(r)),
                ..old(self)@
            }),
    {
        self.monitors.focused_mut()
    }

    /// The work area of the focused monitor.
    pub fn focused_monitor_work_area(&self) -> (r: Result<Rect, WmError>)
        requires
            self.wf(),
        ensures
            match r {
                Ok(rect) => self@.monitors.len() > 0 && rect == wm_focused_monitor(
                    self@,
                ).work_area,
                Err(e) => e == WmError::NoSuchMonitor && self@.monitors.len() == 0,
            },
    {
        match self.monitors.focused() {
            Some(m) => Ok(*m.work_area_size()),
            None => Err(WmError::NoSuchMonitor),
        }
    }

    /// The focused workspace of the focused monitor.
    pub fn focused_workspace(&self) -> (r: Result<&Workspace, WmError>)
        requires
            self.wf(),
        ensures
            match r {
                Ok(w) => self@.monitors.len() > 0 && *w == wm_focused_monitor(
                    self@,
                ).workspaces[wm_focused_monitor(self@).focused],
                Err(e) => e == WmError::NoSuchMonitor && self@.monitors.len() == 0,
            },
    {
        match self.monitors.focused() {
            Some(m) => Ok(m.focused_workspace().unwrap()),
            None => Err(WmError::NoSuchMonitor),
        }
    }

    /// A mutable borrow of the focused workspace of the focused monitor.
    pub fn focused_workspace_mut(&mut self) -> (r: &mut Workspace)
        requires
            old(self).wf(),
            old(self)@.monitors.len() > 0,
        ensures
            *r == wm_focused_monitor(old(self)@).workspaces[wm_focused_monitor(old(self)@).focused],
            focused_ws_replaced(old(self)@, final(self)@, final(r)@),
            final(self)@.monitors[old(self)@.focused]@.workspaces[wm_focused_monitor(
                old(self)@,
            ).focused] == *final(r),
    {
        let m = self.monitors.focused_mut();
        m.focused_workspace_mut()
    }

    /// The focused container of the focused workspace.
    pub fn focused_container(&self) -> (r: Result<&Container, WmError>)
        requires
            self.wf(),
        ensures
            match r {
                Ok(c) => self@.monitors.len() > 0 && wm_focused_ws(self@).containers.len() > 0
                    && *c == wm_focused_ws(self@).containers[wm_focused_ws(self@).focused],
                Err(WmError::NoSuchMonitor) => self@.monitors.len() == 0,
                Err(WmError::NoSuchContainer) => self@.monitors.len() > 0 && wm_focused_ws(
                    self@,
                ).containers.len() == 0,
                Err(_) => false,
            },
    {
        let ws = match self.focused_workspace() {
            Ok(w) => w,
            Err(e) => {
                return Err(e);
            },
        };
        match ws.focused_container() {
            Some(c) => Ok(c),
            None => Err(WmError::NoSuchContainer),
        }
    }

    /// Project the focused monitor onto the OS; when `mouse_follows_focus`
    /// is set, also move the input focus to the logically focused window.
    pub fn update_focused_workspace(&mut self, mouse_follows_focus: bool, sink: &mut OsSink)
        -> (r: Result<(), WmError>)
        requires
            old(self).wf(),
        ensures
            final(self)@ == old(self)@,
            final(self).wf(),
            match r {
                Ok(()) => {
                    &&& old(self)@.monitors.len() > 0
                    &&& final(sink).cmds() == old(sink).cmds() + spec_project_cmds(
                        old(self)@.monitors[old(self)@.focused],
                        mouse_follows_focus,
                    )
                },
                Err(e) => {
                    &&& e == WmError::NoSuchMonitor
                    &&& old(self)@.monitors.len() == 0
                    &&& final(sink).cmds() == old(sink).cmds()
                },
            },
            old(sink).wf() ==> final(sink).wf(),
    {
        let m = match self.monitors.focused() {
            Some(m) => m,
            None => {
                return Err(WmError::NoSuchMonitor);
            },
        };
        m.update_focused_workspace(sink);
        if mouse_follows_focus {
            let ws = m.focused_workspace().unwrap();
            if let Some(w) = ws.maximized_window() {
                w.focus(sink);
            } else {
                let mut done = false;
                match ws.monocle_container() {
                    Some(c) => {
                        let w = *c.windows().focused().unwrap();
                        w.focus(sink);
                        done = true;
                    },
                    None => {},
                }
                if !done {
                    match ws.focused_container() {
                        Some(c) => {
                            let w = *c.windows().focused().unwrap();
                            w.focus(sink);
                        },
                        None => {
                            sink.commands.push(OsCommand::FocusDesktop);
                        },
                    }
                }
            }
        }
        proof {
            assert(sink.cmds() =~= old(sink).cmds() + spec_project_cmds(
                old(self)@.monitors[old(self)@.focused],
                mouse_follows_focus,
            ));
        }
        Ok(())
    }
}

/// Replacing the focused workspace by a well-formed one keeps the manager
/// well-formed.
proof fn lemma_replace_preserves_wf(pre: WmView, post: WmView, wsv: WorkspaceView)
    requires
        wm_wf(pre),
        focused_ws_replaced(pre, post, wsv),
        crate::workspace::view_wf(wsv),
    ensures
        wm_wf(post),
{
    assert forall|i: int| 0 <= i < post.monitors.len() implies (#[trigger] post.monitors[i]).wf() by {
        if i == pre.focused {
            let m0 = pre.monitors[pre.focused]@;
            let m1 = post.monitors[pre.focused]@;
            assert forall|k: int|
                0 <= k < m1.workspaces.len() implies (#[trigger] m1.workspaces[k]).wf() by {
                if k != m0.focused {
                    assert(m1.workspaces[k] == m0.workspaces[k]);
                }
            }
        } else {
            assert(post.monitors[i] == pre.monitors[i]);
        }
    }
}

impl WindowManager {
    /// Move the monitor focus to `idx`.
    pub fn focus_monitor(&mut self, idx: usize) -> (r: Result<(), WmError>)
        requires
            old(self).wf(),
        ensures
            match r {
                Ok(()) => {
                    &&& idx < old(self)@.monitors.len()
                    &&& final(self)@ == (WmView { focused: idx as int, ..old(self)@ })
                },
                Err(e) => {
                    &&& e == WmError::NoSuchMonitor
                    &&& idx >= old(self)@.monitors.len()
                    &&& final(self)@ == old(self)@
                },
            },
            final(self).wf(),
    {
        if idx < self.monitors.len() {
            self.monitors.focus(idx);
            Ok(())
        } else {
            Err(WmError::NoSuchMonitor)
        }
    }

    /// Switch tiling on or off for the focused workspace and reproject.
    pub fn toggle_tiling(&mut self, sink: &mut OsSink) -> (r: Result<(), WmError>)
        requires
            old(self).wf(),
        ensures
            match r {
                Ok(()) => {
                    &&& old(self)@.monitors.len() > 0
                    &&& focused_ws_replaced(
                        old(self)@,
                        final(self)@,
                        WorkspaceView { tile: !wm_focused_ws(old(self)@).tile, ..wm_focused_ws(old(self)@) },
                    )
                    &&& final(sink).cmds() == old(sink).cmds() + spec_project_cmds(
                        final(self)@.monitors[final(self)@.focused],
                        false,
                    )
                },
                Err(e) => {
                    &&& e == WmError::NoSuchMonitor
                    &&& old(self)@.monitors.len() == 0
                    &&& final(self)@ == old(self)@
                    &&& final(sink).cmds() == old(sink).cmds()
                },
            },
            final(self).wf(),
            old(sink).wf() ==> final(sink).wf(),
    {
        if self.monitors.len() == 0 {
            return Err(WmError::NoSuchMonitor);
        }
        let ws = self.focused_workspace_mut();
        let tile = ws.tile();
        ws.set_tile(!tile);
        proof {
            lemma_replace_preserves_wf(
                old(self)@,
                self@,
                WorkspaceView { tile: !wm_focused_ws(old(self)@).tile, ..wm_focused_ws(old(self)@) },
            );
        }
        self.update_focused_workspace(false, sink)
    }

    /// Replace the layout algorithm of the focused workspace and
    /// reproject.
    pub fn change_workspace_layout(&mut self, layout: Layout, sink: &mut OsSink) -> (r: Result<
        (),
        WmError,
    >)
        requires
            old(self).wf(),
        ensures
            match r {
                Ok(()) => {
                    &&& old(self)@.monitors.len() > 0
                    &&& focused_ws_replaced(
                        old(self)@,
                        final(self)@,
                        WorkspaceView { layout, ..wm_focused_ws(old(self)@) },
                    )
                    &&& final(sink).cmds() == old(sink).cmds() + spec_project_cmds(
                        final(self)@.monitors[final(self)@.focused],
                        false,
                    )
                },
                Err(e) => {
                    &&& e == WmError::NoSuchMonitor
                    &&& old(self)@.monitors.len() == 0
                    &&& final(self)@ == old(self)@
                    &&& final(sink).cmds() == old(sink).cmds()
                },
            },
            final(self).wf(),
            old(sink).wf() ==> final(sink).wf(),
    {
        if self.monitors.len() == 0 {
            return Err(WmError::NoSuchMonitor);
        }
        let ws = self.focused_workspace_mut();
        ws.set_layout(layout);
        proof {
            lemma_replace_preserves_wf(
                old(self)@,
                self@,
                WorkspaceView { layout, ..wm_focused_ws(old(self)@) },
            );
        }
        self.update_focused_workspace(false, sink)
    }

    /// Merge a flip request into the focused workspace's flip state and
    /// reproject.
    pub fn flip_layout(&mut self, layout_flip: Flip, sink: &mut OsSink) -> (r: Result<(), WmError>)
        requires
            old(self).wf(),
        ensures
            match r {
                Ok(()) => {
                    &&& old(self)@.monitors.len() > 0
                    &&& focused_ws_replaced(
                        old(self)@,
                        final(self)@,
                        WorkspaceView {
                            layout_flip: Flip::spec_merge(
                                wm_focused_ws(old(self)@).layout_flip,
                                layout_flip,
                            ),
                            ..wm_focused_ws(old(self)@)
                        },
                    )
                    &&& final(sink).cmds() == old(sink).cmds() + spec_project_cmds(
                        final(self)@.monitors[final(self)@.focused],
                        false,
                    )
                },
                Err(e) => {
                    &&& e == WmError::NoSuchMonitor
                    &&& old(self)@.monitors.len() == 0
                    &&& final(self)@ == old(self)@
                    &&& final(sink).cmds() == old(sink).cmds()
                },
            },
            final(self).wf(),
            old(sink).wf() ==> final(sink).wf(),
    {
        if self.monitors.len() == 0 {
            return Err(WmError::NoSuchMonitor);
        }
        let ws = self.focused_workspace_mut();
        let merged = Flip::merge(ws.layout_flip(), layout_flip);
        ws.set_layout_flip(merged);
        proof {
            lemma_replace_preserves_wf(
                old(self)@,
                self@,
                WorkspaceView {
                    layout_flip: Flip::spec_merge(
                        wm_focused_ws(old(self)@).layout_flip,
                        layout_flip,
                    ),
                    ..wm_focused_ws(old(self)@)
                },
            );
        }
        self.update_focused_workspace(false, sink)
    }

    /// Enter monocle on the focused workspace.
    pub fn monocle_on(&mut self) -> (r: Result<(), WmError>)
        requires
            old(self).wf(),
        ensures
            match r {
                Ok(()) => {
                    &&& old(self)@.monitors.len() > 0
                    &&& wm_focused_ws(old(self)@).containers.len() > 0
                    &&& wm_focused_ws(old(self)@).monocle is None
                    &&& wm_focused_ws(old(self)@).maximized is None
                    &&& focused_ws_replaced(
                        old(self)@,
                        final(self)@,
                        monocle_on_view(wm_focused_ws(old(self)@)),
                    )
                },
                Err(e) => {
                    &&& *final(self) == *old(self)
                    &&& match e {
                        WmError::NoSuchMonitor => old(self)@.monitors.len() == 0,
                        WmError::NoSuchContainer => wm_focused_ws(old(self)@).containers.len()
                            == 0,
                        WmError::InvalidOverlayTransition => wm_focused_ws(old(self)@).monocle
                            is Some || wm_focused_ws(old(self)@).maximized is Some,
                        _ => false,
                    }
                },
            },
            final(self).wf(),
    {
        if self.monitors.len() == 0 {
            return Err(WmError::NoSuchMonitor);
        }
        {
            let ws = self.focused_workspace().unwrap();
            if ws.containers().len() == 0 {
                return Err(WmError::NoSuchContainer);
            }
            if ws.monocle_container().is_some() || ws.maximized_window().is_some() {
                return Err(WmError::InvalidOverlayTransition);
            }
        }
        let ws = self.focused_workspace_mut();
        let r = ws.new_monocle_container();
        proof {
            if r is Err {
                assert(false);
            }
            lemma_replace_preserves_wf(
                old(self)@,
                self@,
                monocle_on_view(wm_focused_ws(old(self)@)),
            );
        }
        Ok(())
    }

    /// Leave monocle on the focused workspace.
    pub fn monocle_off(&mut self) -> (r: Result<(), WmError>)
        requires
            old(self).wf(),
        ensures
            match r {
                Ok(()) => {
                    &&& old(self)@.monitors.len() > 0
                    &&& wm_focused_ws(old(self)@).monocle is Some
                    &&& focused_ws_replaced(
                        old(self)@,
                        final(self)@,
                        monocle_off_view(wm_focused_ws(old(self)@)),
                    )
                },
                Err(e) => {
                    &&& *final(self) == *old(self)
                    &&& match e {
                        WmError::NoSuchMonitor => old(self)@.monitors.len() == 0,
                        WmError::NoSuchContainer => wm_focused_ws(old(self)@).monocle is None,
                        _ => false,
                    }
                },
            },
            final(self).wf(),
    {
        if self.monitors.len() == 0 {
            return Err(WmError::NoSuchMonitor);
        }
        {
            let ws = self.focused_workspace().unwrap();
            if ws.monocle_container().is_none() {
                return Err(WmError::NoSuchContainer);
            }
        }
        let ws = self.focused_workspace_mut();
        let r = ws.reintegrate_monocle_container();
        proof {
            if r is Err {
                assert(false);
            }
            lemma_replace_preserves_wf(
                old(self)@,
                self@,
                monocle_off_view(wm_focused_ws(old(self)@)),
            );
        }
        Ok(())
    }

    /// Toggle monocle on the focused workspace and reproject.
    pub fn toggle_monocle(&mut self, sink: &mut OsSink) -> (r: Result<(), WmError>)
        requires
            old(self).wf(),
        ensures
            match r {
                Ok(()) => {
                    &&& old(self)@.monitors.len() > 0
                    &&& if wm_focused_ws(old(self)@).monocle is None {
                        focused_ws_replaced(
                            old(self)@,
                            final(self)@,
                            monocle_on_view(wm_focused_ws(old(self)@)),
                        )
                    } else {
                        focused_ws_replaced(
                            old(self)@,
                            final(self)@,
                            monocle_off_view(wm_focused_ws(old(self)@)),
                        )
                    }
                    &&& final(sink).cmds() == old(sink).cmds() + spec_project_cmds(
                        final(self)@.monitors[final(self)@.focused],
                        false,
                    )
                },
                Err(e) => {
                    &&& *final(self) == *old(self)
                    &&& final(sink).cmds() == old(sink).cmds()
                    &&& match e {
                        WmError::NoSuchMonitor => old(self)@.monitors.len() == 0,
                        WmError::NoSuchContainer => wm_focused_ws(old(self)@).monocle is None
                            && wm_focused_ws(old(self)@).containers.len() == 0,
                        WmError::InvalidOverlayTransition => wm_focused_ws(old(self)@).monocle
                            is None && wm_focused_ws(old(self)@).maximized is Some,
                        _ => false,
                    }
                },
            },
            final(self).wf(),
            old(sink).wf() ==> final(sink).wf(),
    {
        if self.monitors.len() == 0 {
            return Err(WmError::NoSuchMonitor);
        }
        let has_monocle = self.focused_workspace().unwrap().monocle_container().is_some();
        let r = if has_monocle {
            self.monocle_off()
        } else {
            self.monocle_on()
        };
        if let Err(e) = r {
            return Err(e);
        }
        self.update_focused_workspace(false, sink)
    }

    /// Natively maximize the focused window.
    pub fn maximize_window(&mut self) -> (r: Result<(), WmError>)
        requires
            old(self).wf(),
        ensures
            match r {
                Ok(()) => {
                    &&& old(self)@.monitors.len() > 0
                    &&& wm_focused_ws(old(self)@).containers.len() > 0
                    &&& wm_focused_ws(old(self)@).monocle is None
                    &&& wm_focused_ws(old(self)@).maximized is None
                    &&& wm_focused_ws(final(self)@).maximized == Some(
                        focused_window_of(wm_focused_ws(old(self)@)),
                    )
                    &&& focused_ws_replaced(
                        old(self)@,
                        final(self)@,
                        wm_focused_ws(final(self)@),
                    )
                    &&& {
                        let w0 = wm_focused_ws(old(self)@);
                        let w1 = wm_focused_ws(final(self)@);
                        let c = w0.containers[w0.focused];
                        let wi = c.focused_window_spec();
                        &&& w1.maximized_restore matches Some(mr) && mr.container_idx
                            == w0.focused && mr.window_idx == wi && mr.container_id@
                            == c.id_chars()
                        &&& if c.windows_seq().len() == 1 {
                            w1 == (WorkspaceView {
                                containers: w0.containers.remove(w0.focused),
                                focused: crate::ring::Ring::<Container>::focus_after_remove(
                                    w0.focused,
                                    w0.focused,
                                    w0.containers.len() as int,
                                ),
                                resize: w0.resize.remove(w0.focused),
                                maximized: w1.maximized,
                                maximized_restore: w1.maximized_restore,
                                ..w0
                            })
                        } else {
                            &&& w1.containers.len() == w0.containers.len()
                            &&& forall|j: int|
                                0 <= j < w1.containers.len() && j != w0.focused
                                    ==> w1.containers[j] == w0.containers[j]
                            &&& w1.containers[w0.focused].windows_seq() == c.windows_seq().remove(
                                wi,
                            )
                            &&& w1.containers[w0.focused].focused_window_spec() == (if wi >= 1 {
                                wi - 1
                            } else {
                                0
                            })
                            &&& w1.containers[w0.focused].id_chars() == c.id_chars()
                            &&& w1 == (WorkspaceView {
                                containers: w1.containers,
                                maximized: w1.maximized,
                                maximized_restore: w1.maximized_restore,
                                ..w0
                            })
                        }
                    }
                },
                Err(e) => {
                    &&& *final(self) == *old(self)
                    &&& match e {
                        WmError::NoSuchMonitor => old(self)@.monitors.len() == 0,
                        WmError::NoSuchContainer => wm_focused_ws(old(self)@).containers.len()
                            == 0,
                        WmError::InvalidOverlayTransition => wm_focused_ws(old(self)@).monocle
                            is Some || wm_focused_ws(old(self)@).maximized is Some,
                        _ => false,
                    }
                },
            },
            final(self).wf(),
    {
        if self.monitors.len() == 0 {
            return Err(WmError::NoSuchMonitor);
        }
        {
            let ws = self.focused_workspace().unwrap();
            if ws.containers().len() == 0 {
                return Err(WmError::NoSuchContainer);
            }
            if ws.monocle_container().is_some() || ws.maximized_window().is_some() {
                return Err(WmError::InvalidOverlayTransition);
            }
        }
        let ws = self.focused_workspace_mut();
        let r = ws.new_maximized_window();
        proof {
            if r is Err {
                assert(false);
            }
            let m0 = wm_focused_monitor(old(self)@);
            lemma_replace_preserves_wf(
                old(self)@,
                self@,
                self@.monitors[old(self)@.focused]@.workspaces[m0.focused]@,
            );
        }
        Ok(())
    }

    /// Undo a native maximize.
    pub fn unmaximize_window(&mut self) -> (r: Result<(), WmError>)
        requires
            old(self).wf(),
        ensures
            match r {
                Ok(()) => {
                    &&& old(self)@.monitors.len() > 0
                    &&& wm_focused_ws(old(self)@).maximized is Some
                    &&& wm_focused_ws(final(self)@).maximized is None
                    &&& wm_focused_ws(final(self)@).maximized_restore is None
                    &&& focused_ws_replaced(
                        old(self)@,
                        final(self)@,
                        wm_focused_ws(final(self)@),
                    )
                    &&& !crate::workspace::reinsertion_blocked(wm_focused_ws(old(self)@))
                    &&& wm_focused_ws(old(self)@).maximized matches Some(w) && wm_focused_ws(
                        old(self)@,
                    ).maximized_restore matches Some(mr) && {
                        ||| exists|k: int|
                            crate::workspace::reintegrated_at(
                                wm_focused_ws(old(self)@),
                                wm_focused_ws(final(self)@),
                                w,
                                mr,
                                k,
                            )
                        ||| (crate::workspace::no_container_with_id(
                            wm_focused_ws(old(self)@).containers,
                            mr.container_id@,
                        ) && crate::workspace::reintegrated_appended(
                            wm_focused_ws(old(self)@),
                            wm_focused_ws(final(self)@),
                            w,
                        ))
                    }
                },
                Err(e) => {
                    &&& match e {
                        WmError::NoSuchMonitor => old(self)@.monitors.len() == 0 && *final(self)
                            == *old(self),
                        WmError::NoSuchWindow => wm_focused_ws(old(self)@).maximized is None
                            && *final(self) == *old(self),
                        WmError::InvalidOverlayTransition => crate::workspace::reinsertion_blocked(
                            wm_focused_ws(old(self)@),
                        ) && focused_ws_replaced(
                            old(self)@,
                            final(self)@,
                            wm_focused_ws(old(self)@),
                        ),
                        _ => false,
                    }
                },
            },
            final(self).wf(),
    {
        if self.monitors.len() == 0 {
            return Err(WmError::NoSuchMonitor);
        }
        {
            let ws = self.focused_workspace().unwrap();
            if ws.maximized_window().is_none() {
                return Err(WmError::NoSuchWindow);
            }
        }
        let ws = self.focused_workspace_mut();
        let r = ws.reintegrate_maximized_window();
        proof {
            if r is Err {
                assert(wm_focused_ws(self@) == wm_focused_ws(old(self)@));
            }
            let m0 = wm_focused_monitor(old(self)@);
            lemma_replace_preserves_wf(
                old(self)@,
                self@,
                self@.monitors[old(self)@.focused]@.workspaces[m0.focused]@,
            );
        }
        match r {
            Ok(()) => Ok(()),
            Err(_) => Err(WmError::InvalidOverlayTransition),
        }
    }

    /// Toggle native maximization for the focused window and reproject.
    pub fn toggle_maximize(&mut self, sink: &mut OsSink) -> (r: Result<(), WmError>)
        requires
            old(self).wf(),
        ensures
            match r {
                Ok(()) => {
                    &&& old(self)@.monitors.len() > 0
                    &&& (wm_focused_ws(old(self)@).maximized is Some <==> wm_focused_ws(
                        final(self)@,
                    ).maximized is None)
                    &&& final(sink).cmds() == old(sink).cmds() + spec_project_cmds(
                        final(self)@.monitors[final(self)@.focused],
                        false,
                    )
                },
                Err(e) => {
                    &&& final(sink).cmds() == old(sink).cmds()
                    &&& match e {
                        WmError::NoSuchMonitor => old(self)@.monitors.len() == 0 && *final(self)
                            == *old(self),
                        WmError::NoSuchContainer => wm_focused_ws(old(self)@).maximized is None
                            && wm_focused_ws(old(self)@).containers.len() == 0 && *final(self)
                            == *old(self),
                        WmError::InvalidOverlayTransition => (wm_focused_ws(old(self)@).maximized
                            is None && wm_focused_ws(old(self)@).monocle is Some && *final(self)
                            == *old(self)) || (wm_focused_ws(old(self)@).maximized is Some
                            && crate::workspace::reinsertion_blocked(wm_focused_ws(old(self)@))
                            && focused_ws_replaced(
                            old(self)@,
                            final(self)@,
                            wm_focused_ws(old(self)@),
                        )),
                        _ => false,
                    }
                },
            },
            final(self).wf(),
            old(sink).wf() ==> final(sink).wf(),
    {
        if self.monitors.len() == 0 {
            return Err(WmError::NoSuchMonitor);
        }
        let has_max = self.focused_workspace().unwrap().maximized_window().is_some();
        let r = if has_max {
            self.unmaximize_window()
        } else {
            self.maximize_window()
        };
        if let Err(e) = r {
            return Err(e);
        }
        self.update_focused_workspace(false, sink)
    }
}

impl WindowManager {
    /// Focus the workspace at `idx` on the focused monitor, creating
    /// workspaces up to `idx` if needed, and reproject.
    pub fn focus_workspace(&mut self, idx: usize, sink: &mut OsSink) -> (r: Result<(), WmError>)
        requires
            old(self).wf(),
        ensures
            match r {
                Ok(()) => {
                    &&& old(self)@.monitors.len() > 0
                    &&& idx < usize::MAX
                    &&& final(self)@.monitors.len() == old(self)@.monitors.len()
                    &&& forall|m2: int|
                        0 <= m2 < final(self)@.monitors.len() && m2 != old(self)@.focused
                            ==> final(self)@.monitors[m2] == old(self)@.monitors[m2]
                    &&& {
                        let m0 = wm_focused_monitor(old(self)@);
                        let m1 = final(self)@.monitors[old(self)@.focused]@;
                        &&& m1.focused == idx
                        &&& m1.workspaces.len() >= m0.workspaces.len()
                        &&& forall|w2: int|
                            0 <= w2 < m0.workspaces.len() ==> m1.workspaces[w2]
                                == m0.workspaces[w2]
                        &&& forall|w2: int|
                            m0.workspaces.len() <= w2 < m1.workspaces.len() ==> (
                            #[trigger] m1.workspaces[w2])@
                                == crate::workspace::default_workspace_view()
                        &&& m1 == (MonitorView {
                            workspaces: m1.workspaces,
                            focused: idx as int,
                            ..m0
                        })
                    }
                    &&& final(self)@ == (WmView { monitors: final(self)@.monitors, ..old(self)@ })
                },
                Err(e) => {
                    &&& *final(self) == *old(self)
                    &&& final(sink).cmds() == old(sink).cmds()
                    &&& match e {
                        WmError::NoSuchMonitor => old(self)@.monitors.len() == 0,
                        WmError::NoSuchWorkspace => idx == usize::MAX,
                        _ => false,
                    }
                },
            },
            final(self).wf(),
            old(sink).wf() ==> final(sink).wf(),
    {
        if self.monitors.len() == 0 {
            return Err(WmError::NoSuchMonitor);
        }
        if idx == usize::MAX {
            return Err(WmError::NoSuchWorkspace);
        }
        let m = self.monitors.focused_mut();
        m.focus_workspace(idx, sink);
        proof {
            assert forall|i: int| 0 <= i < self@.monitors.len() implies (
            #[trigger] self@.monitors[i]).wf() by {
                if i != old(self)@.focused {
                    assert(self@.monitors[i] == old(self)@.monitors[i]);
                }
            }
            let m0 = wm_focused_monitor(old(self)@);
            let m1 = self@.monitors[old(self)@.focused]@;
            assert forall|w2: int|
                m0.workspaces.len() <= w2 < m1.workspaces.len() implies (
            #[trigger] m1.workspaces[w2])@ == crate::workspace::default_workspace_view() by {
                assert(m1.workspaces[w2]@ == crate::workspace::default_workspace_view());
            }
            assert forall|w2: int|
                0 <= w2 < m0.workspaces.len() implies m1.workspaces[w2] == m0.workspaces[w2] by {
            }
        }
        self.update_focused_workspace(true, sink)
    }

    /// Create and focus a fresh workspace after the last one on the
    /// focused monitor, and reproject.
    pub fn new_workspace(&mut self, sink: &mut OsSink) -> (r: Result<(), WmError>)
        requires
            old(self).wf(),
        ensures
            match r {
                Ok(()) => {
                    &&& old(self)@.monitors.len() > 0
                    &&& final(self)@.monitors.len() == old(self)@.monitors.len()
                    &&& final(self)@.monitors[final(self)@.focused]@.focused == wm_focused_monitor(
                        old(self)@,
                    ).workspaces.len()
                    &&& final(self)@.monitors[final(self)@.focused]@.workspaces.len()
                        == wm_focused_monitor(old(self)@).workspaces.len() + 1
                    &&& forall|m2: int|
                        0 <= m2 < final(self)@.monitors.len() && m2 != old(self)@.focused
                            ==> final(self)@.monitors[m2] == old(self)@.monitors[m2]
                    &&& forall|w2: int|
                        0 <= w2 < wm_focused_monitor(old(self)@).workspaces.len()
                            ==> final(self)@.monitors[old(self)@.focused]@.workspaces[w2]
                            == wm_focused_monitor(old(self)@).workspaces[w2]
                    &&& final(self)@.monitors[old(self)@.focused]@.workspaces.last()@
                        == crate::workspace::default_workspace_view()
                    &&& final(self)@ == (WmView { monitors: final(self)@.monitors, ..old(self)@ })
                },
                Err(e) => {
                    &&& *final(self) == *old(self)
                    &&& final(sink).cmds() == old(sink).cmds()
                    &&& match e {
                        WmError::NoSuchMonitor => old(self)@.monitors.len() == 0,
                        WmError::NoSuchWorkspace => wm_focused_monitor(old(self)@).workspaces.len()
                            >= usize::MAX,
                        _ => false,
                    }
                },
            },
            final(self).wf(),
            old(sink).wf() ==> final(sink).wf(),
    {
        if self.monitors.len() == 0 {
            return Err(WmError::NoSuchMonitor);
        }
        let idx = self.monitors.focused().unwrap().new_workspace_idx();
        if idx == usize::MAX {
            return Err(WmError::NoSuchWorkspace);
        }
        let m = self.monitors.focused_mut();
        m.focus_workspace(idx, sink);
        proof {
            assert forall|i: int| 0 <= i < self@.monitors.len() implies (
            #[trigger] self@.monitors[i]).wf() by {
                if i != old(self)@.focused {
                    assert(self@.monitors[i] == old(self)@.monitors[i]);
                }
            }
            let m0 = wm_focused_monitor(old(self)@);
            let m1 = self@.monitors[old(self)@.focused]@;
            assert forall|w2: int|
                m0.workspaces.len() <= w2 < m1.workspaces.len() implies (
            #[trigger] m1.workspaces[w2])@ == crate::workspace::default_workspace_view() by {
                assert(m1.workspaces[w2]@ == crate::workspace::default_workspace_view());
            }
            assert forall|w2: int|
                0 <= w2 < m0.workspaces.len() implies m1.workspaces[w2] == m0.workspaces[w2] by {
            }
        }
        self.update_focused_workspace(true, sink)
    }

    /// Grow the workspace ring of the monitor at `monitor_idx` to at least
    /// `workspace_count` workspaces.
    pub fn ensure_workspaces_for_monitor(&mut self, monitor_idx: usize, workspace_count: usize)
        -> (r: Result<(), WmError>)
        requires
            old(self).wf(),
        ensures
            match r {
                Ok(()) => {
                    &&& monitor_idx < old(self)@.monitors.len()
                    &&& final(self)@.monitors[monitor_idx as int]@.workspaces.len() == (if old(self)@.monitors[monitor_idx as int]@.workspaces.len() >= workspace_count {
                        old(self)@.monitors[monitor_idx as int]@.workspaces.len() as int
                    } else {
                        workspace_count as int
                    })
                    &&& final(self)@.monitors.len() == old(self)@.monitors.len()
                    &&& forall|j: int|
                        0 <= j < final(self)@.monitors.len() && j != monitor_idx ==> final(self)@.monitors[j] == old(self)@.monitors[j]
                    &&& forall|w2: int|
                        0 <= w2 < old(self)@.monitors[monitor_idx as int]@.workspaces.len()
                            ==> final(self)@.monitors[monitor_idx as int]@.workspaces[w2]
                            == old(self)@.monitors[monitor_idx as int]@.workspaces[w2]
                    &&& forall|w2: int|
                        old(self)@.monitors[monitor_idx as int]@.workspaces.len() <= w2
                            < final(self)@.monitors[monitor_idx as int]@.workspaces.len() ==> (
                        #[trigger] final(self)@.monitors[monitor_idx as int]@.workspaces[w2])@
                            == crate::workspace::default_workspace_view()
                    &&& final(self)@.monitors[monitor_idx as int]@ == (MonitorView {
                        workspaces: final(self)@.monitors[monitor_idx as int]@.workspaces,
                        ..old(self)@.monitors[monitor_idx as int]@
                    })
                    &&& final(self)@ == (WmView { monitors: final(self)@.monitors, ..old(self)@ })
                },
                Err(e) => {
                    &&& e == WmError::NoSuchMonitor
                    &&& monitor_idx >= old(self)@.monitors.len()
                    &&& *final(self) == *old(self)
                },
            },
            final(self).wf(),
    {
        if monitor_idx >= self.monitors.len() {
            return Err(WmError::NoSuchMonitor);
        }
        let m = self.monitors.get_mut(monitor_idx);
        m.ensure_workspace_count(workspace_count);
        proof {
            assert forall|i: int| 0 <= i < self@.monitors.len() implies (
            #[trigger] self@.monitors[i]).wf() by {
                if i != monitor_idx as int {
                    assert(self@.monitors[i] == old(self)@.monitors[i]);
                }
            }
        }
        Ok(())
    }

    /// The index of the monitor whose display identifier is `hmonitor`
    /// (the identifier the OS reports for a window's monitor).
    pub fn monitor_idx_from_window(&self, hmonitor: isize) -> (r: Option<usize>)
        ensures
            match r {
                Some(i) => i < self@.monitors.len() && self@.monitors[i as int]@.id == hmonitor
                    && forall|j: int| 0 <= j < i ==> (#[trigger] self@.monitors[j])@.id != hmonitor,
                None => forall|j: int|
                    0 <= j < self@.monitors.len() ==> (#[trigger] self@.monitors[j])@.id
                        != hmonitor,
            },
    {
        let mut i: usize = 0;
        let n = self.monitors.len();
        while i < n
            invariant
                n == self@.monitors.len(),
                i <= n,
                forall|j: int| 0 <= j < i ==> (#[trigger] self@.monitors[j])@.id != hmonitor,
            decreases n - i,
        {
            if self.monitors.get(i).unwrap().id() == hmonitor {
                return Some(i);
            }
            i = i + 1;
        }
        None
    }

    /// Adjust the outer padding of the focused workspace by `adjustment`
    /// pixels and reproject. The padding is clamped to the coordinate
    /// limit.
    pub fn adjust_workspace_padding(
        &mut self,
        sizing: Sizing,
        adjustment: i32,
        sink: &mut OsSink,
    ) -> (r: Result<(), WmError>)
        requires
            old(self).wf(),
            -COORD_LIMIT <= adjustment <= COORD_LIMIT,
        ensures
            match r {
                Ok(()) => {
                    &&& old(self)@.monitors.len() > 0
                    &&& wm_focused_ws(old(self)@).workspace_padding is Some
                    &&& focused_ws_replaced(
                        old(self)@,
                        final(self)@,
                        WorkspaceView {
                            workspace_padding: Some(
                                crate::layout::spec_clamp(
                                    sizing.spec_adjust_by(
                                        wm_focused_ws(old(self)@).workspace_padding.unwrap() as int,
                                        adjustment as int,
                                    ),
                                ) as i32,
                            ),
                            ..wm_focused_ws(old(self)@)
                        },
                    )
                    &&& final(sink).cmds() == old(sink).cmds() + spec_project_cmds(
                        final(self)@.monitors[final(self)@.focused],
                        false,
                    )
                },
                Err(e) => {
                    &&& *final(self) == *old(self)
                    &&& final(sink).cmds() == old(sink).cmds()
                    &&& match e {
                        WmError::NoSuchMonitor => old(self)@.monitors.len() == 0,
                        WmError::NoPadding => wm_focused_ws(old(self)@).workspace_padding
                            is None,
                        _ => false,
                    }
                },
            },
            final(self).wf(),
            old(sink).wf() ==> final(sink).wf(),
    {
        if self.monitors.len() == 0 {
            return Err(WmError::NoSuchMonitor);
        }
        let padding = match self.focused_workspace().unwrap().workspace_padding() {
            Some(p) => p,
            None => {
                return Err(WmError::NoPadding);
            },
        };
        let adjusted = crate::layout::clamp_coord(sizing.adjust_by(padding, adjustment));
        let ws = self.focused_workspace_mut();
        ws.set_workspace_padding(Some(adjusted));
        proof {
            lemma_replace_preserves_wf(
                old(self)@,
                self@,
                WorkspaceView {
                    workspace_padding: Some(adjusted),
                    ..wm_focused_ws(old(self)@)
                },
            );
        }
        self.update_focused_workspace(false, sink)
    }

    /// Adjust the inter-container padding of the focused workspace by
    /// `adjustment` pixels and reproject. The padding is clamped to the
    /// coordinate limit.
    pub fn adjust_container_padding(
        &mut self,
        sizing: Sizing,
        adjustment: i32,
        sink: &mut OsSink,
    ) -> (r: Result<(), WmError>)
        requires
            old(self).wf(),
            -COORD_LIMIT <= adjustment <= COORD_LIMIT,
        ensures
            match r {
                Ok(()) => {
                    &&& old(self)@.monitors.len() > 0
                    &&& wm_focused_ws(old(self)@).container_padding is Some
                    &&& focused_ws_replaced(
                        old(self)@,
                        final(self)@,
                        WorkspaceView {
                            container_padding: Some(
                                crate::layout::spec_clamp(
                                    sizing.spec_adjust_by(
                                        wm_focused_ws(old(self)@).container_padding.unwrap() as int,
                                        adjustment as int,
                                    ),
                                ) as i32,
                            ),
                            ..wm_focused_ws(old(self)@)
                        },
                    )
                    &&& final(sink).cmds() == old(sink).cmds() + spec_project_cmds(
                        final(self)@.monitors[final(self)@.focused],
                        false,
                    )
                },
                Err(e) => {
                    &&& *final(self) == *old(self)
                    &&& final(sink).cmds() == old(sink).cmds()
                    &&& match e {
                        WmError::NoSuchMonitor => old(self)@.monitors.len() == 0,
                        WmError::NoPadding => wm_focused_ws(old(self)@).container_padding
                            is None,
                        _ => false,
                    }
                },
            },
            final(self).wf(),
            old(sink).wf() ==> final(sink).wf(),
    {
        if self.monitors.len() == 0 {
            return Err(WmError::NoSuchMonitor);
        }
        let padding = match self.focused_workspace().unwrap().container_padding() {
            Some(p) => p,
            None => {
                return Err(WmError::NoPadding);
            },
        };
        let adjusted = crate::layout::clamp_coord(sizing.adjust_by(padding, adjustment));
        let ws = self.focused_workspace_mut();
        ws.set_container_padding(Some(adjusted));
        proof {
            lemma_replace_preserves_wf(
                old(self)@,
                self@,
                WorkspaceView {
                    container_padding: Some(adjusted),
                    ..wm_focused_ws(old(self)@)
                },
            );
        }
        self.update_focused_workspace(false, sink)
    }
}

impl WindowManager {
    /// Move the container focus to the geometric neighbour in `direction`
    /// and focus its focused window.
    pub fn focus_container_in_direction(
        &mut self,
        direction: OperationDirection,
        sink: &mut OsSink,
    ) -> (r: Result<(), WmError>)
        requires
            old(self).wf(),
        ensures
            match r {
                Ok(()) => {
                    &&& old(self)@.monitors.len() > 0
                    &&& wm_focused_ws(old(self)@).containers.len() > 0
                    &&& {
                        let w = wm_focused_ws(old(self)@);
                        let cand = direction.spec_candidate(
                            w.layout,
                            w.focused,
                            w.containers.len() as int,
                        );
                        &&& cand is Some
                        &&& focused_ws_replaced(
                            old(self)@,
                            final(self)@,
                            WorkspaceView { focused: cand.unwrap(), ..w },
                        )
                        &&& final(sink).cmds() == old(sink).cmds().push(
                            OsCommand::Focus(
                                w.containers[cand.unwrap()].windows_seq()[w.containers[cand.unwrap()].focused_window_spec()].hwnd,
                            ),
                        )
                    }
                },
                Err(e) => {
                    &&& *final(self) == *old(self)
                    &&& final(sink).cmds() == old(sink).cmds()
                    &&& match e {
                        WmError::NoSuchMonitor => old(self)@.monitors.len() == 0,
                        WmError::NoSuchContainer => wm_focused_ws(old(self)@).containers.len()
                            == 0,
                        WmError::InvalidDirection => direction.spec_candidate(
                            wm_focused_ws(old(self)@).layout,
                            wm_focused_ws(old(self)@).focused,
                            wm_focused_ws(old(self)@).containers.len() as int,
                        ) is None,
                        _ => false,
                    }
                },
            },
            final(self).wf(),
            old(sink).wf() ==> final(sink).wf(),
    {
        if self.monitors.len() == 0 {
            return Err(WmError::NoSuchMonitor);
        }
        let new_idx: usize;
        {
            let ws = self.focused_workspace().unwrap();
            if ws.containers().len() == 0 {
                return Err(WmError::NoSuchContainer);
            }
            new_idx = match ws.new_idx_for_direction(direction) {
                Some(i) => i,
                None => {
                    return Err(WmError::InvalidDirection);
                },
            };
        }
        let ws = self.focused_workspace_mut();
        ws.focus_container(new_idx);
        proof {
            lemma_replace_preserves_wf(
                old(self)@,
                self@,
                WorkspaceView { focused: new_idx as int, ..wm_focused_ws(old(self)@) },
            );
        }
        let w = *self.focused_container().unwrap().windows().focused().unwrap();
        w.focus(sink);
        Ok(())
    }

    /// Swap the focused container with its geometric neighbour in
    /// `direction`, focus the neighbour's position, and reproject.
    pub fn move_container_in_direction(
        &mut self,
        direction: OperationDirection,
        sink: &mut OsSink,
    ) -> (r: Result<(), WmError>)
        requires
            old(self).wf(),
        ensures
            match r {
                Ok(()) => {
                    &&& old(self)@.monitors.len() > 0
                    &&& wm_focused_ws(old(self)@).containers.len() > 0
                    &&& {
                        let w = wm_focused_ws(old(self)@);
                        let cand = direction.spec_candidate(
                            w.layout,
                            w.focused,
                            w.containers.len() as int,
                        );
                        &&& cand is Some
                        &&& focused_ws_replaced(
                            old(self)@,
                            final(self)@,
                            WorkspaceView {
                                containers: w.containers.update(
                                    w.focused,
                                    w.containers[cand.unwrap()],
                                ).update(cand.unwrap(), w.containers[w.focused]),
                                focused: cand.unwrap(),
                                ..w
                            },
                        )
                        &&& final(sink).cmds() == old(sink).cmds() + spec_project_cmds(
                            final(self)@.monitors[final(self)@.focused],
                            true,
                        )
                    }
                },
                Err(e) => {
                    &&& *final(self) == *old(self)
                    &&& final(sink).cmds() == old(sink).cmds()
                    &&& match e {
                        WmError::NoSuchMonitor => old(self)@.monitors.len() == 0,
                        WmError::NoSuchContainer => wm_focused_ws(old(self)@).containers.len()
                            == 0,
                        WmError::InvalidDirection => direction.spec_candidate(
                            wm_focused_ws(old(self)@).layout,
                            wm_focused_ws(old(self)@).focused,
                            wm_focused_ws(old(self)@).containers.len() as int,
                        ) is None,
                        _ => false,
                    }
                },
            },
            final(self).wf(),
            old(sink).wf() ==> final(sink).wf(),
    {
        if self.monitors.len() == 0 {
            return Err(WmError::NoSuchMonitor);
        }
        let current_idx: usize;
        let new_idx: usize;
        {
            let ws = self.focused_workspace().unwrap();
            if ws.containers().len() == 0 {
                return Err(WmError::NoSuchContainer);
            }
            current_idx = ws.focused_container_idx();
            new_idx = match ws.new_idx_for_direction(direction) {
                Some(i) => i,
                None => {
                    return Err(WmError::InvalidDirection);
                },
            };
        }
        let ws = self.focused_workspace_mut();
        ws.swap_containers(current_idx, new_idx);
        ws.focus_container(new_idx);
        proof {
            let w = wm_focused_ws(old(self)@);
            lemma_replace_preserves_wf(
                old(self)@,
                self@,
                WorkspaceView {
                    containers: w.containers.update(w.focused, w.containers[new_idx as int]).update(
                        new_idx as int,
                        w.containers[w.focused],
                    ),
                    focused: new_idx as int,
                    ..w
                },
            );
        }
        self.update_focused_workspace(true, sink)
    }

    /// Cycle the focused container's window stack one step and reproject.
    pub fn cycle_container_window_in_direction(
        &mut self,
        direction: CycleDirection,
        sink: &mut OsSink,
    ) -> (r: Result<(), WmError>)
        requires
            old(self).wf(),
        ensures
            match r {
                Ok(()) => {
                    &&& old(self)@.monitors.len() > 0
                    &&& wm_focused_ws(old(self)@).containers.len() > 0
                    &&& {
                        let w = wm_focused_ws(old(self)@);
                        let c = w.containers[w.focused];
                        let w1 = wm_focused_ws(final(self)@);
                        let c1 = w1.containers[w1.focused];
                        &&& c.windows_seq().len() > 1
                        &&& focused_ws_replaced(old(self)@, final(self)@, w1)
                        &&& w1.focused == w.focused
                        &&& c1.windows_seq() == c.windows_seq()
                        &&& c1.focused_window_spec() == direction.spec_next_idx(
                            c.focused_window_spec(),
                            c.windows_seq().len() as int,
                        )
                        &&& c1.id_chars() == c.id_chars()
                        &&& final(sink).cmds() == old(sink).cmds()
                            + crate::container::spec_load_cmds(
                            c1.windows_seq(),
                            c1.focused_window_spec(),
                        ) + spec_project_cmds(
                            final(self)@.monitors[final(self)@.focused],
                            true,
                        )
                    }
                },
                Err(e) => {
                    &&& *final(self) == *old(self)
                    &&& final(sink).cmds() == old(sink).cmds()
                    &&& match e {
                        WmError::NoSuchMonitor => old(self)@.monitors.len() == 0,
                        WmError::NoSuchContainer => wm_focused_ws(old(self)@).containers.len()
                            == 0,
                        WmError::InvalidOverlayTransition => wm_focused_ws(old(self)@).containers.len()
                            > 0 && wm_focused_ws(old(self)@).containers[wm_focused_ws(
                            old(self)@,
                        ).focused].windows_seq().len() == 1,
                        _ => false,
                    }
                },
            },
            final(self).wf(),
            old(sink).wf() ==> final(sink).wf(),
    {
        if self.monitors.len() == 0 {
            return Err(WmError::NoSuchMonitor);
        }
        let next_idx: usize;
        {
            let ws = self.focused_workspace().unwrap();
            if ws.containers().len() == 0 {
                return Err(WmError::NoSuchContainer);
            }
            let c = ws.focused_container().unwrap();
            let len = c.windows().len();
            if len == 1 {
                return Err(WmError::InvalidOverlayTransition);
            }
            next_idx = direction.next_idx(c.focused_window_idx(), len);
        }
        let ws = self.focused_workspace_mut();
        let c = ws.focused_container_mut();
        c.focus_window(next_idx);
        proof {
            let m0 = wm_focused_monitor(old(self)@);
            lemma_replace_preserves_wf(
                old(self)@,
                self@,
                self@.monitors[old(self)@.focused]@.workspaces[m0.focused]@,
            );
        }
        let cref = self.focused_container().unwrap();
        cref.load_focused_window(sink);
        self.update_focused_workspace(true, sink)
    }

    /// Move the focused container to the front of the ring and reproject.
    pub fn promote_container_to_front(&mut self, sink: &mut OsSink) -> (r: Result<(), WmError>)
        requires
            old(self).wf(),
        ensures
            match r {
                Ok(()) => {
                    &&& old(self)@.monitors.len() > 0
                    &&& wm_focused_ws(old(self)@).containers.len() > 0
                    &&& {
                        let w = wm_focused_ws(old(self)@);
                        &&& focused_ws_replaced(
                            old(self)@,
                            final(self)@,
                            WorkspaceView {
                                containers: w.containers.remove(w.focused).insert(
                                    0,
                                    w.containers[w.focused],
                                ),
                                focused: 0,
                                resize: w.resize.remove(w.focused).insert(0, w.resize[w.focused]),
                                ..w
                            },
                        )
                        &&& final(sink).cmds() == old(sink).cmds() + spec_project_cmds(
                            final(self)@.monitors[final(self)@.focused],
                            true,
                        )
                    }
                },
                Err(e) => {
                    &&& *final(self) == *old(self)
                    &&& final(sink).cmds() == old(sink).cmds()
                    &&& match e {
                        WmError::NoSuchMonitor => old(self)@.monitors.len() == 0,
                        WmError::NoSuchContainer => wm_focused_ws(old(self)@).containers.len()
                            == 0,
                        _ => false,
                    }
                },
            },
            final(self).wf(),
            old(sink).wf() ==> final(sink).wf(),
    {
        if self.monitors.len() == 0 {
            return Err(WmError::NoSuchMonitor);
        }
        {
            let ws = self.focused_workspace().unwrap();
            if ws.containers().len() == 0 {
                return Err(WmError::NoSuchContainer);
            }
        }
        let ws = self.focused_workspace_mut();
        let r = ws.promote_container();
        proof {
            if r is Err {
                assert(false);
            }
            let w = wm_focused_ws(old(self)@);
            lemma_replace_preserves_wf(
                old(self)@,
                self@,
                WorkspaceView {
                    containers: w.containers.remove(w.focused).insert(0, w.containers[w.focused]),
                    focused: 0,
                    resize: w.resize.remove(w.focused).insert(0, w.resize[w.focused]),
                    ..w
                },
            );
        }
        self.update_focused_workspace(true, sink)
    }

    /// Unstack the focused window: promote it into a fresh container right
    /// after the focused one, and reproject.
    pub fn remove_window_from_container(&mut self, sink: &mut OsSink) -> (r: Result<(), WmError>)
        requires
            old(self).wf(),
        ensures
            match r {
                Ok(()) => {
                    &&& old(self)@.monitors.len() > 0
                    &&& wm_focused_ws(old(self)@).containers.len() > 0
                    &&& wm_focused_ws(old(self)@).containers[wm_focused_ws(
                        old(self)@,
                    ).focused].windows_seq().len() > 1
                    &&& focused_ws_replaced(old(self)@, final(self)@, wm_focused_ws(final(self)@))
                    &&& crate::workspace::unstacked_focused_window(
                        wm_focused_ws(old(self)@),
                        wm_focused_ws(final(self)@),
                    )
                    &&& final(sink).cmds() == old(sink).cmds() + spec_project_cmds(
                        final(self)@.monitors[final(self)@.focused],
                        true,
                    )
                },
                Err(e) => {
                    &&& *final(self) == *old(self)
                    &&& final(sink).cmds() == old(sink).cmds()
                    &&& match e {
                        WmError::NoSuchMonitor => old(self)@.monitors.len() == 0,
                        WmError::NoSuchContainer => wm_focused_ws(old(self)@).containers.len()
                            == 0,
                        WmError::InvalidOverlayTransition => wm_focused_ws(old(self)@).containers.len()
                            > 0 && wm_focused_ws(old(self)@).containers[wm_focused_ws(
                            old(self)@,
                        ).focused].windows_seq().len() == 1,
                        _ => false,
                    }
                },
            },
            final(self).wf(),
            old(sink).wf() ==> final(sink).wf(),
    {
        if self.monitors.len() == 0 {
            return Err(WmError::NoSuchMonitor);
        }
        {
            let ws = self.focused_workspace().unwrap();
            if ws.containers().len() == 0 {
                return Err(WmError::NoSuchContainer);
            }
            if ws.focused_container().unwrap().windows().len() == 1 {
                return Err(WmError::InvalidOverlayTransition);
            }
        }
        let ws = self.focused_workspace_mut();
        let r = ws.new_container_for_focused_window();
        proof {
            if r is Err {
                assert(false);
            }
            let m0 = wm_focused_monitor(old(self)@);
            lemma_replace_preserves_wf(
                old(self)@,
                self@,
                self@.monitors[old(self)@.focused]@.workspaces[m0.focused]@,
            );
        }
        self.update_focused_workspace(true, sink)
    }

    /// Stack the focused window onto the neighbouring container in
    /// `direction` and reproject. With no neighbour in that direction the
    /// command is a no-op.
    pub fn add_window_to_container(
        &mut self,
        direction: OperationDirection,
        sink: &mut OsSink,
    ) -> (r: Result<(), WmError>)
        requires
            old(self).wf(),
        ensures
            match r {
                Ok(()) => {
                    &&& old(self)@.monitors.len() > 0
                    &&& wm_focused_ws(old(self)@).containers.len() > 0
                    &&& {
                        let w = wm_focused_ws(old(self)@);
                        let cand = direction.spec_candidate(
                            w.layout,
                            w.focused,
                            w.containers.len() as int,
                        );
                        if cand is None {
                            *final(self) == *old(self) && final(sink).cmds() == old(sink).cmds()
                        } else {
                            let adjusted = if cand.unwrap() > w.focused {
                                cand.unwrap() - 1
                            } else {
                                cand.unwrap()
                            };
                            &&& focused_ws_replaced(
                                old(self)@,
                                final(self)@,
                                wm_focused_ws(final(self)@),
                            )
                            &&& crate::workspace::moved_window_to_container(
                                w,
                                wm_focused_ws(final(self)@),
                                adjusted,
                            )
                            &&& final(sink).cmds() == old(sink).cmds() + spec_project_cmds(
                                final(self)@.monitors[final(self)@.focused],
                                true,
                            )
                        }
                    }
                },
                Err(e) => {
                    &&& *final(self) == *old(self)
                    &&& final(sink).cmds() == old(sink).cmds()
                    &&& match e {
                        WmError::NoSuchMonitor => old(self)@.monitors.len() == 0,
                        WmError::NoSuchContainer => wm_focused_ws(old(self)@).containers.len()
                            == 0,
                        WmError::InvalidOverlayTransition => {
                            let w = wm_focused_ws(old(self)@);
                            let cand = direction.spec_candidate(
                                w.layout,
                                w.focused,
                                w.containers.len() as int,
                            );
                            &&& cand is Some
                            &&& {
                                let adjusted = if cand.unwrap() > w.focused {
                                    cand.unwrap() - 1
                                } else {
                                    cand.unwrap()
                                };
                                let single = w.containers[w.focused].windows_seq().len() == 1;
                                let probe = if single && adjusted >= w.focused {
                                    adjusted + 1
                                } else {
                                    adjusted
                                };
                                w.containers[probe].contains_hwnd(focused_window_of(w).hwnd)
                            }
                        },
                        _ => false,
                    }
                },
            },
            final(self).wf(),
            old(sink).wf() ==> final(sink).wf(),
    {
        if self.monitors.len() == 0 {
            return Err(WmError::NoSuchMonitor);
        }
        let current_idx: usize;
        let adjusted_new_index: usize;
        {
            let ws = self.focused_workspace().unwrap();
            if ws.containers().len() == 0 {
                return Err(WmError::NoSuchContainer);
            }
            current_idx = ws.focused_container_idx();
            let new_idx = match ws.new_idx_for_direction(direction) {
                Some(i) => i,
                None => {
                    return Ok(());
                },
            };
            adjusted_new_index = if new_idx > current_idx {
                new_idx - 1
            } else {
                new_idx
            };
            let single = ws.focused_container().unwrap().windows().len() == 1;
            let probe = if single && adjusted_new_index >= current_idx {
                adjusted_new_index + 1
            } else {
                adjusted_new_index
            };
            let wv = *ws.focused_container().unwrap().windows().focused().unwrap();
            if ws.containers().get(probe).unwrap().contains_window(wv.hwnd) {
                return Err(WmError::InvalidOverlayTransition);
            }
        }
        let ws = self.focused_workspace_mut();
        let r = ws.move_window_to_container(adjusted_new_index);
        proof {
            if r is Err {
                assert(false);
            }
            let m0 = wm_focused_monitor(old(self)@);
            lemma_replace_preserves_wf(
                old(self)@,
                self@,
                self@.monitors[old(self)@.focused]@.workspaces[m0.focused]@,
            );
        }
        self.update_focused_workspace(true, sink)
    }
}

impl WindowManager {
    /// Pop the focused window out onto the floating set, center it above
    /// the tiled layer and focus it.
    pub fn float_window(&mut self, sink: &mut OsSink) -> (r: Result<(), WmError>)
        requires
            old(self).wf(),
        ensures
            match r {
                Ok(()) => {
                    &&& old(self)@.monitors.len() > 0
                    &&& wm_focused_ws(old(self)@).containers.len() > 0
                    &&& {
                        let w = wm_focused_ws(old(self)@);
                        let win = focused_window_of(w);
                        let wa = wm_focused_monitor(old(self)@).work_area;
                        &&& focused_ws_replaced(old(self)@, final(self)@, wm_focused_ws(final(self)@))
                        &&& crate::workspace::floated_focused_window(
                            w,
                            wm_focused_ws(final(self)@),
                        )
                        &&& wm_focused_ws(final(self)@).floating == w.floating.push(win)
                        &&& final(sink).cmds() == old(sink).cmds().push(
                            OsCommand::Position {
                                hwnd: win.hwnd,
                                rect: crate::window::spec_border_rect(
                                    crate::window::spec_centered_rect(wa),
                                ),
                                topmost: true,
                            },
                        ).push(OsCommand::Focus(win.hwnd))
                    }
                },
                Err(e) => {
                    &&& *final(self) == *old(self)
                    &&& final(sink).cmds() == old(sink).cmds()
                    &&& match e {
                        WmError::NoSuchMonitor => old(self)@.monitors.len() == 0,
                        WmError::NoSuchContainer => wm_focused_ws(old(self)@).containers.len()
                            == 0,
                        _ => false,
                    }
                },
            },
            final(self).wf(),
            old(sink).wf() ==> final(sink).wf(),
    {
        if self.monitors.len() == 0 {
            return Err(WmError::NoSuchMonitor);
        }
        let work_area = *self.monitors.focused().unwrap().work_area_size();
        let win: Window;
        {
            let ws = self.focused_workspace().unwrap();
            if ws.containers().len() == 0 {
                return Err(WmError::NoSuchContainer);
            }
            win = *ws.focused_container().unwrap().windows().focused().unwrap();
        }
        let ws = self.focused_workspace_mut();
        let r = ws.new_floating_window();
        proof {
            if r is Err {
                assert(false);
            }
            let m0 = wm_focused_monitor(old(self)@);
            lemma_replace_preserves_wf(
                old(self)@,
                self@,
                self@.monitors[old(self)@.focused]@.workspaces[m0.focused]@,
            );
        }
        win.center(&work_area, sink);
        win.focus(sink);
        Ok(())
    }

    /// Promote the floating window with this handle back into a fresh
    /// container right after the focused one.
    pub fn unfloat_window(&mut self, hwnd: isize) -> (r: Result<(), WmError>)
        requires
            old(self).wf(),
        ensures
            match r {
                Ok(()) => {
                    &&& old(self)@.monitors.len() > 0
                    &&& focused_ws_replaced(old(self)@, final(self)@, wm_focused_ws(final(self)@))
                    &&& crate::workspace::unfloated_window(
                        wm_focused_ws(old(self)@),
                        wm_focused_ws(final(self)@),
                        hwnd,
                    )
                },
                Err(e) => {
                    &&& *final(self) == *old(self)
                    &&& match e {
                        WmError::NoSuchMonitor => old(self)@.monitors.len() == 0,
                        WmError::NoSuchWindow => !wm_focused_ws(old(self)@).floating.contains(
                            Window { hwnd },
                        ),
                        _ => false,
                    }
                },
            },
            final(self).wf(),
    {
        if self.monitors.len() == 0 {
            return Err(WmError::NoSuchMonitor);
        }
        {
            let ws = self.focused_workspace().unwrap();
            let fl = ws.floating_windows();
            let mut found = false;
            let mut i: usize = 0;
            let n = fl.len();
            while i < n
                invariant
                    i <= n,
                    n == fl@.len(),
                    found == exists|j: int| 0 <= j < i && fl@[j].hwnd == hwnd,
                decreases n - i,
            {
                if fl[i].hwnd == hwnd {
                    found = true;
                }
                i = i + 1;
            }
            if !found {
                proof {
                    assert(!wm_focused_ws(old(self)@).floating.contains(Window { hwnd }));
                }
                return Err(WmError::NoSuchWindow);
            }
            proof {
                let j = choose|j: int| 0 <= j < n && fl@[j].hwnd == hwnd;
                assert(wm_focused_ws(old(self)@).floating[j] == (Window { hwnd }));
                assert(wm_focused_ws(old(self)@).floating.contains(Window { hwnd }));
            }
        }
        let ws = self.focused_workspace_mut();
        let r = ws.new_container_for_floating_window(hwnd);
        proof {
            if r is Err {
                assert(false);
            }
            let m0 = wm_focused_monitor(old(self)@);
            lemma_replace_preserves_wf(
                old(self)@,
                self@,
                self@.monitors[old(self)@.focused]@.workspaces[m0.focused]@,
            );
        }
        Ok(())
    }

    /// Toggle floating for the window with this handle (normally the
    /// foreground window) and reproject: a floating window returns to a
    /// fresh tiled container, and otherwise the focused window pops out
    /// onto the floating set.
    pub fn toggle_float(&mut self, hwnd: isize, sink: &mut OsSink) -> (r: Result<(), WmError>)
        requires
            old(self).wf(),
        ensures
            match r {
                Ok(()) => {
                    &&& old(self)@.monitors.len() > 0
                    &&& focused_ws_replaced(old(self)@, final(self)@, wm_focused_ws(final(self)@))
                    &&& if wm_focused_ws(old(self)@).floating.contains(Window { hwnd }) {
                        crate::workspace::unfloated_window(
                            wm_focused_ws(old(self)@),
                            wm_focused_ws(final(self)@),
                            hwnd,
                        )
                    } else {
                        crate::workspace::floated_focused_window(
                            wm_focused_ws(old(self)@),
                            wm_focused_ws(final(self)@),
                        )
                    }
                },
                Err(e) => {
                    &&& *final(self) == *old(self)
                    &&& final(sink).cmds() == old(sink).cmds()
                    &&& match e {
                        WmError::NoSuchMonitor => old(self)@.monitors.len() == 0,
                        WmError::NoSuchContainer => !wm_focused_ws(old(self)@).floating.contains(
                            Window { hwnd },
                        ) && wm_focused_ws(old(self)@).containers.len() == 0,
                        _ => false,
                    }
                },
            },
            final(self).wf(),
            old(sink).wf() ==> final(sink).wf(),
    {
        if self.monitors.len() == 0 {
            return Err(WmError::NoSuchMonitor);
        }
        let mut is_floating = false;
        {
            let ws = self.focused_workspace().unwrap();
            let fl = ws.floating_windows();
            let mut i: usize = 0;
            let n = fl.len();
            while i < n
                invariant
                    i <= n,
                    n == fl@.len(),
                    fl@ == wm_focused_ws(self@).floating,
                    is_floating == exists|j: int| 0 <= j < i && fl@[j].hwnd == hwnd,
                decreases n - i,
            {
                if fl[i].hwnd == hwnd {
                    is_floating = true;
                }
                i = i + 1;
            }
            proof {
                if is_floating {
                    let j = choose|j: int| 0 <= j < n && fl@[j].hwnd == hwnd;
                    assert(fl@[j] == (Window { hwnd }));
                    assert(fl@.contains(Window { hwnd }));
                } else {
                    if fl@.contains(Window { hwnd }) {
                        let j = choose|j: int| 0 <= j < fl@.len() && fl@[j] == (Window { hwnd });
                        assert(fl@[j].hwnd == hwnd);
                        assert(false);
                    }
                }
            }
        }
        let r = if is_floating {
            self.unfloat_window(hwnd)
        } else {
            self.float_window(sink)
        };
        if let Err(e) = r {
            return Err(e);
        }
        self.update_focused_workspace(is_floating, sink)
    }

    /// Switch tiling on or off for the workspace at
    /// (`monitor_idx`, `workspace_idx`) and reproject the focused monitor.
    pub fn set_workspace_tiling(
        &mut self,
        monitor_idx: usize,
        workspace_idx: usize,
        tile: bool,
        sink: &mut OsSink,
    ) -> (r: Result<(), WmError>)
        requires
            old(self).wf(),
        ensures
            match r {
                Ok(()) => {
                    &&& monitor_idx < old(self)@.monitors.len()
                    &&& workspace_idx < old(self)@.monitors[monitor_idx as int]@.workspaces.len()
                    &&& one_workspace_replaced(
                        old(self)@,
                        final(self)@,
                        monitor_idx as int,
                        workspace_idx as int,
                        WorkspaceView {
                            tile,
                            ..old(self)@.monitors[monitor_idx as int]@.workspaces[workspace_idx as int]@
                        },
                    )
                    &&& final(sink).cmds() == old(sink).cmds() + spec_project_cmds(
                        final(self)@.monitors[final(self)@.focused],
                        false,
                    )
                },
                Err(e) => {
                    &&& *final(self) == *old(self)
                    &&& final(sink).cmds() == old(sink).cmds()
                    &&& match e {
                        WmError::NoSuchMonitor => monitor_idx >= old(self)@.monitors.len(),
                        WmError::NoSuchWorkspace => workspace_idx >= old(self)@.monitors[monitor_idx as int]@.workspaces.len(),
                        _ => false,
                    }
                },
            },
            final(self).wf(),
            old(sink).wf() ==> final(sink).wf(),
    {
        if monitor_idx >= self.monitors.len() {
            return Err(WmError::NoSuchMonitor);
        }
        if workspace_idx >= self.monitors.get(monitor_idx).unwrap().workspaces().len() {
            return Err(WmError::NoSuchWorkspace);
        }
        let m = self.monitors.get_mut(monitor_idx);
        let ws = m.workspace_mut(workspace_idx);
        ws.set_tile(tile);
        proof {
            assert forall|i: int| 0 <= i < self@.monitors.len() implies (
            #[trigger] self@.monitors[i]).wf() by {
                if i == monitor_idx as int {
                    let mv0 = old(self)@.monitors[i]@;
                    let mv1 = self@.monitors[i]@;
                    assert forall|k: int|
                        0 <= k < mv1.workspaces.len() implies (#[trigger] mv1.workspaces[k]).wf() by {
                        if k != workspace_idx as int {
                            assert(mv1.workspaces[k] == mv0.workspaces[k]);
                        }
                    }
                } else {
                    assert(self@.monitors[i] == old(self)@.monitors[i]);
                }
            }
        }
        self.update_focused_workspace(false, sink)
    }

    /// Set the outer padding of the workspace at
    /// (`monitor_idx`, `workspace_idx`) and reproject the focused monitor.
    pub fn set_workspace_padding(
        &mut self,
        monitor_idx: usize,
        workspace_idx: usize,
        size: i32,
        sink: &mut OsSink,
    ) -> (r: Result<(), WmError>)
        requires
            old(self).wf(),
            -COORD_LIMIT <= size <= COORD_LIMIT,
        ensures
            match r {
                Ok(()) => {
                    &&& monitor_idx < old(self)@.monitors.len()
                    &&& workspace_idx < old(self)@.monitors[monitor_idx as int]@.workspaces.len()
                    &&& one_workspace_replaced(
                        old(self)@,
                        final(self)@,
                        monitor_idx as int,
                        workspace_idx as int,
                        WorkspaceView {
                            workspace_padding: Some(size),
                            ..old(self)@.monitors[monitor_idx as int]@.workspaces[workspace_idx as int]@
                        },
                    )
                    &&& final(sink).cmds() == old(sink).cmds() + spec_project_cmds(
                        final(self)@.monitors[final(self)@.focused],
                        false,
                    )
                },
                Err(e) => {
                    &&& *final(self) == *old(self)
                    &&& final(sink).cmds() == old(sink).cmds()
                    &&& match e {
                        WmError::NoSuchMonitor => monitor_idx >= old(self)@.monitors.len(),
                        WmError::NoSuchWorkspace => workspace_idx >= old(self)@.monitors[monitor_idx as int]@.workspaces.len(),
                        _ => false,
                    }
                },
            },
            final(self).wf(),
            old(sink).wf() ==> final(sink).wf(),
    {
        if monitor_idx >= self.monitors.len() {
            return Err(WmError::NoSuchMonitor);
        }
        if workspace_idx >= self.monitors.get(monitor_idx).unwrap().workspaces().len() {
            return Err(WmError::NoSuchWorkspace);
        }
        let m = self.monitors.get_mut(monitor_idx);
        let ws = m.workspace_mut(workspace_idx);
        ws.set_workspace_padding(Some(size));
        proof {
            assert forall|i: int| 0 <= i < self@.monitors.len() implies (
            #[trigger] self@.monitors[i]).wf() by {
                if i == monitor_idx as int {
                    let mv0 = old(self)@.monitors[i]@;
                    let mv1 = self@.monitors[i]@;
                    assert forall|k: int|
                        0 <= k < mv1.workspaces.len() implies (#[trigger] mv1.workspaces[k]).wf() by {
                        if k != workspace_idx as int {
                            assert(mv1.workspaces[k] == mv0.workspaces[k]);
                        }
                    }
                } else {
                    assert(self@.monitors[i] == old(self)@.monitors[i]);
                }
            }
        }
        self.update_focused_workspace(false, sink)
    }

    /// Set the inter-container padding of the workspace at
    /// (`monitor_idx`, `workspace_idx`) and reproject the focused monitor.
    pub fn set_container_padding(
        &mut self,
        monitor_idx: usize,
        workspace_idx: usize,
        size: i32,
        sink: &mut OsSink,
    ) -> (r: Result<(), WmError>)
        requires
            old(self).wf(),
            -COORD_LIMIT <= size <= COORD_LIMIT,
        ensures
            match r {
                Ok(()) => {
                    &&& monitor_idx < old(self)@.monitors.len()
                    &&& workspace_idx < old(self)@.monitors[monitor_idx as int]@.workspaces.len()
                    &&& one_workspace_replaced(
                        old(self)@,
                        final(self)@,
                        monitor_idx as int,
                        workspace_idx as int,
                        WorkspaceView {
                            container_padding: Some(size),
                            ..old(self)@.monitors[monitor_idx as int]@.workspaces[workspace_idx as int]@
                        },
                    )
                    &&& final(sink).cmds() == old(sink).cmds() + spec_project_cmds(
                        final(self)@.monitors[final(self)@.focused],
                        false,
                    )
                },
                Err(e) => {
                    &&& *final(self) == *old(self)
                    &&& final(sink).cmds() == old(sink).cmds()
                    &&& match e {
                        WmError::NoSuchMonitor => monitor_idx >= old(self)@.monitors.len(),
                        WmError::NoSuchWorkspace => workspace_idx >= old(self)@.monitors[monitor_idx as int]@.workspaces.len(),
                        _ => false,
                    }
                },
            },
            final(self).wf(),
            old(sink).wf() ==> final(sink).wf(),
    {
        if monitor_idx >= self.monitors.len() {
            return Err(WmError::NoSuchMonitor);
        }
        if workspace_idx >= self.monitors.get(monitor_idx).unwrap().workspaces().len() {
            return Err(WmError::NoSuchWorkspace);
        }
        let m = self.monitors.get_mut(monitor_idx);
        let ws = m.workspace_mut(workspace_idx);
        ws.set_container_padding(Some(size));
        proof {
            assert forall|i: int| 0 <= i < self@.monitors.len() implies (
            #[trigger] self@.monitors[i]).wf() by {
                if i == monitor_idx as int {
                    let mv0 = old(self)@.monitors[i]@;
                    let mv1 = self@.monitors[i]@;
                    assert forall|k: int|
                        0 <= k < mv1.workspaces.len() implies (#[trigger] mv1.workspaces[k]).wf() by {
                        if k != workspace_idx as int {
                            assert(mv1.workspaces[k] == mv0.workspaces[k]);
                        }
                    }
                } else {
                    assert(self@.monitors[i] == old(self)@.monitors[i]);
                }
            }
        }
        self.update_focused_workspace(false, sink)
    }

    /// Name the workspace at (`monitor_idx`, `workspace_idx`) and record
    /// the name persistently on the monitor.
    pub fn set_workspace_name(
        &mut self,
        monitor_idx: usize,
        workspace_idx: usize,
        name: String,
    ) -> (r: Result<(), WmError>)
        requires
            old(self).wf(),
        ensures
            match r {
                Ok(()) => {
                    &&& monitor_idx < old(self)@.monitors.len()
                    &&& workspace_idx < old(self)@.monitors[monitor_idx as int]@.workspaces.len()
                    &&& final(self)@.monitors[monitor_idx as int]@.workspaces[workspace_idx as int]@.name
                        matches Some(n) && n@ == name@
                    &&& final(self)@.monitors.len() == old(self)@.monitors.len()
                    &&& forall|m2: int|
                        0 <= m2 < final(self)@.monitors.len() && m2 != monitor_idx
                            ==> final(self)@.monitors[m2] == old(self)@.monitors[m2]
                    &&& final(self)@.monitors[monitor_idx as int]@.workspaces.len() == old(self)@.monitors[monitor_idx as int]@.workspaces.len()
                    &&& forall|w2: int|
                        0 <= w2 < final(self)@.monitors[monitor_idx as int]@.workspaces.len()
                            && w2 != workspace_idx ==> final(self)@.monitors[monitor_idx as int]@.workspaces[w2] == old(self)@.monitors[monitor_idx as int]@.workspaces[w2]
                    &&& final(self)@.monitors[monitor_idx as int]@.workspaces[workspace_idx as int]@
                        == (WorkspaceView {
                        name: final(self)@.monitors[monitor_idx as int]@.workspaces[workspace_idx as int]@.name,
                        ..old(self)@.monitors[monitor_idx as int]@.workspaces[workspace_idx as int]@
                    })
                    &&& final(self)@.monitors[monitor_idx as int]@ == (MonitorView {
                        workspaces: final(self)@.monitors[monitor_idx as int]@.workspaces,
                        names: final(self)@.monitors[monitor_idx as int]@.names,
                        ..old(self)@.monitors[monitor_idx as int]@
                    })
                    &&& final(self)@ == (WmView { monitors: final(self)@.monitors, ..old(self)@ })
                    &&& exists|k: int|
                        0 <= k < final(self)@.monitors[monitor_idx as int]@.names.len() && (
                        #[trigger] final(self)@.monitors[monitor_idx as int]@.names[k]).0
                            == workspace_idx && final(self)@.monitors[monitor_idx as int]@.names[k].1@
                            == name@
                },
                Err(e) => {
                    &&& *final(self) == *old(self)
                    &&& match e {
                        WmError::NoSuchMonitor => monitor_idx >= old(self)@.monitors.len(),
                        WmError::NoSuchWorkspace => workspace_idx >= old(self)@.monitors[monitor_idx as int]@.workspaces.len(),
                        _ => false,
                    }
                },
            },
            final(self).wf(),
    {
        if monitor_idx >= self.monitors.len() {
            return Err(WmError::NoSuchMonitor);
        }
        if workspace_idx >= self.monitors.get(monitor_idx).unwrap().workspaces().len() {
            return Err(WmError::NoSuchWorkspace);
        }
        let m = self.monitors.get_mut(monitor_idx);
        let ws = m.workspace_mut(workspace_idx);
        ws.set_name(Some(name.clone()));
        m.upsert_workspace_name(workspace_idx, name);
        proof {
            assert forall|i: int| 0 <= i < self@.monitors.len() implies (
            #[trigger] self@.monitors[i]).wf() by {
                if i == monitor_idx as int {
                    let mv0 = old(self)@.monitors[i]@;
                    let mv1 = self@.monitors[i]@;
                    assert forall|k: int|
                        0 <= k < mv1.workspaces.len() implies (#[trigger] mv1.workspaces[k]).wf() by {
                        if k != workspace_idx as int {
                            assert(mv1.workspaces[k] == mv0.workspaces[k]);
                        }
                    }
                } else {
                    assert(self@.monitors[i] == old(self)@.monitors[i]);
                }
            }
        }
        Ok(())
    }
}

impl WindowManager {
    /// Set the layout algorithm of the workspace at
    /// (`monitor_idx`, `workspace_idx`). A visible workspace on another
    /// monitor is retiled in place; otherwise the focused monitor is
    /// reprojected.
    pub fn set_workspace_layout(
        &mut self,
        monitor_idx: usize,
        workspace_idx: usize,
        layout: Layout,
        sink: &mut OsSink,
    ) -> (r: Result<(), WmError>)
        requires
            old(self).wf(),
        ensures
            match r {
                Ok(()) => {
                    &&& monitor_idx < old(self)@.monitors.len()
                    &&& workspace_idx < old(self)@.monitors[monitor_idx as int]@.workspaces.len()
                    &&& one_workspace_replaced(
                        old(self)@,
                        final(self)@,
                        monitor_idx as int,
                        workspace_idx as int,
                        WorkspaceView {
                            layout,
                            ..old(self)@.monitors[monitor_idx as int]@.workspaces[workspace_idx as int]@
                        },
                    )
                    &&& if monitor_idx as int != old(self)@.focused && workspace_idx as int
                        == old(self)@.monitors[monitor_idx as int]@.focused {
                        final(sink).cmds() == old(sink).cmds() + spec_update_cmds(
                            final(self)@.monitors[monitor_idx as int]@.workspaces[workspace_idx as int]@,
                            old(self)@.monitors[monitor_idx as int]@.work_area,
                        )
                    } else {
                        final(sink).cmds() == old(sink).cmds() + spec_project_cmds(
                            final(self)@.monitors[final(self)@.focused],
                            false,
                        )
                    }
                },
                Err(e) => {
                    &&& *final(self) == *old(self)
                    &&& final(sink).cmds() == old(sink).cmds()
                    &&& match e {
                        WmError::NoSuchMonitor => monitor_idx >= old(self)@.monitors.len(),
                        WmError::NoSuchWorkspace => workspace_idx >= old(self)@.monitors[monitor_idx as int]@.workspaces.len(),
                        _ => false,
                    }
                },
            },
            final(self).wf(),
            old(sink).wf() ==> final(sink).wf(),
    {
        if monitor_idx >= self.monitors.len() {
            return Err(WmError::NoSuchMonitor);
        }
        if workspace_idx >= self.monitors.get(monitor_idx).unwrap().workspaces().len() {
            return Err(WmError::NoSuchWorkspace);
        }
        let focused_monitor_idx = self.monitors.focused_idx();
        let m = self.monitors.get_mut(monitor_idx);
        let work_area = *m.work_area_size();
        let focused_workspace_idx = m.focused_workspace_idx();
        let ws = m.workspace_mut(workspace_idx);
        ws.set_layout(layout);
        proof {
            assert forall|i: int| 0 <= i < self@.monitors.len() implies (
            #[trigger] self@.monitors[i]).wf() by {
                if i == monitor_idx as int {
                    let mv0 = old(self)@.monitors[i]@;
                    let mv1 = self@.monitors[i]@;
                    assert forall|k: int|
                        0 <= k < mv1.workspaces.len() implies (#[trigger] mv1.workspaces[k]).wf() by {
                        if k != workspace_idx as int {
                            assert(mv1.workspaces[k] == mv0.workspaces[k]);
                        }
                    }
                } else {
                    assert(self@.monitors[i] == old(self)@.monitors[i]);
                }
            }
        }
        if focused_monitor_idx != monitor_idx && focused_workspace_idx == workspace_idx {
            // this workspace is visible on a monitor that is not focused:
            // retile it in place
            let wsr = self.monitors.get(monitor_idx).unwrap().workspaces().get(
                workspace_idx,
            ).unwrap();
            wsr.update(&work_area, sink);
            Ok(())
        } else {
            self.update_focused_workspace(false, sink)
        }
    }

    /// Move the focused container of the focused monitor to the workspace
    /// at `idx` of the same monitor, and reproject.
    pub fn move_container_to_workspace(&mut self, idx: usize, follow: bool, sink: &mut OsSink)
        -> (r: Result<(), WmError>)
        requires
            old(self).wf(),
        ensures
            match r {
                Ok(()) => {
                    &&& old(self)@.monitors.len() > 0
                    &&& wm_focused_ws(old(self)@).containers.len() > 0
                    &&& crate::monitor::moved_container_to_workspace(
                        old(self)@.monitors[old(self)@.focused]@,
                        final(self)@.monitors[old(self)@.focused]@,
                        idx as int,
                        follow,
                    )
                    &&& forall|j: int|
                        0 <= j < final(self)@.monitors.len() && j != old(self)@.focused
                            ==> final(self)@.monitors[j] == old(self)@.monitors[j]
                    &&& final(self)@ == (WmView { monitors: final(self)@.monitors, ..old(self)@ })
                },
                Err(e) => {
                    &&& *final(self) == *old(self)
                    &&& final(sink).cmds() == old(sink).cmds()
                    &&& match e {
                        WmError::NoSuchMonitor => old(self)@.monitors.len() == 0,
                        WmError::NoSuchContainer => wm_focused_ws(old(self)@).containers.len()
                            == 0,
                        WmError::NoSuchWorkspace => idx >= usize::MAX,
                        _ => false,
                    }
                },
            },
            final(self).wf(),
            old(sink).wf() ==> final(sink).wf(),
    {
        if self.monitors.len() == 0 {
            return Err(WmError::NoSuchMonitor);
        }
        if idx >= usize::MAX {
            return Err(WmError::NoSuchWorkspace);
        }
        {
            let ws = self.focused_workspace().unwrap();
            if ws.containers().len() == 0 {
                return Err(WmError::NoSuchContainer);
            }
        }
        let m = self.monitors.focused_mut();
        let r = m.move_container_to_workspace(idx, follow);
        proof {
            if r is Err {
                assert(false);
            }
            assert forall|i: int| 0 <= i < self@.monitors.len() implies (
            #[trigger] self@.monitors[i]).wf() by {
                if i != old(self)@.focused {
                    assert(self@.monitors[i] == old(self)@.monitors[i]);
                }
            }
        }
        let m2 = self.monitors.focused();
        m2.unwrap().load_focused_workspace(sink);
        self.update_focused_workspace(true, sink)
    }

    /// Move the focused container to the focused workspace of the monitor
    /// at `idx`, optionally following it with the monitor focus, and
    /// reproject.
    pub fn move_container_to_monitor(&mut self, idx: usize, follow: bool, sink: &mut OsSink)
        -> (r: Result<(), WmError>)
        requires
            old(self).wf(),
        ensures
            match r {
                Ok(()) => {
                    &&& old(self)@.monitors.len() > 0
                    &&& idx < old(self)@.monitors.len()
                    &&& wm_focused_ws(old(self)@).maximized is None
                    &&& wm_focused_ws(old(self)@).containers.len() > 0
                    &&& final(self)@.focused == (if follow {
                        idx as int
                    } else {
                        old(self)@.focused
                    })
                    &&& final(self)@.monitors.len() == old(self)@.monitors.len()
                    &&& final(self)@ == (WmView {
                        monitors: final(self)@.monitors,
                        focused: final(self)@.focused,
                        ..old(self)@
                    })
                    &&& idx != old(self)@.focused ==> {
                        let src0 = wm_focused_ws(old(self)@);
                        let src1 = final(self)@.monitors[old(self)@.focused]@.workspaces[wm_focused_monitor(old(self)@).focused]@;
                        let dst_m0 = old(self)@.monitors[idx as int]@;
                        let dst0 = dst_m0.workspaces[dst_m0.focused]@;
                        let dst1 = final(self)@.monitors[idx as int]@.workspaces[dst_m0.focused]@;
                        &&& src1.containers == src0.containers.remove(src0.focused)
                        &&& src1.resize == src0.resize.remove(src0.focused)
                        &&& dst1.containers == dst0.containers.push(
                            src0.containers[src0.focused],
                        )
                        &&& dst1.focused == dst0.containers.len()
                        &&& dst1.resize == dst0.resize.push(None)
                        &&& forall|j: int|
                            0 <= j < final(self)@.monitors.len() && j != old(self)@.focused && j
                                != idx ==> final(self)@.monitors[j] == old(self)@.monitors[j]
                    }
                },
                Err(e) => {
                    &&& *final(self) == *old(self)
                    &&& final(sink).cmds() == old(sink).cmds()
                    &&& match e {
                        WmError::NoSuchMonitor => old(self)@.monitors.len() == 0 || idx >= old(
                            self,
                        )@.monitors.len(),
                        WmError::InvalidOverlayTransition => wm_focused_ws(old(self)@).maximized
                            is Some,
                        WmError::NoSuchContainer => wm_focused_ws(old(self)@).containers.len()
                            == 0,
                        _ => false,
                    }
                },
            },
            final(self).wf(),
            old(sink).wf() ==> final(sink).wf(),
    {
        if self.monitors.len() == 0 || idx >= self.monitors.len() {
            return Err(WmError::NoSuchMonitor);
        }
        {
            let ws = self.focused_workspace().unwrap();
            if ws.maximized_window().is_some() {
                return Err(WmError::InvalidOverlayTransition);
            }
            if ws.containers().len() == 0 {
                return Err(WmError::NoSuchContainer);
            }
        }
        let ws = self.focused_workspace_mut();
        let c = match ws.remove_focused_container() {
            Some(c) => c,
            None => {
                proof {
                    assert(false);
                }
                return Err(WmError::NoSuchContainer);
            },
        };
        proof {
            let m0 = wm_focused_monitor(old(self)@);
            lemma_replace_preserves_wf(
                old(self)@,
                self@,
                self@.monitors[old(self)@.focused]@.workspaces[m0.focused]@,
            );
        }
        let target = self.monitors.get_mut(idx);
        let ar = target.add_container(c);
        proof {
            assert(ar is Ok);
            assert forall|i: int| 0 <= i < self@.monitors.len() implies (
            #[trigger] self@.monitors[i]).wf() by {
                if i != idx as int {
                    assert(self@.monitors[i] == old(self)@.monitors[i]
                        || self@.monitors[i]@.workspaces.len() > 0);
                }
            }
        }
        let t2 = self.monitors.get(idx).unwrap();
        t2.load_focused_workspace(sink);
        if follow {
            self.monitors.focus(idx);
        }
        self.update_focused_workspace(true, sink)
    }
}

impl WindowManager {
    /// Resize the focused container along `direction`: the request is
    /// validated against the layout, inverted into unflipped space when
    /// the workspace is flipped, turned into a new resize delta by the
    /// layout engine, stored in the focused resize slot, and the monitor
    /// is reprojected. A direction with no neighbour is a no-op.
    pub fn resize_window(
        &mut self,
        direction: OperationDirection,
        sizing: Sizing,
        step: Option<i32>,
        sink: &mut OsSink,
    ) -> (r: Result<(), WmError>)
        requires
            old(self).wf(),
            match step {
                Some(s) => 0 <= s <= COORD_LIMIT,
                None => true,
            },
        ensures
            match r {
                Ok(()) => {
                    &&& old(self)@.monitors.len() > 0
                    &&& wm_focused_ws(old(self)@).containers.len() > 0
                    &&& {
                        let w = wm_focused_ws(old(self)@);
                        &&& direction.spec_candidate(
                            w.layout,
                            w.focused,
                            w.containers.len() as int,
                        ) is Some
                        &&& if w.containers.len() > COORD_LIMIT as nat {
                            *final(self) == *old(self) && final(sink).cmds() == old(sink).cmds()
                        } else {
                            let inverted = direction.spec_unflipped(w.layout_flip);
                            let stepv = match step {
                                Some(s) => s as int,
                                None => crate::layout::DEFAULT_RESIZE_STEP as int,
                            };
                            let delta = if w.layout == Layout::Bsp {
                                Some(
                                    crate::rect::rect_of_region(
                                        crate::layout::spec_resize_delta(
                                            crate::layout::delta_or_zero(w.resize[w.focused]),
                                            inverted,
                                            sizing,
                                            stepv,
                                        ),
                                    ),
                                )
                            } else {
                                None
                            };
                            &&& focused_ws_replaced(
                                old(self)@,
                                final(self)@,
                                WorkspaceView {
                                    resize: w.resize.update(w.focused, delta),
                                    ..w
                                },
                            )
                            &&& final(sink).cmds() == old(sink).cmds() + spec_project_cmds(
                                final(self)@.monitors[final(self)@.focused],
                                false,
                            )
                        }
                    }
                },
                Err(e) => {
                    &&& *final(self) == *old(self)
                    &&& final(sink).cmds() == old(sink).cmds()
                    &&& match e {
                        WmError::NoSuchMonitor => old(self)@.monitors.len() == 0,
                        WmError::NoSuchContainer => wm_focused_ws(old(self)@).containers.len()
                            == 0,
                        WmError::InvalidDirection => wm_focused_ws(old(self)@).containers.len()
                            > 0 && direction.spec_candidate(
                            wm_focused_ws(old(self)@).layout,
                            wm_focused_ws(old(self)@).focused,
                            wm_focused_ws(old(self)@).containers.len() as int,
                        ) is None,
                        _ => false,
                    }
                },
            },
            final(self).wf(),
            old(sink).wf() ==> final(sink).wf(),
    {
        if self.monitors.len() == 0 {
            return Err(WmError::NoSuchMonitor);
        }
        let work_area = *self.monitors.focused().unwrap().work_area_size();
        let len: usize;
        let f: usize;
        let layout: Layout;
        let flip: Option<Flip>;
        let cp: Option<i32>;
        let current: Option<Rect>;
        {
            let ws = self.focused_workspace().unwrap();
            len = ws.containers().len();
            if len == 0 {
                return Err(WmError::NoSuchContainer);
            }
            f = ws.focused_container_idx();
            layout = ws.layout();
            flip = ws.layout_flip();
            cp = ws.container_padding();
            if !direction.is_valid(&layout, flip, f, len) {
                return Err(WmError::InvalidDirection);
            }
            if len > COORD_LIMIT as usize {
                return Ok(());
            }
            current = ws.resize_dimensions()[f];
        }
        let empty_deltas: Vec<Option<Rect>> = Vec::new();
        let unaltered = layout.calculate(&work_area, len, cp, flip, &empty_deltas);
        let inverted = direction.unflipped(flip);
        let resize = layout.resize(&unaltered[f], &current, inverted, sizing, step);
        let ws = self.focused_workspace_mut();
        ws.update_resize_dimension(f, resize);
        proof {
            let w = wm_focused_ws(old(self)@);
            lemma_replace_preserves_wf(
                old(self)@,
                self@,
                WorkspaceView { resize: w.resize.update(w.focused, resize), ..w },
            );
        }
        self.update_focused_workspace(false, sink)
    }
}

/// The restore calls for every window of one container, in index order.
pub open spec fn spec_restore_container_cmds(c: Container) -> Seq<OsCommand> {
    Seq::new(c.windows_seq().len(), |j: int| OsCommand::Restore(c.windows_seq()[j].hwnd))
}

/// The restore calls for every window of containers `i..`.
pub open spec fn spec_restore_all_cmds(cs: Seq<Container>, i: int) -> Seq<OsCommand>
    decreases cs.len() - i,
{
    if i < 0 || i >= cs.len() {
        Seq::empty()
    } else {
        spec_restore_container_cmds(cs[i]) + spec_restore_all_cmds(cs, i + 1)
    }
}

/// The restore calls for every window one workspace tracks: its tiled
/// containers, its floating windows, a monocle-stashed container and a
/// maximized window.
pub open spec fn spec_restore_workspace_cmds(w: Workspace) -> Seq<OsCommand> {
    spec_restore_all_cmds(w@.containers, 0) + Seq::new(
        w@.floating.len(),
        |x: int| OsCommand::Restore(w@.floating[x].hwnd),
    ) + (match w@.monocle {
        Some(c) => spec_restore_container_cmds(c),
        None => Seq::empty(),
    }) + (match w@.maximized {
        Some(win) => seq![OsCommand::Restore(win.hwnd)],
        None => Seq::empty(),
    })
}

/// The restore calls for every window of workspaces `i..`.
pub open spec fn spec_restore_ws_cmds(wss: Seq<Workspace>, i: int) -> Seq<OsCommand>
    decreases wss.len() - i,
{
    if i < 0 || i >= wss.len() {
        Seq::empty()
    } else {
        spec_restore_workspace_cmds(wss[i]) + spec_restore_ws_cmds(wss, i + 1)
    }
}

/// The restore calls for every window of monitors `i..`.
pub open spec fn spec_restore_monitor_cmds(ms: Seq<Monitor>, i: int) -> Seq<OsCommand>
    decreases ms.len() - i,
{
    if i < 0 || i >= ms.len() {
        Seq::empty()
    } else {
        spec_restore_ws_cmds(ms[i]@.workspaces, 0) + spec_restore_monitor_cmds(ms, i + 1)
    }
}

/// Restore every window of one container.
fn restore_container_windows(c: &Container, sink: &mut OsSink)
    requires
        c.wf(),
    ensures
        final(sink).cmds() == old(sink).cmds() + spec_restore_container_cmds(*c),
        old(sink).wf() ==> final(sink).wf(),
{
    let ws = c.windows();
    let m = ws.len();
    let mut j: usize = 0;
    while j < m
        invariant
            ws.seq() == c.windows_seq(),
            m == c.windows_seq().len(),
            j <= m,
            sink.cmds() == old(sink).cmds() + spec_restore_container_cmds(*c).take(j as int),
            old(sink).wf() ==> sink.wf(),
        decreases m - j,
    {
        let win = *ws.get(j).unwrap();
        win.restore(sink);
        proof {
            assert(sink.cmds() =~= old(sink).cmds() + spec_restore_container_cmds(*c).take(
                j + 1,
            ));
        }
        j = j + 1;
    }
    proof {
        assert(spec_restore_container_cmds(*c).take(m as int) =~= spec_restore_container_cmds(
            *c,
        ));
    }
}

/// Restore every window one workspace tracks: tiled, floating,
/// monocle-stashed and maximized.
fn restore_workspace_windows(w: &Workspace, sink: &mut OsSink)
    requires
        w.wf(),
    ensures
        final(sink).cmds() == old(sink).cmds() + spec_restore_workspace_cmds(*w),
        old(sink).wf() ==> final(sink).wf(),
{
    let cs = w.containers();
    let n = cs.len();
    let mut i: usize = 0;
    while i < n
        invariant
            w.wf(),
            cs.seq() == w@.containers,
            n == w@.containers.len(),
            i <= n,
            old(sink).cmds() + spec_restore_all_cmds(w@.containers, 0) == sink.cmds()
                + spec_restore_all_cmds(w@.containers, i as int),
            old(sink).wf() ==> sink.wf(),
        decreases n - i,
    {
        restore_container_windows(cs.get(i).unwrap(), sink);
        proof {
            assert(old(sink).cmds() + spec_restore_all_cmds(w@.containers, 0) =~= sink.cmds()
                + spec_restore_all_cmds(w@.containers, i + 1));
        }
        i = i + 1;
    }
    let ghost after_tiled = sink.cmds();
    let fl = w.floating_windows();
    let nf = fl.len();
    let mut x: usize = 0;
    while x < nf
        invariant
            w.wf(),
            fl@ == w@.floating,
            nf == w@.floating.len(),
            x <= nf,
            sink.cmds() == after_tiled + Seq::new(
                w@.floating.len(),
                |y: int| OsCommand::Restore(w@.floating[y].hwnd),
            ).take(x as int),
            old(sink).wf() ==> sink.wf(),
        decreases nf - x,
    {
        fl[x].restore(sink);
        proof {
            assert(sink.cmds() =~= after_tiled + Seq::new(
                w@.floating.len(),
                |y: int| OsCommand::Restore(w@.floating[y].hwnd),
            ).take(x + 1));
        }
        x = x + 1;
    }
    proof {
        assert(Seq::new(
            w@.floating.len(),
            |y: int| OsCommand::Restore(w@.floating[y].hwnd),
        ).take(nf as int) =~= Seq::new(
            w@.floating.len(),
            |y: int| OsCommand::Restore(w@.floating[y].hwnd),
        ));
    }
    match w.monocle_container() {
        Some(c) => {
            restore_container_windows(c, sink);
        },
        None => {},
    }
    match w.maximized_window() {
        Some(win) => {
            win.restore(sink);
        },
        None => {},
    }
    proof {
        assert(sink.cmds() =~= old(sink).cmds() + spec_restore_workspace_cmds(*w));
    }
}

impl WindowManager {
    /// Restore every tiled window of every workspace on every monitor:
    /// the final act before the manager exits, so nothing stays hidden.
    pub fn restore_all_windows(&self, sink: &mut OsSink)
        requires
            self.wf(),
        ensures
            final(sink).cmds() == old(sink).cmds() + spec_restore_monitor_cmds(self@.monitors, 0),
            old(sink).wf() ==> final(sink).wf(),
    {
        let nm = self.monitors.len();
        let mut mi: usize = 0;
        while mi < nm
            invariant
                self.wf(),
                nm == self@.monitors.len(),
                mi <= nm,
                old(sink).cmds() + spec_restore_monitor_cmds(self@.monitors, 0) == sink.cmds()
                    + spec_restore_monitor_cmds(self@.monitors, mi as int),
                old(sink).wf() ==> sink.wf(),
            decreases nm - mi,
        {
            let m = self.monitors.get(mi).unwrap();
            let wss = m.workspaces();
            let nw = wss.len();
            let ghost pre = sink.cmds();
            let mut wi: usize = 0;
            while wi < nw
                invariant
                    self.wf(),
                    mi < self@.monitors.len(),
                    *m == self@.monitors[mi as int],
                    m.wf(),
                    wss.seq() == m@.workspaces,
                    nw == m@.workspaces.len(),
                    wi <= nw,
                    pre + spec_restore_ws_cmds(m@.workspaces, 0) == sink.cmds()
                        + spec_restore_ws_cmds(m@.workspaces, wi as int),
                    old(sink).wf() ==> sink.wf(),
                decreases nw - wi,
            {
                restore_workspace_windows(wss.get(wi).unwrap(), sink);
                proof {
                    assert(pre + spec_restore_ws_cmds(m@.workspaces, 0) =~= sink.cmds()
                        + spec_restore_ws_cmds(m@.workspaces, wi + 1));
                }
                wi = wi + 1;
            }
            proof {
                assert(old(sink).cmds() + spec_restore_monitor_cmds(self@.monitors, 0)
                    =~= sink.cmds() + spec_restore_monitor_cmds(self@.monitors, mi + 1));
            }
            mi = mi + 1;
        }
    }
}

/// One planned rule enforcement: move the window `hwnd` from its origin
/// workspace to the workspace its rule names.
#[derive(Debug, Clone, Copy, PartialEq, Eq, Structural)]
pub struct EnforceWorkspaceRuleOp {
    pub hwnd: isize,
    pub origin_monitor_idx: usize,
    pub origin_workspace_idx: usize,
    pub target_monitor_idx: usize,
    pub target_workspace_idx: usize,
}

impl EnforceWorkspaceRuleOp {
    /// Whether this operation's origin is the given location.
    pub fn is_origin(&self, monitor_idx: usize, workspace_idx: usize) -> (r: bool)
        ensures
            r == (self.origin_monitor_idx == monitor_idx && self.origin_workspace_idx
                == workspace_idx),
    {
        self.origin_monitor_idx == monitor_idx && self.origin_workspace_idx == workspace_idx
    }

    /// Whether this operation's target is the given location.
    pub fn is_target(&self, monitor_idx: usize, workspace_idx: usize) -> (r: bool)
        ensures
            r == (self.target_monitor_idx == monitor_idx && self.target_workspace_idx
                == workspace_idx),
    {
        self.target_monitor_idx == monitor_idx && self.target_workspace_idx == workspace_idx
    }

    /// Whether the window already sits where its rule wants it.
    pub fn is_enforced(&self) -> (r: bool)
        ensures
            r == (self.origin_monitor_idx == self.target_monitor_idx
                && self.origin_workspace_idx == self.target_workspace_idx),
    {
        (self.origin_monitor_idx == self.target_monitor_idx) && (self.origin_workspace_idx
            == self.target_workspace_idx)
    }
}

/// The first attribute record for `hwnd`, if the host read one.
pub open spec fn info_for(infos: Seq<WindowInfo>, hwnd: isize) -> Option<WindowInfo>
    decreases infos.len(),
{
    if infos.len() == 0 {
        None
    } else if infos[0].hwnd == hwnd {
        Some(infos[0])
    } else {
        info_for(infos.drop_first(), hwnd)
    }
}

/// The first rule whose identifier is exactly `s`.
pub open spec fn rule_match(rules: Seq<WorkspaceRule>, s: Seq<char>) -> Option<WorkspaceRule>
    decreases rules.len(),
{
    if rules.len() == 0 {
        None
    } else if rules[0].identifier@ == s {
        Some(rules[0])
    } else {
        rule_match(rules.drop_first(), s)
    }
}

/// Replacing the first rule that carries an identifier changes only what
/// that identifier resolves to.
proof fn lemma_rule_match_update(s: Seq<WorkspaceRule>, x: int, rule: WorkspaceRule)
    requires
        0 <= x < s.len(),
        s[x].identifier@ == rule.identifier@,
        forall|j: int| 0 <= j < x ==> (#[trigger] s[j]).identifier@ != rule.identifier@,
    ensures
        rule_match(s.update(x, rule), rule.identifier@) == Some(rule),
        forall|q: Seq<char>|
            q != rule.identifier@ ==> #[trigger] rule_match(s.update(x, rule), q) == rule_match(
                s,
                q,
            ),
    decreases s.len(),
{
    if x == 0 {
        assert(s.update(0, rule)[0] == rule);
        assert forall|q: Seq<char>| q != rule.identifier@ implies #[trigger] rule_match(
            s.update(0, rule),
            q,
        ) == rule_match(s, q) by {
            assert(s.update(0, rule).drop_first() =~= s.drop_first());
        }
    } else {
        lemma_rule_match_update(s.drop_first(), x - 1, rule);
        assert(s.update(x, rule).drop_first() =~= s.drop_first().update(x - 1, rule));
        assert(s.update(x, rule)[0] == s[0]);
        assert(s[0].identifier@ != rule.identifier@);
        assert forall|q: Seq<char>| q != rule.identifier@ implies #[trigger] rule_match(
            s.update(x, rule),
            q,
        ) == rule_match(s, q) by {
            assert(rule_match(s.update(x, rule).drop_first(), q) == rule_match(
                s.drop_first(),
                q,
            ));
        }
    }
}

/// Appending a rule for a fresh identifier changes only what that
/// identifier resolves to.
proof fn lemma_rule_match_push(s: Seq<WorkspaceRule>, rule: WorkspaceRule)
    requires
        forall|j: int| 0 <= j < s.len() ==> (#[trigger] s[j]).identifier@ != rule.identifier@,
    ensures
        rule_match(s.push(rule), rule.identifier@) == Some(rule),
        forall|q: Seq<char>|
            q != rule.identifier@ ==> #[trigger] rule_match(s.push(rule), q) == rule_match(s, q),
    decreases s.len(),
{
    if s.len() == 0 {
        assert forall|q: Seq<char>| q != rule.identifier@ implies #[trigger] rule_match(
            s.push(rule),
            q,
        ) == rule_match(s, q) by {
            assert(s.push(rule)[0] == rule);
            assert(s.push(rule).drop_first() =~= s);
        }
    } else {
        lemma_rule_match_push(s.drop_first(), rule);
        assert(s.push(rule)[0] == s[0]);
        assert(s.push(rule).drop_first() =~= s.drop_first().push(rule));
        assert(rule_match(s.push(rule), rule.identifier@) == Some(rule));
        assert forall|q: Seq<char>| q != rule.identifier@ implies #[trigger] rule_match(
            s.push(rule),
            q,
        ) == rule_match(s, q) by {
            assert(rule_match(s.push(rule).drop_first(), q) == rule_match(
                s.drop_first().push(rule),
                q,
            ));
        }
    }
}

/// The rule that applies to the window `hwnd`: its executable name is
/// looked up first, then its title.
pub open spec fn rule_for_window(
    rules: Seq<WorkspaceRule>,
    infos: Seq<WindowInfo>,
    hwnd: isize,
) -> Option<WorkspaceRule> {
    match info_for(infos, hwnd) {
        None => None,
        Some(info) => {
            let by_exe = match info.exe {
                Some(e) => rule_match(rules, e@),
                None => None,
            };
            match by_exe {
                Some(r) => Some(r),
                None => match info.title {
                    Some(t) => rule_match(rules, t@),
                    None => None,
                },
            }
        },
    }
}

/// Every workspace rule is already satisfied: each visible window whose
/// rule names a real target either already sits on that target workspace
/// or is ruled onto the focused workspace, which enforcement never moves
/// onto.
pub open spec fn rules_enforced(
    v: WmView,
    infos: Seq<WindowInfo>,
    focused_m: int,
    focused_w: int,
) -> bool {
    forall|i: int, j: int, k: int|
        {
            (0 <= i < v.monitors.len() && 0 <= j < v.monitors[i]@.workspaces.len() && 0 <= k
                < v.monitors[i]@.workspaces[j]@.containers.len()) ==> {
                let c = (#[trigger] v.monitors[i]@.workspaces[j]@.containers[k]);
                let hwnd = c.windows_seq()[c.focused_window_spec()].hwnd;
                match rule_for_window(v.workspace_rules, infos, hwnd) {
                    Some(r) => {
                        ||| (r.monitor_idx == focused_m && r.workspace_idx == focused_w)
                        ||| (r.monitor_idx == i && r.workspace_idx == j)
                        ||| r.monitor_idx >= v.monitors.len()
                        ||| r.workspace_idx >= usize::MAX
                    },
                    None => true,
                }
            }
        }
}

/// The first attribute record for `hwnd`, executable form.
fn find_info(infos: &Vec<WindowInfo>, hwnd: isize) -> (r: Option<&WindowInfo>)
    ensures
        match r {
            Some(info) => info_for(infos@, hwnd) == Some(*info),
            None => info_for(infos@, hwnd) is None,
        },
{
    let mut i: usize = 0;
    let n = infos.len();
    proof {
        assert(infos@.skip(0) =~= infos@);
    }
    while i < n
        invariant
            i <= n,
            n == infos@.len(),
            info_for(infos@, hwnd) == info_for(infos@.skip(i as int), hwnd),
        decreases n - i,
    {
        proof {
            assert(infos@.skip(i as int).len() > 0);
            assert(infos@.skip(i as int)[0] == infos@[i as int]);
            assert(infos@.skip(i as int).drop_first() =~= infos@.skip(i + 1));
        }
        if infos[i].hwnd == hwnd {
            return Some(&infos[i]);
        }
        i = i + 1;
    }
    proof {
        assert(infos@.skip(n as int).len() == 0);
    }
    None
}

/// The first rule whose identifier equals `s`, executable form.
fn find_rule(rules: &Vec<WorkspaceRule>, s: &String) -> (r: Option<WorkspaceRule>)
    ensures
        match r {
            Some(rule) => rule_match(rules@, s@) == Some(rule),
            None => rule_match(rules@, s@) is None,
        },
{
    let mut i: usize = 0;
    let n = rules.len();
    proof {
        assert(rules@.skip(0) =~= rules@);
    }
    while i < n
        invariant
            i <= n,
            n == rules@.len(),
            rule_match(rules@, s@) == rule_match(rules@.skip(i as int), s@),
        decreases n - i,
    {
        proof {
            assert(rules@.skip(i as int).len() > 0);
            assert(rules@.skip(i as int)[0] == rules@[i as int]);
            assert(rules@.skip(i as int).drop_first() =~= rules@.skip(i + 1));
        }
        if rules[i].identifier.eq(s) {
            let found = WorkspaceRule {
                identifier: rules[i].identifier.clone(),
                monitor_idx: rules[i].monitor_idx,
                workspace_idx: rules[i].workspace_idx,
            };
            proof {
                assert(found =~= rules@[i as int]);
            }
            return Some(found);
        }
        i = i + 1;
    }
    proof {
        assert(rules@.skip(n as int).len() == 0);
    }
    None
}

/// An operation that the retain step of rule enforcement drops: its
/// target is the focused workspace, or it is already enforced.
pub open spec fn op_dropped(op: EnforceWorkspaceRuleOp, fm: int, fw: int) -> bool {
    ||| (op.target_monitor_idx == fm && op.target_workspace_idx == fw)
    ||| (op.origin_monitor_idx == op.target_monitor_idx && op.origin_workspace_idx
        == op.target_workspace_idx)
}

/// Whether (i, j, k) names a container in the hierarchy (within machine
/// index range, which every stored index is).
pub open spec fn in_hierarchy_range(v: WmView, i: int, j: int, k: int) -> bool {
    &&& 0 <= i < v.monitors.len() && i <= usize::MAX
    &&& 0 <= j < v.monitors[i]@.workspaces.len() && j <= usize::MAX
    &&& 0 <= k < v.monitors[i]@.workspaces[j]@.containers.len() && k <= usize::MAX
}

/// The handle of the visible (focused) window of the container at
/// (i, j, k).
pub open spec fn visible_hwnd_at(v: WmView, i: int, j: int, k: int) -> isize {
    let c = v.monitors[i]@.workspaces[j]@.containers[k];
    c.windows_seq()[c.focused_window_spec()].hwnd
}

/// The enforcement operation the rule `r` generates for the visible
/// window at (i, j, k).
pub open spec fn rule_op_at(v: WmView, i: int, j: int, k: int, r: WorkspaceRule)
    -> EnforceWorkspaceRuleOp {
    EnforceWorkspaceRuleOp {
        hwnd: visible_hwnd_at(v, i, j, k),
        origin_monitor_idx: i as usize,
        origin_workspace_idx: j as usize,
        target_monitor_idx: r.monitor_idx,
        target_workspace_idx: r.workspace_idx,
    }
}

/// The operation for (i, j, k) stands in `ops` whenever its visible
/// window has a rule.
pub open spec fn op_listed(
    v: WmView,
    infos: Seq<WindowInfo>,
    ops: Seq<EnforceWorkspaceRuleOp>,
    i: int,
    j: int,
    k: int,
) -> bool {
    match rule_for_window(v.workspace_rules, infos, visible_hwnd_at(v, i, j, k)) {
        Some(r) => ops.contains(rule_op_at(v, i, j, k, r)),
        None => true,
    }
}

/// The operation was generated by some ruled visible window.
pub open spec fn op_sound(v: WmView, infos: Seq<WindowInfo>, op: EnforceWorkspaceRuleOp) -> bool {
    exists|i: int, j: int, k: int|
        {
            &&& #[trigger] in_hierarchy_range(v, i, j, k)
            &&& rule_for_window(v.workspace_rules, infos, visible_hwnd_at(v, i, j, k))
                matches Some(r)
            &&& op == rule_op_at(
                v,
                i,
                j,
                k,
                rule_for_window(v.workspace_rules, infos, visible_hwnd_at(v, i, j, k)).unwrap(),
            )
        }
}

/// Some ruled visible window names a monitor that does not exist.
pub open spec fn rule_targets_missing_monitor(v: WmView, infos: Seq<WindowInfo>) -> bool {
    exists|i: int, j: int, k: int|
        #[trigger] in_hierarchy_range(v, i, j, k) && match rule_for_window(
            v.workspace_rules,
            infos,
            visible_hwnd_at(v, i, j, k),
        ) {
            Some(r) => r.monitor_idx >= v.monitors.len(),
            None => false,
        }
}

/// Some ruled visible window names a workspace index at the machine
/// limit, which no ring can reach.
pub open spec fn rule_targets_limit_workspace(v: WmView, infos: Seq<WindowInfo>) -> bool {
    exists|i: int, j: int, k: int|
        #[trigger] in_hierarchy_range(v, i, j, k) && match rule_for_window(
            v.workspace_rules,
            infos,
            visible_hwnd_at(v, i, j, k),
        ) {
            Some(r) => r.monitor_idx < v.monitors.len() && r.workspace_idx >= usize::MAX,
            None => false,
        }
}

/// An element stays in a sequence that grows by one.
proof fn lemma_push_keeps<T>(s: Seq<T>, x: T, y: T)
    requires
        s.contains(y),
    ensures
        s.push(x).contains(y),
{
    let ix = choose|ix: int| 0 <= ix < s.len() && s[ix] == y;
    assert(s.push(x)[ix] == y);
}

/// An element stays in a sequence extended at the end.
proof fn lemma_add_keeps<T>(s: Seq<T>, t: Seq<T>, y: T)
    requires
        s.contains(y),
    ensures
        (s + t).contains(y),
{
    let ix = choose|ix: int| 0 <= ix < s.len() && s[ix] == y;
    assert((s + t)[ix] == y);
}

/// Every workspace rule moved its window: in the final state, each
/// initially visible window whose rule names an existing, non-focused
/// workspace other than its own sits on that target workspace, and a
/// hide was queued for each such window that left the focused workspace.
pub open spec fn rules_applied(
    pre: WmView,
    post: WmView,
    infos: Seq<WindowInfo>,
    cmds: Seq<OsCommand>,
    fm: int,
    fw: int,
) -> bool {
    forall|i: int, j: int, k: int|
        #[trigger] in_hierarchy_range(pre, i, j, k) ==> match rule_for_window(
            pre.workspace_rules,
            infos,
            visible_hwnd_at(pre, i, j, k),
        ) {
            Some(r) => (!(r.monitor_idx == fm && r.workspace_idx == fw) && !(r.monitor_idx == i
                && r.workspace_idx == j) && r.monitor_idx < pre.monitors.len()
                && r.workspace_idx < usize::MAX) ==> {
                &&& (r.workspace_idx as int)
                    < post.monitors[r.monitor_idx as int]@.workspaces.len()
                &&& crate::workspace::view_tiled_contains(
                    post.monitors[r.monitor_idx as int]@.workspaces[r.workspace_idx as int]@,
                    visible_hwnd_at(pre, i, j, k),
                )
                &&& (i == fm && j == fw) ==> cmds.contains(
                    OsCommand::Hide(visible_hwnd_at(pre, i, j, k)),
                )
            },
            None => true,
        }
}

/// The operation's ordering position in one left-to-right scan of the
/// hierarchy: (i2, j2, k2) comes before (i, j, k).
pub open spec fn scan_lt(i2: int, j2: int, k2: int, i: int, j: int, k: int) -> bool {
    i2 < i || (i2 == i && (j2 < j || (j2 == j && k2 < k)))
}

impl WindowManager {
    /// Enforce every workspace rule: find each visible window whose rule
    /// names another workspace, remove it from where it is (hiding it
    /// first when it leaves the focused workspace), then insert it as a
    /// fresh container on its target workspace, creating workspaces as
    /// needed; finally reproject if the focused workspace lost a window.
    /// Rules that target the focused workspace itself are left alone, so
    /// enforcement never fights the user's current focus; a rule that
    /// names a monitor that does not exist is refused before anything
    /// moves.
    ///
    /// On success every ruled window reached its target workspace
    /// (`rules_applied`), and a state whose rules are all enforced is a
    /// fixed point: the call changes nothing and issues no OS calls.
    /// A window that only becomes visible because the window stacked over
    /// it moved away is picked up by the next call, not this one.
    pub fn enforce_workspace_rules(&mut self, infos: &Vec<WindowInfo>, sink: &mut OsSink) -> (r:
        Result<(), WmError>)
        requires
            old(self).wf(),
        ensures
            match r {
                Ok(()) => {
                    &&& old(self)@.monitors.len() > 0
                    &&& !rule_targets_missing_monitor(old(self)@, infos@)
                    &&& (rules_enforced(
                        old(self)@,
                        infos@,
                        old(self)@.focused,
                        wm_focused_monitor(old(self)@).focused,
                    ) ==> *final(self) == *old(self) && final(sink).cmds() == old(sink).cmds())
                    &&& rules_applied(
                        old(self)@,
                        final(self)@,
                        infos@,
                        final(sink).cmds(),
                        old(self)@.focused,
                        wm_focused_monitor(old(self)@).focused,
                    )
                    &&& final(self)@.monitors.len() == old(self)@.monitors.len()
                    &&& final(self)@ == (WmView { monitors: final(self)@.monitors, ..old(self)@ })
                },
                Err(e) => {
                    &&& *final(self) == *old(self)
                    &&& final(sink).cmds() == old(sink).cmds()
                    &&& match e {
                        WmError::NoSuchMonitor => old(self)@.monitors.len() == 0
                            || rule_targets_missing_monitor(old(self)@, infos@),
                        WmError::NoSuchWorkspace => rule_targets_limit_workspace(
                            old(self)@,
                            infos@,
                        ),
                        _ => false,
                    }
                },
            },
            final(self).wf(),
            old(sink).wf() ==> final(sink).wf(),
    {
        if self.monitors.len() == 0 {
            return Err(WmError::NoSuchMonitor);
        }
        let focused_monitor_idx = self.monitors.focused_idx();
        let focused_workspace_idx = self.monitors.focused().unwrap().focused_workspace_idx();
        let ghost enforced_now = rules_enforced(
            self@,
            infos@,
            self@.focused,
            wm_focused_monitor(self@).focused,
        );
        let nmon = self.monitors.len();

        let mut to_move: Vec<EnforceWorkspaceRuleOp> = Vec::new();
        let mut i: usize = 0;
        while i < nmon
            invariant
                self.wf(),
                *self == *old(self),
                nmon == self@.monitors.len(),
                i <= nmon,
                focused_monitor_idx == self@.focused,
                focused_workspace_idx == wm_focused_monitor(self@).focused,
                enforced_now == rules_enforced(
                    self@,
                    infos@,
                    self@.focused,
                    wm_focused_monitor(self@).focused,
                ),
                forall|x: int|
                    0 <= x < to_move@.len() ==> {
                        let op = #[trigger] to_move@[x];
                        op.origin_monitor_idx < nmon && op.origin_workspace_idx
                            < self@.monitors[op.origin_monitor_idx as int]@.workspaces.len()
                    },
                forall|x: int|
                    0 <= x < to_move@.len() ==> op_sound(self@, infos@, #[trigger] to_move@[x]),
                enforced_now ==> forall|x: int|
                    0 <= x < to_move@.len() ==> op_dropped(
                        #[trigger] to_move@[x],
                        focused_monitor_idx as int,
                        focused_workspace_idx as int,
                    ) || to_move@[x].target_monitor_idx >= nmon
                        || to_move@[x].target_workspace_idx >= usize::MAX,
                forall|i2: int, j2: int, k2: int|
                    #[trigger] in_hierarchy_range(self@, i2, j2, k2) && scan_lt(
                        i2,
                        j2,
                        k2,
                        i as int,
                        0,
                        0,
                    ) ==> op_listed(self@, infos@, to_move@, i2, j2, k2),
            decreases nmon - i,
        {
            let m = self.monitors.get(i).unwrap();
            let wss = m.workspaces();
            let nw = wss.len();
            let mut j: usize = 0;
            while j < nw
                invariant
                    self.wf(),
                    *self == *old(self),
                    nmon == self@.monitors.len(),
                    i < nmon,
                    *m == self@.monitors[i as int],
                    wss.seq() == m@.workspaces,
                    nw == m@.workspaces.len(),
                    j <= nw,
                    focused_monitor_idx == self@.focused,
                    focused_workspace_idx == wm_focused_monitor(self@).focused,
                    enforced_now == rules_enforced(
                        self@,
                        infos@,
                        self@.focused,
                        wm_focused_monitor(self@).focused,
                    ),
                    forall|x: int|
                        0 <= x < to_move@.len() ==> {
                            let op = #[trigger] to_move@[x];
                            op.origin_monitor_idx < nmon && op.origin_workspace_idx
                                < self@.monitors[op.origin_monitor_idx as int]@.workspaces.len()
                        },
                    forall|x: int|
                        0 <= x < to_move@.len() ==> op_sound(
                            self@,
                            infos@,
                            #[trigger] to_move@[x],
                        ),
                    enforced_now ==> forall|x: int|
                        0 <= x < to_move@.len() ==> op_dropped(
                            #[trigger] to_move@[x],
                            focused_monitor_idx as int,
                            focused_workspace_idx as int,
                        ) || to_move@[x].target_monitor_idx >= nmon
                            || to_move@[x].target_workspace_idx >= usize::MAX,
                    forall|i2: int, j2: int, k2: int|
                        #[trigger] in_hierarchy_range(self@, i2, j2, k2) && scan_lt(
                            i2,
                            j2,
                            k2,
                            i as int,
                            j as int,
                            0,
                        ) ==> op_listed(self@, infos@, to_move@, i2, j2, k2),
                decreases nw - j,
            {
                let w = wss.get(j).unwrap();
                let visible = w.visible_windows();
                let nv = visible.len();
                let mut k: usize = 0;
                while k < nv
                    invariant
                        self.wf(),
                        *self == *old(self),
                        nmon == self@.monitors.len(),
                        i < nmon,
                        *m == self@.monitors[i as int],
                        wss.seq() == m@.workspaces,
                        j < m@.workspaces.len(),
                        *w == m@.workspaces[j as int],
                        w.wf(),
                        visible@.len() == w@.containers.len(),
                        forall|y: int|
                            0 <= y < visible@.len() ==> #[trigger] visible@[y] == Some(
                                w@.containers[y].windows_seq()[w@.containers[y].focused_window_spec()],
                            ),
                        nv == visible@.len(),
                        k <= nv,
                        focused_monitor_idx == self@.focused,
                        focused_workspace_idx == wm_focused_monitor(self@).focused,
                        enforced_now == rules_enforced(
                            self@,
                            infos@,
                            self@.focused,
                            wm_focused_monitor(self@).focused,
                        ),
                        forall|x: int|
                            0 <= x < to_move@.len() ==> {
                                let op = #[trigger] to_move@[x];
                                op.origin_monitor_idx < nmon && op.origin_workspace_idx
                                    < self@.monitors[op.origin_monitor_idx as int]@.workspaces.len()
                            },
                        forall|x: int|
                            0 <= x < to_move@.len() ==> op_sound(
                                self@,
                                infos@,
                                #[trigger] to_move@[x],
                            ),
                        enforced_now ==> forall|x: int|
                            0 <= x < to_move@.len() ==> op_dropped(
                                #[trigger] to_move@[x],
                                focused_monitor_idx as int,
                                focused_workspace_idx as int,
                            ) || to_move@[x].target_monitor_idx >= nmon
                                || to_move@[x].target_workspace_idx >= usize::MAX,
                        forall|i2: int, j2: int, k2: int|
                            #[trigger] in_hierarchy_range(self@, i2, j2, k2) && scan_lt(
                                i2,
                                j2,
                                k2,
                                i as int,
                                j as int,
                                k as int,
                            ) ==> op_listed(self@, infos@, to_move@, i2, j2, k2),
                    decreases nv - k,
                {
                    let win = visible[k].unwrap();
                    proof {
                        assert(win.hwnd == visible_hwnd_at(self@, i as int, j as int, k as int));
                    }
                    let mut found: Option<WorkspaceRule> = None;
                    match find_info(infos, win.hwnd) {
                        Some(info) => {
                            match &info.exe {
                                Some(e) => {
                                    found = find_rule(&self.workspace_rules, e);
                                },
                                None => {},
                            }
                            if found.is_none() {
                                match &info.title {
                                    Some(t) => {
                                        found = find_rule(&self.workspace_rules, t);
                                    },
                                    None => {},
                                }
                            }
                        },
                        None => {},
                    }
                    proof {
                        assert(found == rule_for_window(
                            self@.workspace_rules,
                            infos@,
                            win.hwnd,
                        ) || (found is None && rule_for_window(
                            self@.workspace_rules,
                            infos@,
                            win.hwnd,
                        ) is None));
                    }
                    match found {
                        Some(rule) => {
                            let op = EnforceWorkspaceRuleOp {
                                hwnd: win.hwnd,
                                origin_monitor_idx: i,
                                origin_workspace_idx: j,
                                target_monitor_idx: rule.monitor_idx,
                                target_workspace_idx: rule.workspace_idx,
                            };
                            proof {
                                assert(op == rule_op_at(
                                    self@,
                                    i as int,
                                    j as int,
                                    k as int,
                                    rule_for_window(
                                        self@.workspace_rules,
                                        infos@,
                                        visible_hwnd_at(self@, i as int, j as int, k as int),
                                    ).unwrap(),
                                ));
                                if enforced_now {
                                    assert(in_hierarchy_range(self@, i as int, j as int, k as int));
                                    assert(op_dropped(
                                        op,
                                        focused_monitor_idx as int,
                                        focused_workspace_idx as int,
                                    ) || op.target_monitor_idx >= nmon
                                        || op.target_workspace_idx >= usize::MAX) by {
                                        let c = self@.monitors[i as int]@.workspaces[j as int]@.containers[k as int];
                                        assert(visible@[k as int] == Some(
                                            c.windows_seq()[c.focused_window_spec()],
                                        ));
                                    }
                                }
                            }
                            let ghost prev = to_move@;
                            to_move.push(op);
                            proof {
                                assert(to_move@ == prev.push(op));
                                assert(to_move@.contains(op)) by {
                                    assert(to_move@[prev.len() as int] == op);
                                }
                                assert(op_sound(self@, infos@, op)) by {
                                    assert(in_hierarchy_range(self@, i as int, j as int, k as int));
                                }
                                assert forall|i2: int, j2: int, k2: int|
                                    #[trigger] in_hierarchy_range(self@, i2, j2, k2) && scan_lt(
                                        i2,
                                        j2,
                                        k2,
                                        i as int,
                                        j as int,
                                        k as int + 1,
                                    ) implies op_listed(self@, infos@, to_move@, i2, j2, k2) by {
                                    if scan_lt(i2, j2, k2, i as int, j as int, k as int) {
                                        match rule_for_window(
                                            self@.workspace_rules,
                                            infos@,
                                            visible_hwnd_at(self@, i2, j2, k2),
                                        ) {
                                            Some(r2) => {
                                                lemma_push_keeps(
                                                    prev,
                                                    op,
                                                    rule_op_at(self@, i2, j2, k2, r2),
                                                );
                                            },
                                            None => {},
                                        }
                                    }
                                }
                            }
                        },
                        None => {},
                    }
                    k = k + 1;
                }
                proof {
                    assert forall|i2: int, j2: int, k2: int|
                        #[trigger] in_hierarchy_range(self@, i2, j2, k2) && scan_lt(
                            i2,
                            j2,
                            k2,
                            i as int,
                            j as int + 1,
                            0,
                        ) implies op_listed(self@, infos@, to_move@, i2, j2, k2) by {
                        assert(scan_lt(i2, j2, k2, i as int, j as int, nv as int));
                    }
                }
                j = j + 1;
            }
            proof {
                assert forall|i2: int, j2: int, k2: int|
                    #[trigger] in_hierarchy_range(self@, i2, j2, k2) && scan_lt(
                        i2,
                        j2,
                        k2,
                        i as int + 1,
                        0,
                        0,
                    ) implies op_listed(self@, infos@, to_move@, i2, j2, k2) by {
                    assert(scan_lt(i2, j2, k2, i as int, nw as int, 0));
                }
            }
            i = i + 1;
        }
        proof {
            assert forall|i2: int, j2: int, k2: int|
                #[trigger] in_hierarchy_range(self@, i2, j2, k2) implies op_listed(
                self@,
                infos@,
                to_move@,
                i2,
                j2,
                k2,
            ) by {
                assert(scan_lt(i2, j2, k2, nmon as int, 0, 0));
            }
        }

        // keep only the operations that actually move a window somewhere
        // other than the focused workspace
        let mut retained: Vec<EnforceWorkspaceRuleOp> = Vec::new();
        let mut x: usize = 0;
        let nops = to_move.len();
        while x < nops
            invariant
                self.wf(),
                *self == *old(self),
                nmon == self@.monitors.len(),
                x <= nops,
                nops == to_move@.len(),
                focused_monitor_idx == self@.focused,
                focused_workspace_idx == wm_focused_monitor(self@).focused,
                forall|y: int|
                    0 <= y < to_move@.len() ==> {
                        let op = #[trigger] to_move@[y];
                        op.origin_monitor_idx < nmon && op.origin_workspace_idx
                            < self@.monitors[op.origin_monitor_idx as int]@.workspaces.len()
                    },
                forall|y: int|
                    0 <= y < to_move@.len() ==> op_sound(self@, infos@, #[trigger] to_move@[y]),
                enforced_now ==> forall|y: int|
                    0 <= y < to_move@.len() ==> op_dropped(
                        #[trigger] to_move@[y],
                        focused_monitor_idx as int,
                        focused_workspace_idx as int,
                    ) || to_move@[y].target_monitor_idx >= nmon
                        || to_move@[y].target_workspace_idx >= usize::MAX,
                forall|y: int|
                    0 <= y < x ==> !op_dropped(
                        #[trigger] to_move@[y],
                        focused_monitor_idx as int,
                        focused_workspace_idx as int,
                    ) ==> retained@.contains(to_move@[y]),
                forall|y: int|
                    0 <= y < retained@.len() ==> {
                        let op = #[trigger] retained@[y];
                        &&& !op_dropped(
                            op,
                            focused_monitor_idx as int,
                            focused_workspace_idx as int,
                        )
                        &&& op_sound(self@, infos@, op)
                        &&& op.origin_monitor_idx < nmon
                        &&& op.origin_workspace_idx
                            < self@.monitors[op.origin_monitor_idx as int]@.workspaces.len()
                    },
                forall|i2: int, j2: int, k2: int|
                    #[trigger] in_hierarchy_range(self@, i2, j2, k2) ==> op_listed(
                        self@,
                        infos@,
                        to_move@,
                        i2,
                        j2,
                        k2,
                    ),
            decreases nops - x,
        {
            let op = to_move[x];
            let keep = !op.is_target(focused_monitor_idx, focused_workspace_idx)
                && !op.is_enforced();
            let ghost prevr = retained@;
            if keep {
                retained.push(op);
            }
            proof {
                if keep {
                    assert(retained@[prevr.len() as int] == op);
                }
                assert forall|y: int|
                    0 <= y < x + 1 && !op_dropped(
                        #[trigger] to_move@[y],
                        focused_monitor_idx as int,
                        focused_workspace_idx as int,
                    ) implies retained@.contains(to_move@[y]) by {
                    if y < x {
                        if keep {
                            lemma_push_keeps(prevr, op, to_move@[y]);
                        }
                    }
                }
            }
            x = x + 1;
        }

        // a rule that names a monitor that does not exist is refused
        // before anything moves
        let np = retained.len();
        let mut v: usize = 0;
        while v < np
            invariant
                self.wf(),
                *self == *old(self),
                nmon == self@.monitors.len(),
                v <= np,
                np == retained@.len(),
                focused_monitor_idx == self@.focused,
                focused_workspace_idx == wm_focused_monitor(self@).focused,
                enforced_now == rules_enforced(
                    self@,
                    infos@,
                    self@.focused,
                    wm_focused_monitor(self@).focused,
                ),
                forall|y: int|
                    0 <= y < retained@.len() ==> {
                        let op = #[trigger] retained@[y];
                        &&& op_sound(self@, infos@, op)
                        &&& !op_dropped(
                            op,
                            focused_monitor_idx as int,
                            focused_workspace_idx as int,
                        )
                        &&& op.origin_monitor_idx < nmon
                        &&& op.origin_workspace_idx
                            < self@.monitors[op.origin_monitor_idx as int]@.workspaces.len()
                    },
                forall|y: int|
                    0 <= y < to_move@.len() && !op_dropped(
                        #[trigger] to_move@[y],
                        focused_monitor_idx as int,
                        focused_workspace_idx as int,
                    ) ==> retained@.contains(to_move@[y]),
                enforced_now ==> forall|y: int|
                    0 <= y < to_move@.len() ==> op_dropped(
                        #[trigger] to_move@[y],
                        focused_monitor_idx as int,
                        focused_workspace_idx as int,
                    ) || to_move@[y].target_monitor_idx >= nmon
                        || to_move@[y].target_workspace_idx >= usize::MAX,
                forall|i2: int, j2: int, k2: int|
                    #[trigger] in_hierarchy_range(self@, i2, j2, k2) ==> op_listed(
                        self@,
                        infos@,
                        to_move@,
                        i2,
                        j2,
                        k2,
                    ),
                forall|y: int|
                    0 <= y < v ==> (#[trigger] retained@[y]).target_monitor_idx < nmon
                        && retained@[y].target_workspace_idx < usize::MAX,
            decreases np - v,
        {
            let op = retained[v];
            if op.target_monitor_idx >= nmon {
                proof {
                    let (i2, j2, k2): (int, int, int) = choose|i2: int, j2: int, k2: int|
                        {
                            &&& #[trigger] in_hierarchy_range(self@, i2, j2, k2)
                            &&& rule_for_window(
                                self@.workspace_rules,
                                infos@,
                                visible_hwnd_at(self@, i2, j2, k2),
                            ) matches Some(r)
                            &&& op == rule_op_at(
                                self@,
                                i2,
                                j2,
                                k2,
                                rule_for_window(
                                    self@.workspace_rules,
                                    infos@,
                                    visible_hwnd_at(self@, i2, j2, k2),
                                ).unwrap(),
                            )
                        };
                    assert(rule_targets_missing_monitor(self@, infos@));
                }
                return Err(WmError::NoSuchMonitor);
            }
            if op.target_workspace_idx >= usize::MAX {
                proof {
                    let (i2, j2, k2): (int, int, int) = choose|i2: int, j2: int, k2: int|
                        {
                            &&& #[trigger] in_hierarchy_range(self@, i2, j2, k2)
                            &&& rule_for_window(
                                self@.workspace_rules,
                                infos@,
                                visible_hwnd_at(self@, i2, j2, k2),
                            ) matches Some(r)
                            &&& op == rule_op_at(
                                self@,
                                i2,
                                j2,
                                k2,
                                rule_for_window(
                                    self@.workspace_rules,
                                    infos@,
                                    visible_hwnd_at(self@, i2, j2, k2),
                                ).unwrap(),
                            )
                        };
                    assert(rule_targets_limit_workspace(self@, infos@));
                }
                return Err(WmError::NoSuchWorkspace);
            }
            v = v + 1;
        }

        proof {
            // success is owed from here on: no rule names a missing
            // monitor or an unreachable workspace index
            assert forall|i2: int, j2: int, k2: int|
                #[trigger] in_hierarchy_range(self@, i2, j2, k2) implies match rule_for_window(
                self@.workspace_rules,
                infos@,
                visible_hwnd_at(self@, i2, j2, k2),
            ) {
                Some(r) => r.monitor_idx < nmon,
                None => true,
            } by {
                match rule_for_window(
                    self@.workspace_rules,
                    infos@,
                    visible_hwnd_at(self@, i2, j2, k2),
                ) {
                    Some(r) => {
                        if r.monitor_idx >= nmon {
                            let op = rule_op_at(self@, i2, j2, k2, r);
                            assert(!op_dropped(
                                op,
                                focused_monitor_idx as int,
                                focused_workspace_idx as int,
                            ));
                            assert(to_move@.contains(op));
                            let y = choose|y: int|
                                0 <= y < to_move@.len() && to_move@[y] == op;
                            assert(retained@.contains(op));
                            let z = choose|z: int|
                                0 <= z < retained@.len() && retained@[z] == op;
                            assert(retained@[z].target_monitor_idx < nmon);
                            assert(false);
                        }
                    },
                    None => {},
                }
            }
            assert(!rule_targets_missing_monitor(self@, infos@)) by {
                if rule_targets_missing_monitor(self@, infos@) {
                    let (i2, j2, k2): (int, int, int) = choose|i2: int, j2: int, k2: int|
                        #[trigger] in_hierarchy_range(self@, i2, j2, k2) && match rule_for_window(
                            self@.workspace_rules,
                            infos@,
                            visible_hwnd_at(self@, i2, j2, k2),
                        ) {
                            Some(r) => r.monitor_idx >= self@.monitors.len(),
                            None => false,
                        };
                    assert(false);
                }
            }
        }

        if retained.len() == 0 {
            proof {
                // with nothing to move, every applicable rule was dropped,
                // which only happens when it is already satisfied
                assert(rules_applied(
                    self@,
                    self@,
                    infos@,
                    sink.cmds(),
                    focused_monitor_idx as int,
                    focused_workspace_idx as int,
                )) by {
                    assert forall|i2: int, j2: int, k2: int|
                        #[trigger] in_hierarchy_range(self@, i2, j2, k2) implies match rule_for_window(
                        self@.workspace_rules,
                        infos@,
                        visible_hwnd_at(self@, i2, j2, k2),
                    ) {
                        Some(r) => !(!(r.monitor_idx == focused_monitor_idx as int
                            && r.workspace_idx == focused_workspace_idx as int) && !(r.monitor_idx
                            == i2 && r.workspace_idx == j2) && r.monitor_idx
                            < self@.monitors.len() && r.workspace_idx < usize::MAX),
                        None => true,
                    } by {
                        match rule_for_window(
                            self@.workspace_rules,
                            infos@,
                            visible_hwnd_at(self@, i2, j2, k2),
                        ) {
                            Some(r) => {
                                let op = rule_op_at(self@, i2, j2, k2, r);
                                assert(op.origin_monitor_idx as int == i2
                                    && op.origin_workspace_idx as int == j2);
                                assert(op.target_monitor_idx == r.monitor_idx
                                    && op.target_workspace_idx == r.workspace_idx);
                                if !op_dropped(
                                    op,
                                    focused_monitor_idx as int,
                                    focused_workspace_idx as int,
                                ) {
                                    assert(op_listed(self@, infos@, to_move@, i2, j2, k2));
                                    assert(to_move@.contains(op));
                                    let y0 = choose|y0: int|
                                        0 <= y0 < to_move@.len() && to_move@[y0] == op;
                                    assert(!op_dropped(
                                        to_move@[y0],
                                        focused_monitor_idx as int,
                                        focused_workspace_idx as int,
                                    ));
                                    assert(retained@.contains(op));
                                    let z = choose|z: int|
                                        0 <= z < retained@.len() && retained@[z] == op;
                                    assert(false);
                                }
                            },
                            None => {},
                        }
                    }
                }
            }
            return Ok(());
        }

        proof {
            if enforced_now {
                // every applicable operation was dropped or invalid, and
                // the validation pass ruled invalid targets out
                assert(retained@.len() > 0);
                let op = retained@[0];
                assert(to_move@.contains(op)) by {
                    assert(op_sound(self@, infos@, op));
                    let (i2, j2, k2): (int, int, int) = choose|i2: int, j2: int, k2: int|
                        {
                            &&& #[trigger] in_hierarchy_range(self@, i2, j2, k2)
                            &&& rule_for_window(
                                self@.workspace_rules,
                                infos@,
                                visible_hwnd_at(self@, i2, j2, k2),
                            ) matches Some(r)
                            &&& op == rule_op_at(
                                self@,
                                i2,
                                j2,
                                k2,
                                rule_for_window(
                                    self@.workspace_rules,
                                    infos@,
                                    visible_hwnd_at(self@, i2, j2, k2),
                                ).unwrap(),
                            )
                        };
                    assert(op_listed(self@, infos@, to_move@, i2, j2, k2));
                }
                let y = choose|y: int| 0 <= y < to_move@.len() && to_move@[y] == op;
                assert(op_dropped(
                    op,
                    focused_monitor_idx as int,
                    focused_workspace_idx as int,
                ) || op.target_monitor_idx >= nmon || op.target_workspace_idx >= usize::MAX);
                assert(op.target_monitor_idx < nmon && op.target_workspace_idx < usize::MAX);
                assert(false);
            }
        }

        // first pass: take every ruled window out of its origin workspace,
        // hiding it when it leaves the focused workspace
        let mut should_update = false;
        let mut p: usize = 0;
        while p < np
            invariant
                self.wf(),
                np == retained@.len(),
                p <= np,
                nmon == self@.monitors.len(),
                self@.monitors.len() == old(self)@.monitors.len(),
                self@ == (WmView { monitors: self@.monitors, ..old(self)@ }),
                focused_monitor_idx == old(self)@.focused,
                focused_workspace_idx == wm_focused_monitor(old(self)@).focused,
                forall|y: int|
                    0 <= y < to_move@.len() && !op_dropped(
                        #[trigger] to_move@[y],
                        focused_monitor_idx as int,
                        focused_workspace_idx as int,
                    ) ==> retained@.contains(to_move@[y]),
                forall|i2: int, j2: int, k2: int|
                    #[trigger] in_hierarchy_range(old(self)@, i2, j2, k2) ==> op_listed(
                        old(self)@,
                        infos@,
                        to_move@,
                        i2,
                        j2,
                        k2,
                    ),
                forall|y: int|
                    0 <= y < retained@.len() ==> {
                        let op = #[trigger] retained@[y];
                        &&& op.origin_monitor_idx < nmon
                        &&& op.origin_workspace_idx
                            < self@.monitors[op.origin_monitor_idx as int]@.workspaces.len()
                        &&& op.target_monitor_idx < nmon
                        &&& op.target_workspace_idx < usize::MAX
                    },
                forall|y: int|
                    0 <= y < p && (#[trigger] retained@[y]).origin_monitor_idx
                        == focused_monitor_idx && retained@[y].origin_workspace_idx
                        == focused_workspace_idx ==> sink.cmds().contains(
                        OsCommand::Hide(retained@[y].hwnd),
                    ),
                old(sink).wf() ==> sink.wf(),
            decreases np - p,
        {
            let op = retained[p];
            let ghost cmds_before = sink.cmds();
            if op.is_origin(focused_monitor_idx, focused_workspace_idx) {
                let win = Window::new(op.hwnd);
                win.hide_window(sink);
                should_update = true;
            }
            let ghost pre = self@;
            let m = self.monitors.get_mut(op.origin_monitor_idx);
            let w = m.workspace_mut(op.origin_workspace_idx);
            let _ = w.remove_window(op.hwnd);
            proof {
                assert forall|ii: int| 0 <= ii < self@.monitors.len() implies (
                #[trigger] self@.monitors[ii]).wf() by {
                    if ii == op.origin_monitor_idx as int {
                        let mv0 = pre.monitors[ii]@;
                        let mv1 = self@.monitors[ii]@;
                        assert forall|kk: int|
                            0 <= kk < mv1.workspaces.len() implies (
                        #[trigger] mv1.workspaces[kk]).wf() by {
                            if kk != op.origin_workspace_idx as int {
                                assert(mv1.workspaces[kk] == pre.monitors[ii]@.workspaces[kk]);
                            }
                        }
                    } else {
                        assert(self@.monitors[ii] == pre.monitors[ii]);
                    }
                }
                assert forall|y: int|
                    0 <= y < retained@.len() implies {
                    let op2 = #[trigger] retained@[y];
                    op2.origin_workspace_idx
                        < self@.monitors[op2.origin_monitor_idx as int]@.workspaces.len()
                } by {
                    let op2 = retained@[y];
                    if op2.origin_monitor_idx != op.origin_monitor_idx {
                        assert(self@.monitors[op2.origin_monitor_idx as int] == pre.monitors[op2.origin_monitor_idx as int]);
                    }
                }
                assert forall|y: int|
                    0 <= y < p + 1 && (#[trigger] retained@[y]).origin_monitor_idx
                        == focused_monitor_idx && retained@[y].origin_workspace_idx
                        == focused_workspace_idx implies sink.cmds().contains(
                    OsCommand::Hide(retained@[y].hwnd),
                ) by {
                    let hides = op.origin_monitor_idx == focused_monitor_idx
                        && op.origin_workspace_idx == focused_workspace_idx;
                    if y < p {
                        if hides {
                            lemma_push_keeps(
                                cmds_before,
                                OsCommand::Hide(op.hwnd),
                                OsCommand::Hide(retained@[y].hwnd),
                            );
                        }
                    } else {
                        if hides {
                            assert(sink.cmds().contains(OsCommand::Hide(op.hwnd))) by {
                                assert(sink.cmds()[cmds_before.len() as int] == OsCommand::Hide(
                                    op.hwnd,
                                ));
                            }
                        }
                    }
                }
            }
            p = p + 1;
        }

        // second pass: hand every removed window to its target workspace
        let ghost cmds_after_pass1 = sink.cmds();
        let mut q: usize = 0;
        while q < np
            invariant
                self.wf(),
                np == retained@.len(),
                q <= np,
                nmon == self@.monitors.len(),
                self@.monitors.len() == old(self)@.monitors.len(),
                self@ == (WmView { monitors: self@.monitors, ..old(self)@ }),
                sink.cmds() == cmds_after_pass1,
                focused_monitor_idx == old(self)@.focused,
                focused_workspace_idx == wm_focused_monitor(old(self)@).focused,
                forall|y: int|
                    0 <= y < to_move@.len() && !op_dropped(
                        #[trigger] to_move@[y],
                        focused_monitor_idx as int,
                        focused_workspace_idx as int,
                    ) ==> retained@.contains(to_move@[y]),
                forall|i2: int, j2: int, k2: int|
                    #[trigger] in_hierarchy_range(old(self)@, i2, j2, k2) ==> op_listed(
                        old(self)@,
                        infos@,
                        to_move@,
                        i2,
                        j2,
                        k2,
                    ),
                forall|y: int|
                    0 <= y < p && (#[trigger] retained@[y]).origin_monitor_idx
                        == focused_monitor_idx && retained@[y].origin_workspace_idx
                        == focused_workspace_idx ==> sink.cmds().contains(
                        OsCommand::Hide(retained@[y].hwnd),
                    ),
                forall|y: int|
                    0 <= y < retained@.len() ==> {
                        let op = #[trigger] retained@[y];
                        op.target_monitor_idx < nmon && op.target_workspace_idx < usize::MAX
                    },
                forall|y: int|
                    0 <= y < q ==> {
                        let op = #[trigger] retained@[y];
                        &&& (op.target_workspace_idx as int)
                            < self@.monitors[op.target_monitor_idx as int]@.workspaces.len()
                        &&& crate::workspace::view_tiled_contains(
                            self@.monitors[op.target_monitor_idx as int]@.workspaces[op.target_workspace_idx as int]@,
                            op.hwnd,
                        )
                    },
                old(sink).wf() ==> sink.wf(),
            decreases np - q,
        {
            let op = retained[q];
            let ghost pre = self@;
            let m = self.monitors.get_mut(op.target_monitor_idx);
            m.ensure_workspace_count(op.target_workspace_idx + 1);
            let w = m.workspace_mut(op.target_workspace_idx);
            w.new_container_for_window(Window::new(op.hwnd));
            proof {
                assert forall|ii: int| 0 <= ii < self@.monitors.len() implies (
                #[trigger] self@.monitors[ii]).wf() by {
                    if ii == op.target_monitor_idx as int {
                        let mv0 = pre.monitors[ii]@;
                        let mv1 = self@.monitors[ii]@;
                        assert forall|kk: int|
                            0 <= kk < mv1.workspaces.len() implies (
                        #[trigger] mv1.workspaces[kk]).wf() by {
                            if kk != op.target_workspace_idx as int {
                                if kk < mv0.workspaces.len() {
                                    assert(mv1.workspaces[kk] == mv0.workspaces[kk]);
                                }
                            }
                        }
                    } else {
                        assert(self@.monitors[ii] == pre.monitors[ii]);
                    }
                }
                let tgt = self@.monitors[op.target_monitor_idx as int]@.workspaces[op.target_workspace_idx as int]@;
                assert(crate::workspace::view_tiled_contains(tgt, op.hwnd)) by {
                    assert(tgt.containers.last().windows_seq() == seq![Window { hwnd: op.hwnd }]);
                    assert(tgt.containers.last().contains_hwnd(op.hwnd)) by {
                        assert(tgt.containers.last().windows_seq()[0].hwnd == op.hwnd);
                    }
                    assert(tgt.containers[tgt.containers.len() - 1].contains_hwnd(op.hwnd));
                }
                assert forall|y: int|
                    0 <= y < q + 1 implies {
                    let op2 = #[trigger] retained@[y];
                    &&& (op2.target_workspace_idx as int)
                        < self@.monitors[op2.target_monitor_idx as int]@.workspaces.len()
                    &&& crate::workspace::view_tiled_contains(
                        self@.monitors[op2.target_monitor_idx as int]@.workspaces[op2.target_workspace_idx as int]@,
                        op2.hwnd,
                    )
                } by {
                    let op2 = retained@[y];
                    if y < q {
                        if op2.target_monitor_idx == op.target_monitor_idx {
                            let mv0 = pre.monitors[op.target_monitor_idx as int]@;
                            let mv1 = self@.monitors[op.target_monitor_idx as int]@;
                            if op2.target_workspace_idx == op.target_workspace_idx {
                                let w0 = mv0.workspaces[op2.target_workspace_idx as int]@;
                                let w1 = mv1.workspaces[op2.target_workspace_idx as int]@;
                                assert(crate::workspace::view_tiled_contains(w0, op2.hwnd));
                                let ci = choose|ci: int|
                                    0 <= ci < w0.containers.len() && (
                                    #[trigger] w0.containers[ci]).contains_hwnd(op2.hwnd);
                                assert(w1.containers[ci] == w0.containers[ci]);
                            } else {
                                assert(mv1.workspaces[op2.target_workspace_idx as int]
                                    == mv0.workspaces[op2.target_workspace_idx as int]);
                            }
                        } else {
                            assert(self@.monitors[op2.target_monitor_idx as int]
                                == pre.monitors[op2.target_monitor_idx as int]);
                        }
                    }
                }
            }
            q = q + 1;
        }

        let ghost state_after_passes = self@;
        let ghost cmds_after_passes = sink.cmds();
        if should_update {
            let ur = self.update_focused_workspace(false, sink);
            proof {
                if ur is Err {
                    assert(false);
                }
            }
        }
        proof {
            assert forall|c: OsCommand| #[trigger] cmds_after_passes.contains(c)
                implies sink.cmds().contains(c) by {
                if should_update {
                    lemma_add_keeps(
                        cmds_after_passes,
                        spec_project_cmds(
                            state_after_passes.monitors[state_after_passes.focused],
                            false,
                        ),
                        c,
                    );
                } else {
                }
            }
            assert(rules_applied(
                old(self)@,
                self@,
                infos@,
                sink.cmds(),
                focused_monitor_idx as int,
                focused_workspace_idx as int,
            )) by {
                assert forall|i2: int, j2: int, k2: int|
                    #[trigger] in_hierarchy_range(old(self)@, i2, j2, k2) implies match rule_for_window(
                    old(self)@.workspace_rules,
                    infos@,
                    visible_hwnd_at(old(self)@, i2, j2, k2),
                ) {
                    Some(r) => (!(r.monitor_idx == focused_monitor_idx as int && r.workspace_idx
                        == focused_workspace_idx as int) && !(r.monitor_idx == i2
                        && r.workspace_idx == j2) && r.monitor_idx < old(self)@.monitors.len()
                        && r.workspace_idx < usize::MAX) ==> {
                        &&& (r.workspace_idx as int)
                            < self@.monitors[r.monitor_idx as int]@.workspaces.len()
                        &&& crate::workspace::view_tiled_contains(
                            self@.monitors[r.monitor_idx as int]@.workspaces[r.workspace_idx as int]@,
                            visible_hwnd_at(old(self)@, i2, j2, k2),
                        )
                        &&& (i2 == focused_monitor_idx as int && j2
                            == focused_workspace_idx as int) ==> sink.cmds().contains(
                            OsCommand::Hide(visible_hwnd_at(old(self)@, i2, j2, k2)),
                        )
                    },
                    None => true,
                } by {
                    match rule_for_window(
                        old(self)@.workspace_rules,
                        infos@,
                        visible_hwnd_at(old(self)@, i2, j2, k2),
                    ) {
                        Some(r) => {
                            if !(r.monitor_idx == focused_monitor_idx as int && r.workspace_idx
                                == focused_workspace_idx as int) && !(r.monitor_idx == i2
                                && r.workspace_idx == j2) && r.monitor_idx < old(
                                self,
                            )@.monitors.len() && r.workspace_idx < usize::MAX {
                                let op = rule_op_at(old(self)@, i2, j2, k2, r);
                                assert(op.origin_monitor_idx as int == i2
                                    && op.origin_workspace_idx as int == j2);
                                assert(op.target_monitor_idx == r.monitor_idx
                                    && op.target_workspace_idx == r.workspace_idx);
                                assert(!op_dropped(
                                    op,
                                    focused_monitor_idx as int,
                                    focused_workspace_idx as int,
                                ));
                                assert(op_listed(old(self)@, infos@, to_move@, i2, j2, k2));
                                assert(to_move@.contains(op));
                                let y0 = choose|y0: int|
                                    0 <= y0 < to_move@.len() && to_move@[y0] == op;
                                assert(retained@.contains(op));
                                let z = choose|z: int|
                                    0 <= z < retained@.len() && retained@[z] == op;
                                assert((op.target_workspace_idx as int)
                                    < state_after_passes.monitors[op.target_monitor_idx as int]@.workspaces.len());
                                assert(crate::workspace::view_tiled_contains(
                                    state_after_passes.monitors[op.target_monitor_idx as int]@.workspaces[op.target_workspace_idx as int]@,
                                    op.hwnd,
                                ));
                                assert(self@ == state_after_passes);
                                if i2 == focused_monitor_idx as int && j2
                                    == focused_workspace_idx as int {
                                    assert(cmds_after_passes.contains(OsCommand::Hide(op.hwnd)));
                                    assert(sink.cmds().contains(OsCommand::Hide(op.hwnd)));
                                }
                            }
                        },
                        None => {},
                    }
                }
            }
        }
        Ok(())
    }
}


/// A snapshot of the manager for the state document: the monitor
/// hierarchy, the paused flag and the five identifier lists, decoupled
/// from the live manager so a host can serialize it while the reducers
/// keep running.
#[derive(Debug)]
#[verifier::ext_equal]
pub struct State {
    pub monitors: Ring<Monitor>,
    pub is_paused: bool,
    pub float_identifiers: Vec<String>,
    pub manage_identifiers: Vec<String>,
    pub layered_exe_whitelist: Vec<String>,
    pub tray_and_multi_window_exes: Vec<String>,
    pub tray_and_multi_window_classes: Vec<String>,
}

/// A copy of a list of identifiers, value for value.
fn duplicated_strings(v: &Vec<String>) -> (r: Vec<String>)
    ensures
        r@ == v@,
{
    let mut out: Vec<String> = Vec::new();
    let n = v.len();
    let mut i: usize = 0;
    while i < n
        invariant
            n == v@.len(),
            i <= n,
            out@ == v@.take(i as int),
        decreases n - i,
    {
        out.push(v[i].clone());
        proof {
            assert(out@ =~= v@.take(i + 1));
        }
        i = i + 1;
    }
    proof {
        assert(out@ =~= v@);
    }
    out
}

impl State {
    /// Snapshot the manager: the monitors are state-equal copies, the
    /// paused flag and the identifier lists are taken as they stand.
    pub fn from_manager(wm: &WindowManager) -> (r: State)
        ensures
            r.monitors.seq().len() == wm@.monitors.len(),
            forall|i: int|
                0 <= i < wm@.monitors.len() ==> crate::monitor::same_monitor_state(
                    wm@.monitors[i],
                    #[trigger] r.monitors.seq()[i],
                ),
            r.monitors.focused_spec() == wm@.focused,
            r.is_paused == wm@.is_paused,
            r.float_identifiers@ == wm@.float_identifiers,
            r.manage_identifiers@ == wm@.manage_identifiers,
            r.layered_exe_whitelist@ == wm@.layered_exe_whitelist,
            r.tray_and_multi_window_exes@ == wm@.tray_and_multi_window_exes,
            r.tray_and_multi_window_classes@ == wm@.tray_and_multi_window_classes,
    {
        let mut monitors: Vec<Monitor> = Vec::new();
        let n = wm.monitors.len();
        let mut i: usize = 0;
        while i < n
            invariant
                n == wm@.monitors.len(),
                i <= n,
                monitors@.len() == i,
                forall|j: int|
                    0 <= j < i ==> crate::monitor::same_monitor_state(
                        wm@.monitors[j],
                        #[trigger] monitors@[j],
                    ),
            decreases n - i,
        {
            monitors.push(wm.monitors.get(i).unwrap().duplicated());
            i = i + 1;
        }
        State {
            monitors: Ring::from_parts(monitors, wm.monitors.focused_idx()),
            is_paused: wm.is_paused,
            float_identifiers: duplicated_strings(&wm.float_identifiers),
            manage_identifiers: duplicated_strings(&wm.manage_identifiers),
            layered_exe_whitelist: duplicated_strings(&wm.layered_exe_whitelist),
            tray_and_multi_window_exes: duplicated_strings(&wm.tray_and_multi_window_exes),
            tray_and_multi_window_classes: duplicated_strings(&wm.tray_and_multi_window_classes),
        }
    }
}

} // verus!