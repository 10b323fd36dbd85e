//! A monitor: a ring of workspaces pinned to one physical display
//! rectangle, plus a persistent map from workspace index to name.

use vstd::prelude::*;

use crate::container::spec_load_cmds;
use crate::container::Container;
use crate::error::WmError;
use crate::os::OsCommand;
use crate::os::OsSink;
use crate::rect::Rect;
use crate::ring::Ring;
use crate::workspace::default_workspace_view;
use crate::workspace::spec_update_cmds;
use crate::workspace::Workspace;
use crate::workspace::WorkspaceView;

verus! {

/// One physical display.
#[derive(Debug, Clone)]
#[verifier::ext_equal]
pub struct Monitor {
    id: isize,
    work_area_size: Rect,
    workspaces: Ring<Workspace>,
    workspace_names: Vec<(usize, String)>,
}

/// The mathematical state of a monitor.
#[verifier::ext_equal]
pub ghost struct MonitorView {
    pub id: isize,
    pub work_area: Rect,
    pub workspaces: Seq<Workspace>,
    pub focused: int,
    pub names: Seq<(usize, String)>,
}

impl View for Monitor {
    type V = MonitorView;

    closed spec fn view(&self) -> MonitorView {
        MonitorView {
            id: self.id,
            work_area: self.work_area_size,
            workspaces: self.workspaces.seq(),
            focused: self.workspaces.focused_spec(),
            names: self.workspace_names@,
        }
    }
}

/// The monitor invariant: at least one workspace, a valid focused index,
/// every workspace well-formed, and a work area within the coordinate
/// bounds.
pub open spec fn monitor_wf(v: MonitorView) -> bool {
    &&& v.workspaces.len() >= 1
    &&& 0 <= v.focused < v.workspaces.len()
    &&& forall|i: int| 0 <= i < v.workspaces.len() ==> (#[trigger] v.workspaces[i]).wf()
    &&& v.work_area.in_bounds()
}

/// The hide calls for every window of one container, in index order.
pub open spec fn spec_hide_container_cmds(c: Container) -> Seq<OsCommand> {
    Seq::new(c.windows_seq().len(), |j: int| OsCommand::Hide(c.windows_seq()[j].hwnd))
}

/// The hide calls for every window of containers `i..`.
pub open spec fn spec_hide_all_cmds(cs: Seq<Container>, i: int) -> Seq<OsCommand>
    decreases cs.len() - i,
{
    if i < 0 || i >= cs.len() {
        Seq::empty()
    } else {
        spec_hide_container_cmds(cs[i]) + spec_hide_all_cmds(cs, i + 1)
    }
}

/// The visibility calls that present containers `i..` of a focused
/// workspace: each container restores its focused window and hides the
/// rest.
pub open spec fn spec_load_all_cmds(cs: Seq<Container>, i: int) -> Seq<OsCommand>
    decreases cs.len() - i,
{
    if i < 0 || i >= cs.len() {
        Seq::empty()
    } else {
        spec_load_cmds(cs[i].windows_seq(), cs[i].focused_window_spec()) + spec_load_all_cmds(
            cs,
            i + 1,
        )
    }
}

/// The hide calls for every window one workspace tracks: its tiled
/// containers, its floating windows, a monocle-stashed container and a
/// maximized window.
pub open spec fn spec_hide_workspace_cmds(w: Workspace) -> Seq<OsCommand> {
    spec_hide_all_cmds(w@.containers, 0) + Seq::new(
        w@.floating.len(),
        |x: int| OsCommand::Hide(w@.floating[x].hwnd),
    ) + (match w@.monocle {
        Some(c) => spec_hide_container_cmds(c),
        None => Seq::empty(),
    }) + (match w@.maximized {
        Some(win) => seq![OsCommand::Hide(win.hwnd)],
        None => Seq::empty(),
    })
}

/// The visibility calls that realise workspace focus on one monitor: the
/// focused workspace presents its containers, every other workspace hides
/// every window it tracks.
pub open spec fn spec_load_monitor_cmds(wss: Seq<Workspace>, focused: int, i: int) -> Seq<
    OsCommand,
>
    decreases wss.len() - i,
{
    if i < 0 || i >= wss.len() {
        Seq::empty()
    } else {
        (if i == focused {
            spec_load_all_cmds(wss[i]@.containers, 0)
        } else {
            spec_hide_workspace_cmds(wss[i])
        }) + spec_load_monitor_cmds(wss, focused, i + 1)
    }
}

/// Hide every window a workspace tracks: tiled, floating,
/// monocle-stashed and maximized.
fn hide_workspace_containers(w: &Workspace, sink: &mut OsSink)
    requires
        w.wf(),
    ensures
        final(sink).cmds() == old(sink).cmds() + spec_hide_workspace_cmds(*w),
        old(sink).wf() ==> final(sink).wf(),
{
    let cs = w.containers();
    let n = cs.len();
    let mut i: usize = 0;
    while i < n
        invariant
            w.wf(),
            cs.seq() == w@.containers,
            n == w@.containers.len(),
            i <= n,
            old(sink).cmds() + spec_hide_all_cmds(w@.containers, 0) == sink.cmds()
                + spec_hide_all_cmds(w@.containers, i as int),
            old(sink).wf() ==> sink.wf(),
        decreases n - i,
    {
        let c = cs.get(i).unwrap();
        let ws = c.windows();
        let m = ws.len();
        let ghost pre = sink.cmds();
        let mut j: usize = 0;
        while j < m
            invariant
                w.wf(),
                cs.seq() == w@.containers,
                i < w@.containers.len(),
                *c == w@.containers[i as int],
                ws.seq() == c.windows_seq(),
                m == c.windows_seq().len(),
                j <= m,
                sink.cmds() == pre + spec_hide_container_cmds(*c).take(j as int),
                old(sink).wf() ==> sink.wf(),
            decreases m - j,
        {
            let win = *ws.get(j).unwrap();
            win.hide_window(sink);
            proof {
                assert(sink.cmds() =~= pre + spec_hide_container_cmds(*c).take(j + 1));
            }
            j = j + 1;
        }
        proof {
            assert(spec_hide_container_cmds(*c).take(m as int) =~= spec_hide_container_cmds(*c));
            assert(old(sink).cmds() + spec_hide_all_cmds(w@.containers, 0) =~= sink.cmds()
                + spec_hide_all_cmds(w@.containers, i + 1));
        }
        i = i + 1;
    }
    let ghost after_tiled = sink.cmds();
    let fl = w.floating_windows();
    let nf = fl.len();
    let mut x: usize = 0;
    while x < nf
        invariant
            w.wf(),
            fl@ == w@.floating,
            nf == w@.floating.len(),
            x <= nf,
            sink.cmds() == after_tiled + Seq::new(
                w@.floating.len(),
                |y: int| OsCommand::Hide(w@.floating[y].hwnd),
            ).take(x as int),
            old(sink).wf() ==> sink.wf(),
        decreases nf - x,
    {
        fl[x].hide_window(sink);
        proof {
            assert(sink.cmds() =~= after_tiled + Seq::new(
                w@.floating.len(),
                |y: int| OsCommand::Hide(w@.floating[y].hwnd),
            ).take(x + 1));
        }
        x = x + 1;
    }
    proof {
        assert(Seq::new(
            w@.floating.len(),
            |y: int| OsCommand::Hide(w@.floating[y].hwnd),
        ).take(nf as int) =~= Seq::new(
            w@.floating.len(),
            |y: int| OsCommand::Hide(w@.floating[y].hwnd),
        ));
    }
    match w.monocle_container() {
        Some(c) => {
            let ghost before = sink.cmds();
            let ws2 = c.windows();
            let m2 = ws2.len();
            let mut j2: usize = 0;
            while j2 < m2
                invariant
                    ws2.seq() == c.windows_seq(),
                    m2 == c.windows_seq().len(),
                    j2 <= m2,
                    sink.cmds() == before + spec_hide_container_cmds(*c).take(j2 as int),
                    old(sink).wf() ==> sink.wf(),
                decreases m2 - j2,
            {
                let win = *ws2.get(j2).unwrap();
                win.hide_window(sink);
                proof {
                    assert(sink.cmds() =~= before + spec_hide_container_cmds(*c).take(j2 + 1));
                }
                j2 = j2 + 1;
            }
            proof {
                assert(spec_hide_container_cmds(*c).take(m2 as int)
                    =~= spec_hide_container_cmds(*c));
            }
        },
        None => {},
    }
    match w.maximized_window() {
        Some(win) => {
            win.hide_window(sink);
        },
        None => {},
    }
    proof {
        assert(sink.cmds() =~= old(sink).cmds() + spec_hide_workspace_cmds(*w));
    }
}

/// Present every container of the focused workspace: restore its focused
/// window, hide the rest.
fn load_workspace_containers(w: &Workspace, sink: &mut OsSink)
    requires
        w.wf(),
    ensures
        final(sink).cmds() == old(sink).cmds() + spec_load_all_cmds(w@.containers, 0),
        old(sink).wf() ==> final(sink).wf(),
{
    let cs = w.containers();
    let n = cs.len();
    let mut i: usize = 0;
    while i < n
        invariant
            w.wf(),
            cs.seq() == w@.containers,
            n == w@.containers.len(),
            i <= n,
            old(sink).cmds() + spec_load_all_cmds(w@.containers, 0) == sink.cmds()
                + spec_load_all_cmds(w@.containers, i as int),
            old(sink).wf() ==> sink.wf(),
        decreases n - i,
    {
        let c = cs.get(i).unwrap();
        c.load_focused_window(sink);
        proof {
            assert(old(sink).cmds() + spec_load_all_cmds(w@.containers, 0) =~= sink.cmds()
                + spec_load_all_cmds(w@.containers, i + 1));
        }
        i = i + 1;
    }
}

/// The shape of a container move between workspaces of one monitor: the
/// focused workspace lost its focused container, the target workspace
/// (created as a fresh default if it did not exist) gained it at the end
/// and focused it, workspaces were created up to the target index, and
/// the workspace focus moved to the target exactly when the move was
/// followed.
pub open spec fn moved_container_to_workspace(
    m0: MonitorView,
    m1: MonitorView,
    idx: int,
    follow: bool,
) -> bool {
    let src0 = m0.workspaces[m0.focused]@;
    let c = src0.containers[src0.focused];
    let grown = if m0.workspaces.len() >= idx + 1 {
        m0.workspaces.len() as int
    } else {
        idx + 1
    };
    &&& m1.workspaces.len() == grown
    &&& m1.focused == (if follow {
        idx
    } else {
        m0.focused
    })
    &&& (idx != m0.focused ==> {
        &&& m1.workspaces[m0.focused]@ == (WorkspaceView {
            containers: src0.containers.remove(src0.focused),
            focused: Ring::<Container>::focus_after_remove(
                src0.focused,
                src0.focused,
                src0.containers.len() as int,
            ),
            resize: src0.resize.remove(src0.focused),
            ..src0
        })
        &&& {
            let t0 = if idx < m0.workspaces.len() {
                m0.workspaces[idx]@
            } else {
                default_workspace_view()
            };
            m1.workspaces[idx]@ == (WorkspaceView {
                containers: t0.containers.push(c),
                focused: t0.containers.len() as int,
                resize: t0.resize.push(None),
                ..t0
            })
        }
        &&& forall|j: int|
            0 <= j < m0.workspaces.len() && j != m0.focused && j != idx ==> m1.workspaces[j]
                == m0.workspaces[j]
        &&& forall|j: int|
            m0.workspaces.len() <= j < grown && j != idx ==> (#[trigger] m1.workspaces[j])@
                == default_workspace_view()
    })
    &&& m1 == (MonitorView { workspaces: m1.workspaces, focused: m1.focused, ..m0 })
}

impl Monitor {
    /// The monitor invariant on this monitor's state.
    pub open spec fn wf(self) -> bool {
        monitor_wf(self@)
    }


    /// A monitor for the display `id` covering `work_area`, with one fresh
    /// workspace.
    pub fn new(id: isize, work_area: Rect) -> (r: Monitor)
        requires
            work_area.in_bounds(),
        ensures
            r.wf(),
            r@.id == id,
            r@.work_area == work_area,
            r@.workspaces.len() == 1,
            r@.workspaces[0]@ == default_workspace_view(),
            r@.focused == 0,
            r@.names == Seq::<(usize, String)>::empty(),
    {
        let mut workspaces: Ring<Workspace> = Ring::new();
        workspaces.push_back(Workspace::new());
        Monitor { id, work_area_size: work_area, workspaces, workspace_names: Vec::new() }
    }

    pub fn id(&self) -> (r: isize)
        ensures
            r == self@.id,
    {
        self.id
    }

    pub fn work_area_size(&self) -> (r: &Rect)
        ensures
            *r == self@.work_area,
    {
        &self.work_area_size
    }

    pub fn workspaces(&self) -> (r: &Ring<Workspace>)
        ensures
            r.seq() == self@.workspaces,
            r.focused_spec() == self@.focused,
    {
        &self.workspaces
    }

    pub fn focused_workspace_idx(&self) -> (r: usize)
        ensures
            r == self@.focused,
    {
        self.workspaces.focused_idx()
    }

    pub fn focused_workspace(&self) -> (r: Option<&Workspace>)
        requires
            self.wf(),
        ensures
            match r {
                Some(w) => self@.workspaces.len() > 0 && *w == self@.workspaces[self@.focused],
                None => self@.workspaces.len() == 0,
            },
    {
        self.workspaces.focused()
    }

    /// A mutable borrow of the focused workspace.
    pub fn focused_workspace_mut(&mut self) -> (r: &mut Workspace)
        requires
            old(self).wf(),
        ensures
            *r == old(self)@.workspaces[old(self)@.focused],
            final(self)@ == (MonitorView {
                workspaces: old(self)@.workspaces.update(old(self)@.focused, *final(r)),
                ..old(self)@
            }),
    {
        self.workspaces.focused_mut()
    }

    /// A mutable borrow of the workspace at `idx`.
    pub fn workspace_mut(&mut self, idx: usize) -> (r: &mut Workspace)
        requires
            idx < old(self)@.workspaces.len(),
        ensures
            *r == old(self)@.workspaces[idx as int],
            final(self)@ == (MonitorView {
                workspaces: old(self)@.workspaces.update(idx as int, *final(r)),
                ..old(self)@
            }),
    {
        self.workspaces.get_mut(idx)
    }

    pub fn workspace_names(&self) -> (r: &Vec<(usize, String)>)
        ensures
            r@ == self@.names,
    {
        &self.workspace_names
    }

    /// Record a persistent name for the workspace at `idx`, replacing an
    /// earlier record for the same index.
    pub fn upsert_workspace_name(&mut self, idx: usize, name: String)
        ensures
            final(self)@.names.len() <= old(self)@.names.len() + 1,
            exists|k: int|
                0 <= k < final(self)@.names.len() && final(self)@.names[k] == (idx, name),
            final(self)@ == (MonitorView { names: final(self)@.names, ..old(self)@ }),
            old(self).wf() ==> final(self).wf(),
    {
        let mut k: usize = 0;
        let n = self.workspace_names.len();
        while k < n
            invariant
                n == self@.names.len(),
                k <= n,
                *self == *old(self),
            decreases n - k,
        {
            if self.workspace_names[k].0 == idx {
                self.workspace_names[k] = (idx, name);
                proof {
                    assert(self@.names[k as int] == (idx, name));
                }
                return ;
            }
            k = k + 1;
        }
        self.workspace_names.push((idx, name));
        proof {
            assert(self@.names[self@.names.len() - 1] == (idx, name));
        }
    }

    /// The index a newly created workspace would take.
    pub fn new_workspace_idx(&self) -> (r: usize)
        ensures
            r == self@.workspaces.len(),
    {
        self.workspaces.len()
    }

    /// Grow the workspace ring until it holds at least `n` workspaces;
    /// never shrinks.
    pub fn ensure_workspace_count(&mut self, n: usize)
        requires
            old(self).wf(),
        ensures
            final(self)@.workspaces.len() == (if old(self)@.workspaces.len() >= n {
                old(self)@.workspaces.len() as int
            } else {
                n as int
            }),
            forall|i: int|
                0 <= i < old(self)@.workspaces.len() ==> final(self)@.workspaces[i] == old(
                    self,
                )@.workspaces[i],
            forall|i: int|
                old(self)@.workspaces.len() <= i < final(self)@.workspaces.len() ==> (
                #[trigger] final(self)@.workspaces[i])@ == default_workspace_view(),
            final(self)@ == (MonitorView {
                workspaces: final(self)@.workspaces,
                ..old(self)@
            }),
            final(self).wf(),
    {
        while self.workspaces.len() < n
            invariant
                old(self).wf(),
                self@.workspaces.len() >= old(self)@.workspaces.len(),
                self@.workspaces.len() < n || self@.workspaces.len() == (if old(
                    self,
                )@.workspaces.len() >= n {
                    old(self)@.workspaces.len() as int
                } else {
                    n as int
                }),
                forall|i: int|
                    0 <= i < old(self)@.workspaces.len() ==> self@.workspaces[i] == old(
                        self,
                    )@.workspaces[i],
                forall|i: int|
                    old(self)@.workspaces.len() <= i < self@.workspaces.len() ==> (
                    #[trigger] self@.workspaces[i])@ == default_workspace_view(),
                self@ == (MonitorView { workspaces: self@.workspaces, ..old(self)@ }),
                self.wf(),
            decreases n - self@.workspaces.len(),
        {
            self.workspaces.push_back(Workspace::new());
        }
    }

    /// Add a container to the focused workspace.
    pub fn add_container(&mut self, container: Container) -> (r: Result<(), WmError>)
        requires
            old(self).wf(),
            container.wf(),
            container.windows_seq().len() > 0,
        ensures
            r is Ok,
            final(self)@.workspaces.len() == old(self)@.workspaces.len(),
            final(self)@.workspaces[old(self)@.focused]@ == (WorkspaceView {
                containers: old(self)@.workspaces[old(self)@.focused]@.containers.push(container),
                focused: old(self)@.workspaces[old(self)@.focused]@.containers.len() as int,
                resize: old(self)@.workspaces[old(self)@.focused]@.resize.push(None),
                ..old(self)@.workspaces[old(self)@.focused]@
            }),
            final(self)@ == (MonitorView {
                workspaces: old(self)@.workspaces.update(
                    old(self)@.focused,
                    final(self)@.workspaces[old(self)@.focused],
                ),
                ..old(self)@
            }),
            final(self).wf(),
    {
        let ws = self.workspaces.focused_mut();
        ws.add_container(container);
        Ok(())
    }

    /// Move the focused container of the focused workspace to the
    /// workspace at `idx`, creating workspaces up to `idx` if needed, and
    /// optionally follow it with the workspace focus.
    pub fn move_container_to_workspace(&mut self, idx: usize, follow: bool) -> (r: Result<
        (),
        WmError,
    >)
        requires
            old(self).wf(),
            idx < usize::MAX,
        ensures
            match r {
                Ok(()) => {
                    &&& old(self)@.workspaces[old(self)@.focused]@.containers.len() > 0
                    &&& moved_container_to_workspace(old(self)@, final(self)@, idx as int, follow)
                },
                Err(e) => {
                    &&& e == WmError::NoSuchContainer
                    &&& old(self)@.workspaces[old(self)@.focused]@.containers.len() == 0
                    &&& final(self)@ == old(self)@
                },
            },
            final(self).wf(),
    {
        let ws = self.workspaces.focused_mut();
        let c = match ws.remove_focused_container() {
            Some(c) => c,
            None => {
                proof {
                    assert(self@ =~= old(self)@);
                }
                return Err(WmError::NoSuchContainer);
            },
        };
        self.ensure_workspace_count(idx + 1);
        let target = self.workspaces.get_mut(idx);
        target.add_container(c);
        proof {
            assert forall|i: int| 0 <= i < self@.workspaces.len() implies (
            #[trigger] self@.workspaces[i]).wf() by {
            }
        }
        if follow {
            self.workspaces.focus(idx);
        }
        Ok(())
    }

    /// Realise workspace focus: present the containers of the focused
    /// workspace and hide every tiled window of every other workspace on
    /// this monitor.
    pub fn load_focused_workspace(&self, sink: &mut OsSink)
        requires
            self.wf(),
        ensures
            final(sink).cmds() == old(sink).cmds() + spec_load_monitor_cmds(
                self@.workspaces,
                self@.focused,
                0,
            ),
            old(sink).wf() ==> final(sink).wf(),
    {
        let focused_idx = self.workspaces.focused_idx();
        let n = self.workspaces.len();
        let mut i: usize = 0;
        while i < n
            invariant
                self.wf(),
                n == self@.workspaces.len(),
                i <= n,
                focused_idx == self@.focused,
                old(sink).cmds() + spec_load_monitor_cmds(self@.workspaces, self@.focused, 0)
                    == sink.cmds() + spec_load_monitor_cmds(
                    self@.workspaces,
                    self@.focused,
                    i as int,
                ),
                old(sink).wf() ==> sink.wf(),
            decreases n - i,
        {
            let w = self.workspaces.get(i).unwrap();
            if i == focused_idx {
                load_workspace_containers(w, sink);
            } else {
                hide_workspace_containers(w, sink);
            }
            proof {
                assert(old(sink).cmds() + spec_load_monitor_cmds(
                    self@.workspaces,
                    self@.focused,
                    0,
                ) =~= sink.cmds() + spec_load_monitor_cmds(
                    self@.workspaces,
                    self@.focused,
                    i + 1,
                ));
            }
            i = i + 1;
        }
    }

    /// Present the focused workspace: realise workspace focus, then tile
    /// it into the monitor's work area.
    pub fn update_focused_workspace(&self, sink: &mut OsSink)
        requires
            self.wf(),
        ensures
            final(sink).cmds() == old(sink).cmds() + spec_load_monitor_cmds(
                self@.workspaces,
                self@.focused,
                0,
            ) + spec_update_cmds(self@.workspaces[self@.focused]@, self@.work_area),
            old(sink).wf() ==> final(sink).wf(),
    {
        self.load_focused_workspace(sink);
        let ws = self.workspaces.focused().unwrap();
        ws.update(&self.work_area_size, sink);
    }

    /// Focus the workspace at `idx`, creating workspaces up to `idx` if
    /// needed, and realise the focus change on screen.
    pub fn focus_workspace(&mut self, idx: usize, sink: &mut OsSink)
        requires
            old(self).wf(),
            idx < usize::MAX,
        ensures
            final(self)@.focused == idx,
            final(self)@.workspaces.len() >= idx + 1,
            final(self)@.workspaces.len() == (if old(self)@.workspaces.len() >= idx + 1 {
                old(self)@.workspaces.len() as int
            } else {
                idx + 1
            }),
            forall|i: int|
                0 <= i < old(self)@.workspaces.len() ==> final(self)@.workspaces[i] == old(
                    self,
                )@.workspaces[i],
            forall|i: int|
                old(self)@.workspaces.len() <= i < final(self)@.workspaces.len() ==> (
                #[trigger] final(self)@.workspaces[i])@ == default_workspace_view(),
            final(self)@ == (MonitorView {
                workspaces: final(self)@.workspaces,
                focused: idx as int,
                ..old(self)@
            }),
            final(self).wf(),
            final(sink).cmds() == old(sink).cmds() + spec_load_monitor_cmds(
                final(self)@.workspaces,
                idx as int,
                0,
            ),
            old(sink).wf() ==> final(sink).wf(),
    {
        self.ensure_workspace_count(idx + 1);
        self.workspaces.focus(idx);
        self.load_focused_workspace(sink);
    }
}

/// Two monitors carry the same state: the same display identifier and
/// work area, state-equal workspaces, and the same name records.
pub open spec fn same_monitor_state(a: Monitor, b: Monitor) -> bool {
    &&& b@.id == a@.id
    &&& b@.work_area == a@.work_area
    &&& b@.workspaces.len() == a@.workspaces.len()
    &&& forall|j: int|
        0 <= j < a@.workspaces.len() ==> crate::workspace::same_workspace_state(
            a@.workspaces[j],
            #[trigger] b@.workspaces[j],
        )
    &&& b@.focused == a@.focused
    &&& b@.names == a@.names
}

impl Monitor {
    /// A snapshot of this monitor: a fresh value with the same state.
    pub fn duplicated(&self) -> (r: Monitor)
        ensures
            same_monitor_state(*self, r),
    {
        let mut workspaces: Vec<Workspace> = Vec::new();
        let n = self.workspaces.len();
        let mut i: usize = 0;
        while i < n
            invariant
                n == self@.workspaces.len(),
                i <= n,
                workspaces@.len() == i,
                forall|j: int|
                    0 <= j < i ==> crate::workspace::same_workspace_state(
                        self@.workspaces[j],
                        #[trigger] workspaces@[j],
                    ),
            decreases n - i,
        {
            workspaces.push(self.workspaces.get(i).unwrap().duplicated());
            i = i + 1;
        }
        let mut workspace_names: Vec<(usize, String)> = Vec::new();
        let nn = self.workspace_names.len();
        let mut i: usize = 0;
        while i < nn
            invariant
                nn == self@.names.len(),
                i <= nn,
                workspace_names@ == self@.names.take(i as int),
            decreases nn - i,
        {
            let (k, name) = (self.workspace_names[i].0, self.workspace_names[i].1.clone());
            workspace_names.push((k, name));
            proof {
                assert(workspace_names@.last() =~= self@.names[i as int]);
                assert(workspace_names@ =~= self@.names.take(i + 1));
            }
            i = i + 1;
        }
        proof {
            assert(workspace_names@ =~= self@.names);
        }
        Monitor {
            id: self.id,
            work_area_size: self.work_area_size,
            workspaces: Ring::from_parts(workspaces, self.workspaces.focused_idx()),
            workspace_names,
        }
    }
}

} // verus!