//! A workspace: one arrangement of containers on one monitor, together
//! with its overlay states (floating windows, a monocle container, a
//! natively maximized window), paddings, layout choice and flip.
//!
//! The workspace is the main state machine. Its well-formedness ties the
//! structure together: the container ring keeps the focus invariant, no
//! empty container persists, the resize-delta list runs in step with the
//! containers, and at most one of the monocle and maximized overlays is
//! set.

use vstd::prelude::*;

use crate::container::Container;
use crate::direction::OperationDirection;
use crate::error::WmError;
use crate::layout::delta_opt_ok;
use crate::layout::Flip;
use crate::layout::Layout;
use crate::os::OsCommand;
use crate::os::OsSink;
use crate::rect::rect_of_region;
use crate::rect::Rect;
use crate::rect::Region;
use crate::window::spec_border_rect;
use crate::rect::COORD_LIMIT;
use crate::ring::Ring;
use crate::window::Window;

verus! {

/// Where a natively maximized window came from: the container index it was
/// taken out of, the window's index within that container, and the
/// container's id, so the window can be reinserted where it was.
#[derive(Debug, Clone)]
#[verifier::ext_equal]
pub struct MaximizedRestore {
    pub container_idx: usize,
    pub window_idx: usize,
    pub container_id: String,
}

/// One arrangement of containers on one monitor.
#[derive(Debug, Clone)]
#[verifier::ext_equal]
pub struct Workspace {
    name: Option<String>,
    containers: Ring<Container>,
    monocle_container: Option<Container>,
    monocle_restore_idx: Option<usize>,
    maximized_window: Option<Window>,
    maximized_restore: Option<MaximizedRestore>,
    floating_windows: Vec<Window>,
    layout: Layout,
    layout_flip: Option<Flip>,
    workspace_padding: Option<i32>,
    container_padding: Option<i32>,
    resize_dimensions: Vec<Option<Rect>>,
    tile: bool,
}

/// The mathematical state of a workspace.
#[verifier::ext_equal]
pub ghost struct WorkspaceView {
    pub name: Option<String>,
    pub containers: Seq<Container>,
    pub focused: int,
    pub monocle: Option<Container>,
    pub monocle_restore: Option<usize>,
    pub maximized: Option<Window>,
    pub maximized_restore: Option<MaximizedRestore>,
    pub floating: Seq<Window>,
    pub layout: Layout,
    pub layout_flip: Option<Flip>,
    pub workspace_padding: Option<i32>,
    pub container_padding: Option<i32>,
    pub resize: Seq<Option<Rect>>,
    pub tile: bool,
}

impl View for Workspace {
    type V = WorkspaceView;

    closed spec fn view(&self) -> WorkspaceView {
        WorkspaceView {
            name: self.name,
            containers: self.containers.seq(),
            focused: self.containers.focused_spec(),
            monocle: self.monocle_container,
            monocle_restore: self.monocle_restore_idx,
            maximized: self.maximized_window,
            maximized_restore: self.maximized_restore,
            floating: self.floating_windows@,
            layout: self.layout,
            layout_flip: self.layout_flip,
            workspace_padding: self.workspace_padding,
            container_padding: self.container_padding,
            resize: self.resize_dimensions@,
            tile: self.tile,
        }
    }
}

/// The state of a fresh workspace: no containers, bisection layout,
/// tiling on, ten-pixel paddings.
pub open spec fn default_workspace_view() -> WorkspaceView {
    WorkspaceView {
        name: None,
        containers: Seq::<Container>::empty(),
        focused: 0,
        monocle: None,
        monocle_restore: None,
        maximized: None,
        maximized_restore: None,
        floating: Seq::<Window>::empty(),
        layout: Layout::Bsp,
        layout_flip: None,
        workspace_padding: Some(10i32),
        container_padding: Some(10i32),
        resize: Seq::<Option<Rect>>::empty(),
        tile: true,
    }
}

/// A padding that is absent or bounded by the coordinate limit.
pub open spec fn padding_field_ok(p: Option<i32>) -> bool {
    match p {
        None => true,
        Some(p) => -COORD_LIMIT <= p <= COORD_LIMIT,
    }
}

/// The workspace invariant:
/// - the container ring keeps the focus invariant;
/// - every container is well-formed and non-empty (an empty container
///   never persists after a reducer returns);
/// - the resize-delta list has exactly one slot per container, each slot
///   bounded;
/// - at most one of the monocle container and the maximized window is set,
///   and a stashed monocle container is itself well-formed and non-empty;
/// - the paddings are bounded.
pub open spec fn view_wf(v: WorkspaceView) -> bool {
    &&& if v.containers.len() > 0 {
        0 <= v.focused < v.containers.len()
    } else {
        v.focused == 0
    }
    &&& forall|i: int|
        0 <= i < v.containers.len() ==> (#[trigger] v.containers[i]).wf()
            && v.containers[i].windows_seq().len() > 0
    &&& v.resize.len() == v.containers.len()
    &&& forall|i: int| 0 <= i < v.resize.len() ==> delta_opt_ok(#[trigger] v.resize[i])
    &&& !(v.monocle is Some && v.maximized is Some)
    &&& (v.monocle is Some <==> v.monocle_restore is Some)
    &&& (v.maximized is Some <==> v.maximized_restore is Some)
    &&& match v.monocle {
        Some(c) => c.wf() && c.windows_seq().len() > 0,
        None => true,
    }
    &&& padding_field_ok(v.workspace_padding)
    &&& padding_field_ok(v.container_padding)
}

impl Workspace {
    /// The workspace invariant on this workspace's state.
    pub open spec fn wf(self) -> bool {
        view_wf(self@)
    }


    /// A fresh workspace: no containers, bisection layout, tiling on, a
    /// ten-pixel padding at the work-area edges and between containers.
    pub fn new() -> (r: Workspace)
        ensures
            r.wf(),
            r@ == default_workspace_view(),
    {
        Workspace {
            name: None,
            containers: Ring::new(),
            monocle_container: None,
            monocle_restore_idx: None,
            maximized_window: None,
            maximized_restore: None,
            floating_windows: Vec::new(),
            layout: Layout::Bsp,
            layout_flip: None,
            workspace_padding: Some(10),
            container_padding: Some(10),
            resize_dimensions: Vec::new(),
            tile: true,
        }
    }

    pub fn containers(&self) -> (r: &Ring<Container>)
        ensures
            r.seq() == self@.containers,
            r.focused_spec() == self@.focused,
    {
        &self.containers
    }

    pub fn focused_container_idx(&self) -> (r: usize)
        ensures
            r == self@.focused,
    {
        self.containers.focused_idx()
    }

    pub fn focused_container(&self) -> (r: Option<&Container>)
        requires
            self.wf(),
        ensures
            match r {
                Some(c) => self@.containers.len() > 0 && *c == self@.containers[self@.focused],
                None => self@.containers.len() == 0,
            },
    {
        self.containers.focused()
    }

    /// A mutable borrow of the focused container.
    pub fn focused_container_mut(&mut self) -> (r: &mut Container)
        requires
            old(self)@.containers.len() > 0,
            old(self).wf(),
        ensures
            *r == old(self)@.containers[old(self)@.focused],
            final(self)@ == (WorkspaceView {
                containers: old(self)@.containers.update(old(self)@.focused, *final(r)),
                ..old(self)@
            }),
    {
        self.containers.focused_mut()
    }

    pub fn monocle_container(&self) -> (r: &Option<Container>)
        ensures
            *r == self@.monocle,
    {
        &self.monocle_container
    }

    pub fn monocle_restore_idx(&self) -> (r: Option<usize>)
        ensures
            r == self@.monocle_restore,
    {
        self.monocle_restore_idx
    }

    pub fn maximized_window(&self) -> (r: Option<Window>)
        ensures
            r == self@.maximized,
    {
        self.maximized_window
    }

    pub fn maximized_restore(&self) -> (r: &Option<MaximizedRestore>)
        ensures
            *r == self@.maximized_restore,
    {
        &self.maximized_restore
    }

    pub fn floating_windows(&self) -> (r: &Vec<Window>)
        ensures
            r@ == self@.floating,
    {
        &self.floating_windows
    }

    pub fn layout(&self) -> (r: Layout)
        ensures
            r == self@.layout,
    {
        self.layout
    }

    pub fn layout_flip(&self) -> (r: Option<Flip>)
        ensures
            r == self@.layout_flip,
    {
        self.layout_flip
    }

    pub fn workspace_padding(&self) -> (r: Option<i32>)
        ensures
            r == self@.workspace_padding,
    {
        self.workspace_padding
    }

    pub fn container_padding(&self) -> (r: Option<i32>)
        ensures
            r == self@.container_padding,
    {
        self.container_padding
    }

    pub fn resize_dimensions(&self) -> (r: &Vec<Option<Rect>>)
        ensures
            r@ == self@.resize,
    {
        &self.resize_dimensions
    }

    pub fn tile(&self) -> (r: bool)
        ensures
            r == self@.tile,
    {
        self.tile
    }

    pub fn name(&self) -> (r: &Option<String>)
        ensures
            *r == self@.name,
    {
        &self.name
    }

    /// How many containers the workspace arranges.
    pub fn len(&self) -> (r: usize)
        ensures
            r == self@.containers.len(),
    {
        self.containers.len()
    }

    /// Replace the layout algorithm.
    pub fn set_layout(&mut self, layout: Layout)
        ensures
            final(self)@ == (WorkspaceView { layout, ..old(self)@ }),
            old(self).wf() ==> final(self).wf(),
    {
        self.layout = layout;
    }

    /// Replace the flip state.
    pub fn set_layout_flip(&mut self, layout_flip: Option<Flip>)
        ensures
            final(self)@ == (WorkspaceView { layout_flip, ..old(self)@ }),
            old(self).wf() ==> final(self).wf(),
    {
        self.layout_flip = layout_flip;
    }

    /// Replace the outer padding.
    pub fn set_workspace_padding(&mut self, padding: Option<i32>)
        requires
            padding_field_ok(padding),
        ensures
            final(self)@ == (WorkspaceView { workspace_padding: padding, ..old(self)@ }),
            old(self).wf() ==> final(self).wf(),
    {
        self.workspace_padding = padding;
    }

    /// Replace the inter-container padding.
    pub fn set_container_padding(&mut self, padding: Option<i32>)
        requires
            padding_field_ok(padding),
        ensures
            final(self)@ == (WorkspaceView { container_padding: padding, ..old(self)@ }),
            old(self).wf() ==> final(self).wf(),
    {
        self.container_padding = padding;
    }

    /// Switch tiling on or off.
    pub fn set_tile(&mut self, tile: bool)
        ensures
            final(self)@ == (WorkspaceView { tile, ..old(self)@ }),
            old(self).wf() ==> final(self).wf(),
    {
        self.tile = tile;
    }

    /// Rename the workspace.
    pub fn set_name(&mut self, name: Option<String>)
        ensures
            final(self)@ == (WorkspaceView { name, ..old(self)@ }),
            old(self).wf() ==> final(self).wf(),
    {
        self.name = name;
    }

    /// Whether any container of the ring holds the window with this
    /// handle.
    pub open spec fn tiled_contains_hwnd(self, hwnd: isize) -> bool {
        view_tiled_contains(self@, hwnd)
    }

    /// Whether the workspace holds the window anywhere: in a container, in
    /// the floating set, as the maximized window, or in the stashed monocle
    /// container.
    pub open spec fn contains_hwnd(self, hwnd: isize) -> bool {
        view_contains(self@, hwnd)
    }

    /// Whether any container of the ring holds the window.
    pub fn contains_window(&self, hwnd: isize) -> (r: bool)
        ensures
            r == self.tiled_contains_hwnd(hwnd),
    {
        let mut i: usize = 0;
        let n = self.containers.len();
        while i < n
            invariant
                n == self@.containers.len(),
                i <= n,
                forall|j: int| 0 <= j < i ==> !(#[trigger] self@.containers[j]).contains_hwnd(hwnd),
            decreases n - i,
        {
            if self.containers.get(i).unwrap().contains_window(hwnd) {
                return true;
            }
            i = i + 1;
        }
        false
    }

    /// For each container, its focused window.
    pub fn visible_windows(&self) -> (r: Vec<Option<Window>>)
        requires
            self.wf(),
        ensures
            r@.len() == self@.containers.len(),
            forall|i: int|
                0 <= i < r@.len() ==> #[trigger] r@[i] == Some(
                    self@.containers[i].windows_seq()[self@.containers[i].focused_window_spec()],
                ),
    {
        let mut out: Vec<Option<Window>> = Vec::new();
        let mut i: usize = 0;
        let n = self.containers.len();
        while i < n
            invariant
                self.wf(),
                n == self@.containers.len(),
                i <= n,
                out@.len() == i,
                forall|j: int|
                    0 <= j < i ==> #[trigger] out@[j] == Some(
                        self@.containers[j].windows_seq()[self@.containers[j].focused_window_spec()],
                    ),
            decreases n - i,
        {
            let c = self.containers.get(i).unwrap();
            out.push(c.focused_window());
            i = i + 1;
        }
        out
    }

    /// The container index that lies in `direction` from the focused one
    /// under the current layout, or `None` when no container lies there.
    pub fn new_idx_for_direction(&self, direction: OperationDirection) -> (r: Option<usize>)
        requires
            self.wf(),
            self@.containers.len() > 0,
        ensures
            match r {
                Some(c) => {
                    &&& direction.spec_candidate(
                        self@.layout,
                        self@.focused,
                        self@.containers.len() as int,
                    ) == Some(c as int)
                    &&& c < self@.containers.len()
                    &&& c != self@.focused
                },
                None => direction.spec_candidate(
                    self@.layout,
                    self@.focused,
                    self@.containers.len() as int,
                ) is None,
            },
    {
        direction.new_idx(&self.layout, self.containers.focused_idx(), self.containers.len())
    }

    /// Move the focus to the container at `idx`.
    pub fn focus_container(&mut self, idx: usize)
        requires
            idx < old(self)@.containers.len(),
        ensures
            final(self)@ == (WorkspaceView { focused: idx as int, ..old(self)@ }),
            old(self).wf() ==> final(self).wf(),
    {
        self.containers.focus(idx);
    }

    /// Swap the containers at `i` and `j`; the focus follows the container
    /// it pointed at.
    pub fn swap_containers(&mut self, i: usize, j: usize)
        requires
            i < old(self)@.containers.len(),
            j < old(self)@.containers.len(),
        ensures
            final(self)@ == (WorkspaceView {
                containers: old(self)@.containers.update(i as int, old(self)@.containers[j as int])
                    .update(j as int, old(self)@.containers[i as int]),
                focused: if old(self)@.focused == i {
                    j as int
                } else if old(self)@.focused == j {
                    i as int
                } else {
                    old(self)@.focused
                },
                ..old(self)@
            }),
            old(self).wf() ==> final(self).wf(),
    {
        self.containers.swap(i, j);
        proof {
            if old(self).wf() {
                assert forall|k: int|
                    0 <= k < self@.containers.len() implies (#[trigger] self@.containers[k]).wf()
                    && self@.containers[k].windows_seq().len() > 0 by {
                    if k == i as int {
                        assert(self@.containers[k] == old(self)@.containers[j as int]);
                    } else if k == j as int {
                        assert(self@.containers[k] == old(self)@.containers[i as int]);
                    } else {
                        assert(self@.containers[k] == old(self)@.containers[k]);
                    }
                }
            }
        }
    }
}

/// The workspace invariant with one container exempted: everything of
/// `view_wf` except that the container at `k` may be in any state. This is
/// the state a workspace passes through right after a window was taken out
/// of one container and before that container, now possibly empty, is
/// dropped.
pub open spec fn view_wf_except(v: WorkspaceView, k: int) -> bool {
    &&& if v.containers.len() > 0 {
        0 <= v.focused < v.containers.len()
    } else {
        v.focused == 0
    }
    &&& forall|i: int|
        0 <= i < v.containers.len() && i != k ==> (#[trigger] v.containers[i]).wf()
            && v.containers[i].windows_seq().len() > 0
    &&& forall|i: int|
        0 <= i < v.containers.len() && i == k ==> (#[trigger] v.containers[i]).wf()
    &&& v.resize.len() == v.containers.len()
    &&& forall|i: int| 0 <= i < v.resize.len() ==> delta_opt_ok(#[trigger] v.resize[i])
    &&& !(v.monocle is Some && v.maximized is Some)
    &&& (v.monocle is Some <==> v.monocle_restore is Some)
    &&& (v.maximized is Some <==> v.maximized_restore is Some)
    &&& match v.monocle {
        Some(c) => c.wf() && c.windows_seq().len() > 0,
        None => true,
    }
    &&& padding_field_ok(v.workspace_padding)
    &&& padding_field_ok(v.container_padding)
}

/// Every delta of a bounded sequence stays bounded after removing the one
/// at `k`.
proof fn lemma_deltas_remove(s: Seq<Option<Rect>>, k: int)
    requires
        0 <= k < s.len(),
        forall|i: int| 0 <= i < s.len() ==> delta_opt_ok(#[trigger] s[i]),
    ensures
        forall|i: int| 0 <= i < s.remove(k).len() ==> delta_opt_ok(#[trigger] s.remove(k)[i]),
{
    assert forall|i: int| 0 <= i < s.remove(k).len() implies delta_opt_ok(
        #[trigger] s.remove(k)[i],
    ) by {
        if i < k {
        } else {
            assert(s.remove(k)[i] == s[i + 1]);
        }
    }
}

/// Every container stays well-formed and non-empty after inserting a
/// well-formed non-empty one at `k`.
proof fn lemma_containers_insert(s: Seq<Container>, k: int, c: Container)
    requires
        0 <= k <= s.len(),
        forall|i: int|
            0 <= i < s.len() ==> (#[trigger] s[i]).wf() && s[i].windows_seq().len() > 0,
        c.wf(),
        c.windows_seq().len() > 0,
    ensures
        forall|i: int|
            0 <= i < s.insert(k, c).len() ==> (#[trigger] s.insert(k, c)[i]).wf() && s.insert(
                k,
                c,
            )[i].windows_seq().len() > 0,
{
    assert forall|i: int|
        0 <= i < s.insert(k, c).len() implies (#[trigger] s.insert(k, c)[i]).wf() && s.insert(
        k,
        c,
    )[i].windows_seq().len() > 0 by {
        if i < k {
            assert(s.insert(k, c)[i] == s[i]);
        } else if i == k {
        } else {
            assert(s.insert(k, c)[i] == s[i - 1]);
        }
    }
}

/// Every delta stays bounded after inserting a bounded one at `k`.
proof fn lemma_deltas_insert(s: Seq<Option<Rect>>, k: int, d: Option<Rect>)
    requires
        0 <= k <= s.len(),
        forall|i: int| 0 <= i < s.len() ==> delta_opt_ok(#[trigger] s[i]),
        delta_opt_ok(d),
    ensures
        forall|i: int|
            0 <= i < s.insert(k, d).len() ==> delta_opt_ok(#[trigger] s.insert(k, d)[i]),
{
    assert forall|i: int| 0 <= i < s.insert(k, d).len() implies delta_opt_ok(
        #[trigger] s.insert(k, d)[i],
    ) by {
        if i < k {
            assert(s.insert(k, d)[i] == s[i]);
        } else if i == k {
        } else {
            assert(s.insert(k, d)[i] == s[i - 1]);
        }
    }
}

impl Workspace {
    /// Append a container (brought over from another workspace or monitor)
    /// and focus it. A fresh resize slot keeps the delta list in step.
    pub fn add_container(&mut self, container: Container)
        requires
            old(self).wf(),
            container.wf(),
            container.windows_seq().len() > 0,
        ensures
            final(self)@ == (WorkspaceView {
                containers: old(self)@.containers.push(container),
                focused: old(self)@.containers.len() as int,
                resize: old(self)@.resize.push(None),
                ..old(self)@
            }),
            final(self).wf(),
    {
        self.containers.push_back(container);
        self.resize_dimensions.push(None);
        let last = self.containers.len() - 1;
        self.containers.focus(last);
    }

    /// Create a fresh container holding only `window`, append it and focus
    /// it.
    pub fn new_container_for_window(&mut self, window: Window)
        requires
            old(self).wf(),
        ensures
            final(self)@.containers.len() == old(self)@.containers.len() + 1,
            final(self)@.containers == old(self)@.containers.push(
                final(self)@.containers.last(),
            ),
            final(self)@.containers.last().windows_seq() == seq![window],
            final(self)@ == (WorkspaceView {
                containers: final(self)@.containers,
                focused: old(self)@.containers.len() as int,
                resize: old(self)@.resize.push(None),
                ..old(self)@
            }),
            final(self).wf(),
    {
        let mut container = Container::new();
        container.add_window(window);
        self.containers.push_back(container);
        self.resize_dimensions.push(None);
        let last = self.containers.len() - 1;
        self.containers.focus(last);
    }

    /// Remove and return the container at `idx` together with its resize
    /// slot; `None` (and no change) when `idx` is out of range. The
    /// container at `idx` itself may be empty: this is how an emptied
    /// container is dropped.
    pub fn remove_container_by_idx(&mut self, idx: usize) -> (r: Option<Container>)
        requires
            view_wf_except(old(self)@, idx as int),
        ensures
            match r {
                Some(c) => {
                    &&& idx < old(self)@.containers.len()
                    &&& c == old(self)@.containers[idx as int]
                    &&& final(self)@ == (WorkspaceView {
                        containers: old(self)@.containers.remove(idx as int),
                        focused: Ring::<Container>::focus_after_remove(
                            old(self)@.focused,
                            idx as int,
                            old(self)@.containers.len() as int,
                        ),
                        resize: old(self)@.resize.remove(idx as int),
                        ..old(self)@
                    })
                },
                None => idx >= old(self)@.containers.len() && *final(self) == *old(self),
            },
            r is Some ==> final(self).wf(),
    {
        if idx >= self.containers.len() {
            return None;
        }
        let c = self.containers.remove(idx);
        self.resize_dimensions.remove(idx);
        proof {
            let s = old(self)@.containers;
            let k = idx as int;
            assert forall|i: int|
                0 <= i < s.remove(k).len() implies (#[trigger] s.remove(k)[i]).wf() && s.remove(
                k,
            )[i].windows_seq().len() > 0 by {
                if i < k {
                } else {
                    assert(s.remove(k)[i] == s[i + 1]);
                }
            }
            lemma_deltas_remove(old(self)@.resize, k);
        }
        c
    }

    /// Remove and return the focused container with its resize slot.
    pub fn remove_focused_container(&mut self) -> (r: Option<Container>)
        requires
            old(self).wf(),
        ensures
            match r {
                Some(c) => {
                    &&& old(self)@.containers.len() > 0
                    &&& c == old(self)@.containers[old(self)@.focused]
                    &&& final(self)@ == (WorkspaceView {
                        containers: old(self)@.containers.remove(old(self)@.focused),
                        focused: Ring::<Container>::focus_after_remove(
                            old(self)@.focused,
                            old(self)@.focused,
                            old(self)@.containers.len() as int,
                        ),
                        resize: old(self)@.resize.remove(old(self)@.focused),
                        ..old(self)@
                    })
                },
                None => old(self)@.containers.len() == 0 && *final(self) == *old(self),
            },
            final(self).wf(),
    {
        let idx = self.containers.focused_idx();
        self.remove_container_by_idx(idx)
    }

    /// Replace the resize delta stored for the container at `idx`.
    pub fn update_resize_dimension(&mut self, idx: usize, delta: Option<Rect>)
        requires
            old(self).wf(),
            idx < old(self)@.resize.len(),
            delta_opt_ok(delta),
        ensures
            final(self)@ == (WorkspaceView {
                resize: old(self)@.resize.update(idx as int, delta),
                ..old(self)@
            }),
            final(self).wf(),
    {
        self.resize_dimensions[idx] = delta;
        proof {
            assert forall|i: int| 0 <= i < self@.resize.len() implies delta_opt_ok(
                #[trigger] self@.resize[i],
            ) by {
                if i != idx as int {
                    assert(self@.resize[i] == old(self)@.resize[i]);
                }
            }
        }
    }

    /// Move the focused container to the front and focus it, keeping its
    /// resize slot with it.
    pub fn promote_container(&mut self) -> (r: Result<(), WmError>)
        requires
            old(self).wf(),
        ensures
            match r {
                Ok(()) => {
                    &&& old(self)@.containers.len() > 0
                    &&& final(self)@ == (WorkspaceView {
                        containers: old(self)@.containers.remove(old(self)@.focused).insert(
                            0,
                            old(self)@.containers[old(self)@.focused],
                        ),
                        focused: 0,
                        resize: old(self)@.resize.remove(old(self)@.focused).insert(
                            0,
                            old(self)@.resize[old(self)@.focused],
                        ),
                        ..old(self)@
                    })
                },
                Err(e) => {
                    &&& e == WmError::NoSuchContainer
                    &&& old(self)@.containers.len() == 0
                    &&& *final(self) == *old(self)
                },
            },
            final(self).wf(),
    {
        if self.containers.len() == 0 {
            return Err(WmError::NoSuchContainer);
        }
        let f = self.containers.focused_idx();
        let slot = self.resize_dimensions[f];
        let c = self.remove_container_by_idx(f).unwrap();
        let ghost mid = self@;
        proof {
            lemma_containers_insert(mid.containers, 0, c);
            lemma_deltas_insert(mid.resize, 0, slot);
        }
        self.containers.insert(0, c);
        self.resize_dimensions.insert(0, slot);
        self.containers.focus(0);
        Ok(())
    }
}

impl Workspace {
    /// Remove the window with this handle from whichever container holds
    /// it (the first such container, its last occurrence there); a
    /// container left empty is removed together with its resize slot.
    pub fn remove_window(&mut self, hwnd: isize) -> (r: Result<(), WmError>)
        requires
            old(self).wf(),
        ensures
            match r {
                Ok(()) => {
                    &&& old(self).tiled_contains_hwnd(hwnd)
                    &&& exists|ci: int|
                        {
                            &&& 0 <= ci < old(self)@.containers.len()
                            &&& (#[trigger] old(self)@.containers[ci]).contains_hwnd(hwnd)
                            &&& if old(self)@.containers[ci].windows_seq().len() == 1 {
                                final(self)@ == (WorkspaceView {
                                    containers: old(self)@.containers.remove(ci),
                                    focused: Ring::<Container>::focus_after_remove(
                                        old(self)@.focused,
                                        ci,
                                        old(self)@.containers.len() as int,
                                    ),
                                    resize: old(self)@.resize.remove(ci),
                                    ..old(self)@
                                })
                            } else {
                                &&& final(self)@.containers.len() == old(self)@.containers.len()
                                &&& final(self)@.containers[ci].windows_seq().len() == old(self)@.containers[ci].windows_seq().len() - 1
                                &&& forall|j: int|
                                    0 <= j < final(self)@.containers.len() && j != ci
                                        ==> final(self)@.containers[j] == old(self)@.containers[j]
                                &&& final(self)@ == (WorkspaceView {
                                    containers: final(self)@.containers,
                                    ..old(self)@
                                })
                            }
                        }
                },
                Err(e) => {
                    &&& e == WmError::NoSuchWindow
                    &&& !old(self).tiled_contains_hwnd(hwnd)
                    &&& *final(self) == *old(self)
                },
            },
            final(self).wf(),
    {
        let mut ci: usize = 0;
        let n = self.containers.len();
        while ci < n
            invariant
                self.wf(),
                *self == *old(self),
                n == self@.containers.len(),
                ci <= n,
                forall|j: int| 0 <= j < ci ==> !(#[trigger] self@.containers[j]).contains_hwnd(hwnd),
            decreases n - ci,
        {
            if self.containers.get(ci).unwrap().contains_window(hwnd) {
                let c = self.containers.get_mut(ci);
                let wi = c.idx_for_window(hwnd).unwrap();
                let single = c.windows().len() == 1;
                c.remove_window_by_idx(wi);
                if single {
                    proof {
                        assert forall|j: int|
                            0 <= j < self@.containers.len() && j != ci as int implies (
                        #[trigger] self@.containers[j]).wf() && self@.containers[j].windows_seq().len()
                            > 0 by {
                            assert(self@.containers[j] == old(self)@.containers[j]);
                        }
                        assert(view_wf_except(self@, ci as int));
                    }
                    self.remove_container_by_idx(ci);
                    proof {
                        assert(old(self)@.containers[ci as int].contains_hwnd(hwnd));
                    }
                } else {
                    proof {
                        assert(old(self)@.containers[ci as int].contains_hwnd(hwnd));
                        assert forall|j: int|
                            0 <= j < self@.containers.len() implies (
                        #[trigger] self@.containers[j]).wf() && self@.containers[j].windows_seq().len()
                            > 0 by {
                            if j != ci as int {
                                assert(self@.containers[j] == old(self)@.containers[j]);
                            }
                        }
                    }
                }
                return Ok(());
            }
            ci = ci + 1;
        }
        Err(WmError::NoSuchWindow)
    }

    /// Move the focused window of the focused container into the container
    /// at `target_idx` (an index into the ring as it stands after an
    /// emptied source container is dropped) and focus that container.
    pub fn move_window_to_container(&mut self, target_idx: usize) -> (r: Result<(), WmError>)
        requires
            old(self).wf(),
        ensures
            match r {
                Ok(()) => {
                    &&& old(self)@.containers.len() > 0
                    &&& final(self)@.focused == target_idx
                    &&& moved_window_to_container(old(self)@, final(self)@, target_idx as int)
                },
                Err(e) => {
                    &&& *final(self) == *old(self)
                    &&& match e {
                        WmError::NoSuchContainer => old(self)@.containers.len() == 0
                            || target_idx >= (if old(self)@.containers[old(self)@.focused].windows_seq().len()
                            == 1 {
                            old(self)@.containers.len() - 1
                        } else {
                            old(self)@.containers.len() as int
                        }),
                        WmError::InvalidOverlayTransition => {
                            let f = old(self)@.focused;
                            let single = old(self)@.containers[f].windows_seq().len() == 1;
                            let probe = if single && target_idx as int >= f {
                                target_idx + 1
                            } else {
                                target_idx as int
                            };
                            &&& old(self)@.containers.len() > 0
                            &&& 0 <= probe < old(self)@.containers.len()
                            &&& old(self)@.containers[probe].contains_hwnd(
                                focused_window_of(old(self)@).hwnd,
                            )
                        },
                        _ => false,
                    }
                },
            },
            final(self).wf(),
    {
        let n = self.containers.len();
        if n == 0 {
            return Err(WmError::NoSuchContainer);
        }
        let f = self.containers.focused_idx();
        let single = self.containers.get(f).unwrap().windows().len() == 1;
        let new_len = if single {
            n - 1
        } else {
            n
        };
        if target_idx >= new_len {
            return Err(WmError::NoSuchContainer);
        }
        let w = *self.containers.get(f).unwrap().windows().focused().unwrap();
        // refuse to stack a window onto a container that already holds its
        // handle; a window lives in one place at a time
        let target_probe = if single && target_idx >= f {
            target_idx + 1
        } else {
            target_idx
        };
        if self.containers.get(target_probe).unwrap().contains_window(w.hwnd) {
            return Err(WmError::InvalidOverlayTransition);
        }
        let c = self.containers.get_mut(f);
        c.remove_focused_window();
        if single {
            proof {
                assert forall|j: int|
                    0 <= j < self@.containers.len() && j != f as int implies (
                #[trigger] self@.containers[j]).wf() && self@.containers[j].windows_seq().len()
                    > 0 by {
                    assert(self@.containers[j] == old(self)@.containers[j]);
                }
                assert(view_wf_except(self@, f as int));
            }
            self.remove_container_by_idx(f);
        } else {
            proof {
                assert(old(self)@.containers[f as int].windows_seq().len() >= 2);
                assert forall|j: int|
                    0 <= j < self@.containers.len() implies (#[trigger] self@.containers[j]).wf()
                    && self@.containers[j].windows_seq().len() > 0 by {
                    if j != f as int {
                        assert(self@.containers[j] == old(self)@.containers[j]);
                    }
                }
            }
        }
        proof {
            if single {
                let s = old(self)@.containers;
                if target_idx as int >= f as int {
                    assert(self@.containers[target_idx as int] == s[target_idx as int + 1]);
                } else {
                    assert(self@.containers[target_idx as int] == s[target_idx as int]);
                }
            }
            assert(self@.containers[target_idx as int].wf());
            assert(!self@.containers[target_idx as int].contains_hwnd(w.hwnd));
        }
        let t = self.containers.get_mut(target_idx);
        t.add_window(w);
        proof {
            assert forall|j: int|
                0 <= j < self@.containers.len() implies (#[trigger] self@.containers[j]).wf()
                && self@.containers[j].windows_seq().len() > 0 by {
                if j != target_idx as int {
                }
            }
        }
        self.containers.focus(target_idx);
        proof {
            if single {
                assert(self@.containers =~= old(self)@.containers.remove(old(self)@.focused).update(
                    target_idx as int,
                    self@.containers[target_idx as int],
                ));
                assert(self@ =~= (WorkspaceView {
                    containers: self@.containers,
                    focused: target_idx as int,
                    resize: old(self)@.resize.remove(old(self)@.focused),
                    ..old(self)@
                }));
            } else {
                assert(self@ =~= (WorkspaceView {
                    containers: self@.containers,
                    focused: target_idx as int,
                    ..old(self)@
                }));
            }
            assert(moved_window_to_container(old(self)@, self@, target_idx as int));
        }
        Ok(())
    }

    /// Take the focused window out of the focused container and promote it
    /// into a fresh container inserted right after the focused one; an
    /// emptied source container is dropped first.
    pub fn new_container_for_focused_window(&mut self) -> (r: Result<(), WmError>)
        requires
            old(self).wf(),
        ensures
            match r {
                Ok(()) => old(self)@.containers.len() > 0 && unstacked_focused_window(
                    old(self)@,
                    final(self)@,
                ),
                Err(e) => e == WmError::NoSuchContainer && old(self)@.containers.len() == 0
                    && *final(self) == *old(self),
            },
            final(self).wf(),
    {
        let n = self.containers.len();
        if n == 0 {
            return Err(WmError::NoSuchContainer);
        }
        let f = self.containers.focused_idx();
        let single = self.containers.get(f).unwrap().windows().len() == 1;
        let c = self.containers.get_mut(f);
        let w = c.remove_focused_window().unwrap();
        if single {
            proof {
                assert forall|j: int|
                    0 <= j < self@.containers.len() && j != f as int implies (
                #[trigger] self@.containers[j]).wf() && self@.containers[j].windows_seq().len()
                    > 0 by {
                    assert(self@.containers[j] == old(self)@.containers[j]);
                }
                assert(view_wf_except(self@, f as int));
            }
            self.remove_container_by_idx(f);
        } else {
            proof {
                assert(old(self)@.containers[f as int].windows_seq().len() >= 2);
                assert forall|j: int|
                    0 <= j < self@.containers.len() implies (#[trigger] self@.containers[j]).wf()
                    && self@.containers[j].windows_seq().len() > 0 by {
                    if j != f as int {
                        assert(self@.containers[j] == old(self)@.containers[j]);
                    }
                }
            }
        }
        let mut container = Container::new();
        container.add_window(w);
        let len_now = self.containers.len();
        let ins = if f + 1 <= len_now {
            f + 1
        } else {
            len_now
        };
        let ghost mid = self@;
        proof {
            lemma_containers_insert(mid.containers, ins as int, container);
            lemma_deltas_insert(mid.resize, ins as int, None);
        }
        self.containers.insert(ins, container);
        self.resize_dimensions.insert(ins, None);
        self.containers.focus(ins);
        proof {
            if old(self)@.containers[old(self)@.focused].windows_seq().len() == 1 {
                assert(self@.containers =~= old(self)@.containers.remove(
                    old(self)@.focused,
                ).insert(ins as int, self@.containers[ins as int]));
                assert(self@ =~= (WorkspaceView {
                    containers: self@.containers,
                    focused: ins as int,
                    resize: old(self)@.resize.remove(old(self)@.focused).insert(ins as int, None),
                    ..old(self)@
                }));
            } else {
                assert(self@ =~= (WorkspaceView {
                    containers: self@.containers,
                    focused: old(self)@.focused + 1,
                    resize: old(self)@.resize.insert(old(self)@.focused + 1, None),
                    ..old(self)@
                }));
            }
            assert(unstacked_focused_window(old(self)@, self@));
        }
        Ok(())
    }
}

impl Workspace {
    /// Pop the focused window out of the focused container onto the
    /// floating set; an emptied source container is dropped with its
    /// resize slot.
    pub fn new_floating_window(&mut self) -> (r: Result<(), WmError>)
        requires
            old(self).wf(),
        ensures
            match r {
                Ok(()) => floated_focused_window(old(self)@, final(self)@),
                Err(e) => {
                    &&& e == WmError::NoSuchContainer
                    &&& old(self)@.containers.len() == 0
                    &&& *final(self) == *old(self)
                },
            },
            final(self).wf(),
    {
        let n = self.containers.len();
        if n == 0 {
            return Err(WmError::NoSuchContainer);
        }
        let f = self.containers.focused_idx();
        let single = self.containers.get(f).unwrap().windows().len() == 1;
        let c = self.containers.get_mut(f);
        let w = c.remove_focused_window().unwrap();
        if single {
            proof {
                assert forall|j: int|
                    0 <= j < self@.containers.len() && j != f as int implies (
                #[trigger] self@.containers[j]).wf() && self@.containers[j].windows_seq().len()
                    > 0 by {
                    assert(self@.containers[j] == old(self)@.containers[j]);
                }
                assert(view_wf_except(self@, f as int));
            }
            self.remove_container_by_idx(f);
        } else {
            proof {
                assert(old(self)@.containers[f as int].windows_seq().len() >= 2);
                assert forall|j: int|
                    0 <= j < self@.containers.len() implies (#[trigger] self@.containers[j]).wf()
                    && self@.containers[j].windows_seq().len() > 0 by {
                    if j != f as int {
                        assert(self@.containers[j] == old(self)@.containers[j]);
                    }
                }
            }
        }
        self.floating_windows.push(w);
        proof {
            assert(self@.floating =~= old(self)@.floating.push(focused_window_of(old(self)@)));
            if old(self)@.containers[old(self)@.focused].windows_seq().len() == 1 {
                assert(self@ =~= (WorkspaceView {
                    containers: old(self)@.containers.remove(old(self)@.focused),
                    focused: Ring::<Container>::focus_after_remove(
                        old(self)@.focused,
                        old(self)@.focused,
                        old(self)@.containers.len() as int,
                    ),
                    resize: old(self)@.resize.remove(old(self)@.focused),
                    floating: self@.floating,
                    ..old(self)@
                }));
            } else {
                assert(self@ =~= (WorkspaceView {
                    containers: self@.containers,
                    floating: self@.floating,
                    ..old(self)@
                }));
            }
            assert(floated_focused_window(old(self)@, self@));
        }
        Ok(())
    }

    /// Take the window with this handle (usually the foreground window)
    /// out of the floating set and promote it into a fresh container
    /// inserted right after the focused one.
    pub fn new_container_for_floating_window(&mut self, hwnd: isize) -> (r: Result<(), WmError>)
        requires
            old(self).wf(),
        ensures
            match r {
                Ok(()) => unfloated_window(old(self)@, final(self)@, hwnd),
                Err(e) => {
                    &&& e == WmError::NoSuchWindow
                    &&& !old(self)@.floating.contains(Window { hwnd })
                    &&& *final(self) == *old(self)
                },
            },
            final(self).wf(),
    {
        let mut i: usize = 0;
        let n = self.floating_windows.len();
        while i < n
            invariant
                self.wf(),
                *self == *old(self),
                n == self@.floating.len(),
                i <= n,
                forall|j: int| 0 <= j < i ==> self@.floating[j].hwnd != hwnd,
            decreases n - i,
        {
            if self.floating_windows[i].hwnd == hwnd {
                proof {
                    old(self)@.floating.index_of_first_ensures(Window { hwnd });
                    assert(old(self)@.floating.contains(Window { hwnd })) by {
                        assert(old(self)@.floating[i as int] == (Window { hwnd }));
                    }
                    let idx_opt = old(self)@.floating.index_of_first(Window { hwnd });
                    assert(idx_opt is Some);
                    let k = idx_opt.unwrap();
                    if k < i as int {
                        assert(old(self)@.floating[k] == (Window { hwnd }));
                        assert(false);
                    } else if k > i as int {
                        assert(old(self)@.floating[i as int] != (Window { hwnd }));
                        assert(false);
                    }
                    assert(old(self)@.floating.index_of_first(Window { hwnd }) == Some(i as int));
                }
                let w = self.floating_windows.remove(i);
                let mut container = Container::new();
                container.add_window(w);
                let f = self.containers.focused_idx();
                let len_now = self.containers.len();
                let ins = if f + 1 <= len_now {
                    f + 1
                } else {
                    len_now
                };
                let ghost mid = self@;
                proof {
                    lemma_containers_insert(mid.containers, ins as int, container);
                    lemma_deltas_insert(mid.resize, ins as int, None);
                }
                self.containers.insert(ins, container);
                self.resize_dimensions.insert(ins, None);
                self.containers.focus(ins);
                proof {
                    assert(unfloated_window(old(self)@, self@, hwnd)) by {
                        assert(self@.containers =~= old(self)@.containers.insert(
                            ins as int,
                            self@.containers[ins as int],
                        ));
                        assert(self@ =~= (WorkspaceView {
                            containers: self@.containers,
                            focused: ins as int,
                            resize: old(self)@.resize.insert(ins as int, None),
                            floating: self@.floating,
                            ..old(self)@
                        }));
                    }
                }
                return Ok(());
            }
            i = i + 1;
        }
        proof {
            old(self)@.floating.index_of_first_ensures(Window { hwnd });
            assert(!old(self)@.floating.contains(Window { hwnd }));
        }
        Err(WmError::NoSuchWindow)
    }

    /// Enter monocle: take the whole focused container out of the ring and
    /// stash it with the index it came from.
    pub fn new_monocle_container(&mut self) -> (r: Result<(), WmError>)
        requires
            old(self).wf(),
        ensures
            match r {
                Ok(()) => {
                    &&& old(self)@.containers.len() > 0
                    &&& old(self)@.monocle is None
                    &&& old(self)@.maximized is None
                    &&& final(self)@ == (WorkspaceView {
                        containers: old(self)@.containers.remove(old(self)@.focused),
                        focused: Ring::<Container>::focus_after_remove(
                            old(self)@.focused,
                            old(self)@.focused,
                            old(self)@.containers.len() as int,
                        ),
                        resize: old(self)@.resize.remove(old(self)@.focused),
                        monocle: Some(old(self)@.containers[old(self)@.focused]),
                        monocle_restore: Some(old(self)@.focused as usize),
                        ..old(self)@
                    })
                },
                Err(e) => {
                    &&& *final(self) == *old(self)
                    &&& match e {
                        WmError::NoSuchContainer => old(self)@.containers.len() == 0,
                        WmError::InvalidOverlayTransition => old(self)@.monocle is Some || old(self)@.maximized is Some,
                        _ => false,
                    }
                },
            },
            final(self).wf(),
    {
        if self.containers.len() == 0 {
            return Err(WmError::NoSuchContainer);
        }
        if self.monocle_container.is_some() || self.maximized_window.is_some() {
            return Err(WmError::InvalidOverlayTransition);
        }
        let f = self.containers.focused_idx();
        let c = self.remove_container_by_idx(f).unwrap();
        self.monocle_container = Some(c);
        self.monocle_restore_idx = Some(f);
        Ok(())
    }

    /// Leave monocle: put the stashed container back at the index it was
    /// taken from and focus it.
    pub fn reintegrate_monocle_container(&mut self) -> (r: Result<(), WmError>)
        requires
            old(self).wf(),
        ensures
            match r {
                Ok(()) => {
                    &&& old(self)@.monocle is Some
                    &&& {
                        let c = old(self)@.monocle.unwrap();
                        let idx = old(self)@.monocle_restore.unwrap() as int;
                        let ins = if idx <= old(self)@.containers.len() {
                            idx
                        } else {
                            old(self)@.containers.len() as int
                        };
                        final(self)@ == (WorkspaceView {
                            containers: old(self)@.containers.insert(ins, c),
                            focused: ins,
                            resize: old(self)@.resize.insert(ins, None),
                            monocle: None,
                            monocle_restore: None,
                            ..old(self)@
                        })
                    }
                },
                Err(e) => {
                    &&& e == WmError::NoSuchContainer
                    &&& old(self)@.monocle is None
                    &&& *final(self) == *old(self)
                },
            },
            final(self).wf(),
    {
        if self.monocle_container.is_none() {
            return Err(WmError::NoSuchContainer);
        }
        let mut taken: Option<Container> = None;
        core::mem::swap(&mut taken, &mut self.monocle_container);
        let c = match taken {
            Some(c) => c,
            None => {
                proof {
                    assert(false);
                }
                Container::new()
            },
        };
        let idx = match self.monocle_restore_idx {
            Some(i) => i,
            None => 0,
        };
        self.monocle_restore_idx = None;
        let len_now = self.containers.len();
        let ins = if idx <= len_now {
            idx
        } else {
            len_now
        };
        let ghost mid = self@;
        proof {
            lemma_containers_insert(mid.containers, ins as int, c);
            lemma_deltas_insert(mid.resize, ins as int, None);
        }
        self.containers.insert(ins, c);
        self.resize_dimensions.insert(ins, None);
        self.containers.focus(ins);
        Ok(())
    }

    /// Natively maximize the focused window: take it out of the focused
    /// container, remember where it came from, and store it as the
    /// maximized window. An emptied source container is dropped.
    pub fn new_maximized_window(&mut self) -> (r: Result<(), WmError>)
        requires
            old(self).wf(),
        ensures
            match r {
                Ok(()) => {
                    &&& old(self)@.containers.len() > 0
                    &&& old(self)@.monocle is None
                    &&& old(self)@.maximized is None
                    &&& {
                        let f = old(self)@.focused;
                        let c = old(self)@.containers[f];
                        let wi = c.focused_window_spec();
                        &&& final(self)@.maximized == Some(c.windows_seq()[wi])
                        &&& final(self)@.maximized_restore matches Some(mr) && mr.container_idx
                            == f && mr.window_idx == wi && mr.container_id@ == c.id_chars()
                        &&& if c.windows_seq().len() == 1 {
                            final(self)@ == (WorkspaceView {
                                containers: old(self)@.containers.remove(f),
                                focused: Ring::<Container>::focus_after_remove(
                                    f,
                                    f,
                                    old(self)@.containers.len() as int,
                                ),
                                resize: old(self)@.resize.remove(f),
                                maximized: final(self)@.maximized,
                                maximized_restore: final(self)@.maximized_restore,
                                ..old(self)@
                            })
                        } else {
                            &&& final(self)@.containers.len() == old(self)@.containers.len()
                            &&& forall|j: int|
                                0 <= j < final(self)@.containers.len() && j != f ==> final(self)@.containers[j] == old(self)@.containers[j]
                            &&& final(self)@.containers[f].windows_seq() == c.windows_seq().remove(
                                wi,
                            )
                            &&& final(self)@.containers[f].focused_window_spec() == (if wi >= 1 {
                                wi - 1
                            } else {
                                0
                            })
                            &&& final(self)@.containers[f].id_chars() == c.id_chars()
                            &&& final(self)@ == (WorkspaceView {
                                containers: final(self)@.containers,
                                maximized: final(self)@.maximized,
                                maximized_restore: final(self)@.maximized_restore,
                                ..old(self)@
                            })
                        }
                    }
                },
                Err(e) => {
                    &&& *final(self) == *old(self)
                    &&& match e {
                        WmError::NoSuchContainer => old(self)@.containers.len() == 0,
                        WmError::InvalidOverlayTransition => old(self)@.monocle is Some || old(self)@.maximized is Some,
                        _ => false,
                    }
                },
            },
            final(self).wf(),
    {
        if self.containers.len() == 0 {
            return Err(WmError::NoSuchContainer);
        }
        if self.monocle_container.is_some() || self.maximized_window.is_some() {
            return Err(WmError::InvalidOverlayTransition);
        }
        let f = self.containers.focused_idx();
        let single = self.containers.get(f).unwrap().windows().len() == 1;
        let c = self.containers.get_mut(f);
        let wi = c.focused_window_idx();
        let id = c.id().clone();
        let w = c.remove_focused_window().unwrap();
        if single {
            proof {
                assert forall|j: int|
                    0 <= j < self@.containers.len() && j != f as int implies (
                #[trigger] self@.containers[j]).wf() && self@.containers[j].windows_seq().len()
                    > 0 by {
                    assert(self@.containers[j] == old(self)@.containers[j]);
                }
                assert(view_wf_except(self@, f as int));
            }
            self.remove_container_by_idx(f);
        } else {
            proof {
                assert(old(self)@.containers[f as int].windows_seq().len() >= 2);
                assert forall|j: int|
                    0 <= j < self@.containers.len() implies (#[trigger] self@.containers[j]).wf()
                    && self@.containers[j].windows_seq().len() > 0 by {
                    if j != f as int {
                        assert(self@.containers[j] == old(self)@.containers[j]);
                    }
                }
            }
        }
        self.maximized_window = Some(w);
        self.maximized_restore = Some(
            MaximizedRestore { container_idx: f, window_idx: wi, container_id: id },
        );
        Ok(())
    }

    /// Undo a native maximize: reinsert the remembered window into the
    /// container it came from (found by id) at its remembered sub-index,
    /// or into a fresh container at the end when that container is gone.
    #[verifier::rlimit(60)]
    pub fn reintegrate_maximized_window(&mut self) -> (r: Result<(), WmError>)
        requires
            old(self).wf(),
        ensures
            match r {
                Ok(()) => {
                    &&& old(self)@.maximized is Some
                    &&& final(self)@.maximized is None
                    &&& final(self)@.maximized_restore is None
                    &&& old(self)@.maximized matches Some(w) && old(self)@.maximized_restore
                        matches Some(mr) && {
                        ||| exists|k: int| reintegrated_at(old(self)@, final(self)@, w, mr, k)
                        ||| (no_container_with_id(old(self)@.containers, mr.container_id@)
                            && reintegrated_appended(old(self)@, final(self)@, w))
                    }
                },
                Err(e) => {
                    &&& final(self)@ == old(self)@
                    &&& match e {
                        WmError::NoSuchWindow => old(self)@.maximized is None,
                        WmError::InvalidOverlayTransition => reinsertion_blocked(old(self)@),
                        _ => false,
                    }
                },
            },
            reinsertion_blocked(old(self)@) ==> r matches Err(WmError::InvalidOverlayTransition),
            final(self).wf(),
    {
        let w = match self.maximized_window {
            Some(w) => w,
            None => {
                return Err(WmError::NoSuchWindow);
            },
        };
        let mut taken: Option<MaximizedRestore> = None;
        core::mem::swap(&mut taken, &mut self.maximized_restore);
        let mr = match taken {
            Some(mr) => mr,
            None => {
                proof {
                    assert(false);
                }
                MaximizedRestore { container_idx: 0, window_idx: 0, container_id: String::new() }
            },
        };
        let mut k: usize = 0;
        let n = self.containers.len();
        while k < n
            invariant
                old(self).wf(),
                n == self@.containers.len(),
                k <= n,
                self@ == (WorkspaceView { maximized_restore: None, ..old(self)@ }),
                old(self)@.maximized == Some(w),
                old(self)@.maximized_restore == Some(mr),
                forall|j: int|
                    0 <= j < k ==> (#[trigger] self@.containers[j]).id_chars()
                        != mr.container_id@,
            decreases n - k,
        {
            if self.containers.get(k).unwrap().id().eq(&mr.container_id) {
                if self.containers.get(k).unwrap().contains_window(w.hwnd) {
                    // a window lives in one place at a time; refuse to
                    // duplicate the handle
                    let mut back: Option<MaximizedRestore> = Some(mr);
                    core::mem::swap(&mut back, &mut self.maximized_restore);
                    proof {
                        assert(self@ =~= old(self)@);
                        assert(reinsertion_blocked(old(self)@)) by {
                            assert(old(self)@.containers[k as int].id_chars() == old(
                                self,
                            )@.maximized_restore.unwrap().container_id@);
                        }
                    }
                    return Err(WmError::InvalidOverlayTransition);
                }
                let ghost pre = self@;
                let c = self.containers.get_mut(k);
                let clen = c.windows().len();
                let ins = if mr.window_idx <= clen {
                    mr.window_idx
                } else {
                    clen
                };
                c.insert_window(ins, w);
                proof {
                    assert forall|j: int|
                        0 <= j < self@.containers.len() implies (
                    #[trigger] self@.containers[j]).wf() && self@.containers[j].windows_seq().len()
                        > 0 by {
                        if j != k as int {
                            assert(self@.containers[j] == old(self)@.containers[j]);
                        }
                    }
                }
                self.containers.focus(k);
                self.maximized_window = None;
                proof {
                    if reinsertion_blocked(old(self)@) {
                        let k2 = choose|k2: int|
                            {
                                &&& 0 <= k2 < old(self)@.containers.len()
                                &&& (#[trigger] old(self)@.containers[k2]).id_chars() == old(
                                    self,
                                )@.maximized_restore.unwrap().container_id@
                                &&& (forall|j: int|
                                    0 <= j < k2 ==> (#[trigger] old(self)@.containers[j]).id_chars()
                                        != old(self)@.maximized_restore.unwrap().container_id@)
                                &&& old(self)@.containers[k2].contains_hwnd(
                                    old(self)@.maximized.unwrap().hwnd,
                                )
                            };
                        assert(k2 == k as int);
                        assert(false);
                    }
                    assert(reintegrated_at(old(self)@, self@, w, mr, k as int)) by {
                        assert(self@ =~= (WorkspaceView {
                            containers: self@.containers,
                            focused: k as int,
                            maximized: None,
                            maximized_restore: None,
                            ..old(self)@
                        }));
                    }
                    assert(old(self)@.maximized.unwrap() == w);
                    assert(old(self)@.maximized_restore.unwrap() == mr);
                    assert(reintegrated_at(
                        old(self)@,
                        self@,
                        old(self)@.maximized.unwrap(),
                        old(self)@.maximized_restore.unwrap(),
                        k as int,
                    ));
                    assert(exists|k2: int|
                        reintegrated_at(
                            old(self)@,
                            self@,
                            old(self)@.maximized.unwrap(),
                            old(self)@.maximized_restore.unwrap(),
                            k2,
                        ));
                }
                return Ok(());
            }
            k = k + 1;
        }
        let mut container = Container::new();
        container.add_window(w);
        self.containers.push_back(container);
        self.resize_dimensions.push(None);
        let last = self.containers.len() - 1;
        self.containers.focus(last);
        self.maximized_window = None;
        proof {
            if reinsertion_blocked(old(self)@) {
                let k2 = choose|k2: int|
                    0 <= k2 < old(self)@.containers.len() && (
                    #[trigger] old(self)@.containers[k2]).id_chars() == old(
                        self,
                    )@.maximized_restore.unwrap().container_id@;
                assert(false);
            }
            assert(self@.containers =~= old(self)@.containers.push(self@.containers.last()));
            assert(self@ =~= (WorkspaceView {
                containers: self@.containers,
                focused: old(self)@.containers.len() as int,
                resize: old(self)@.resize.push(None),
                maximized: None,
                maximized_restore: None,
                ..old(self)@
            }));
            assert(no_container_with_id(old(self)@.containers, mr.container_id@));
            assert(reintegrated_appended(old(self)@, self@, w));
        }
        Ok(())
    }
}

/// No container of `s` carries the id `id`.
pub open spec fn no_container_with_id(s: Seq<Container>, id: Seq<char>) -> bool {
    forall|k: int| 0 <= k < s.len() ==> (#[trigger] s[k]).id_chars() != id
}

/// The reintegration fallback: the container the maximized window came
/// from is gone, so the window went into a fresh container appended at the
/// end, which took the focus.
pub open spec fn reintegrated_appended(pre: WorkspaceView, post: WorkspaceView, w: Window) -> bool {
    &&& post.containers.len() == pre.containers.len() + 1
    &&& post.containers == pre.containers.push(post.containers.last())
    &&& post.containers.last().windows_seq() == seq![w]
    &&& post == (WorkspaceView {
        containers: post.containers,
        focused: pre.containers.len() as int,
        resize: pre.resize.push(None),
        maximized: None,
        maximized_restore: None,
        ..pre
    })
}

/// Reintegration of the maximized window is blocked: the first container
/// carrying the remembered id already holds the window's handle, so
/// reinserting would duplicate it.
pub open spec fn reinsertion_blocked(w: WorkspaceView) -> bool {
    &&& w.maximized is Some
    &&& w.maximized_restore is Some
    &&& exists|k: int|
        {
            &&& 0 <= k < w.containers.len()
            &&& (#[trigger] w.containers[k]).id_chars()
                == w.maximized_restore.unwrap().container_id@
            &&& (forall|j: int|
                0 <= j < k ==> (#[trigger] w.containers[j]).id_chars()
                    != w.maximized_restore.unwrap().container_id@)
            &&& w.containers[k].contains_hwnd(w.maximized.unwrap().hwnd)
        }
}

/// One reintegration step: the maximized window `w` went back into the
/// container at `k`, the first container whose id matches the remembered
/// one, at the remembered sub-index (clamped to the stack's length), and
/// that container took the focus.
pub open spec fn reintegrated_at(
    pre: WorkspaceView,
    post: WorkspaceView,
    w: Window,
    mr: MaximizedRestore,
    k: int,
) -> bool {
    &&& 0 <= k < pre.containers.len()
    &&& pre.containers[k].id_chars() == mr.container_id@
    &&& forall|j: int| 0 <= j < k ==> (#[trigger] pre.containers[j]).id_chars() != mr.container_id@
    &&& {
        let c = pre.containers[k];
        let ins = if mr.window_idx <= c.windows_seq().len() {
            mr.window_idx as int
        } else {
            c.windows_seq().len() as int
        };
        &&& post.containers.len() == pre.containers.len()
        &&& forall|j: int|
            0 <= j < post.containers.len() && j != k ==> post.containers[j]
                == pre.containers[j]
        &&& post.containers[k].windows_seq() == c.windows_seq().insert(ins, w)
        &&& post.containers[k].focused_window_spec() == ins
        &&& post.containers[k].id_chars() == c.id_chars()
        &&& post == (WorkspaceView {
            containers: post.containers,
            focused: k,
            maximized: None,
            maximized_restore: None,
            ..pre
        })
    }
}

/// A side length clamped into `[0, COORD_LIMIT]`.
pub open spec fn side_clamp(x: int) -> int {
    if x < 0 {
        0
    } else if x > COORD_LIMIT as int {
        COORD_LIMIT as int
    } else {
        x
    }
}

/// The work area shrunk by the outer padding on every side; the sides are
/// clamped so the area stays within the layout bounds.
pub open spec fn spec_shrink_region(wa: Region, p: int) -> Region {
    Region {
        left: wa.left + p,
        top: wa.top + p,
        right: side_clamp(wa.right - 2 * p),
        bottom: side_clamp(wa.bottom - 2 * p),
    }
}

/// The work area shrunk by the outer padding, executable form.
fn shrink_area(wa: &Rect, p: Option<i32>) -> (r: Rect)
    requires
        wa.in_bounds(),
        padding_field_ok(p),
    ensures
        r.region() == spec_shrink_region(wa.region(), crate::layout::pad_int(p)),
        r.region().ok(),
        r == rect_of_region(spec_shrink_region(wa.region(), crate::layout::pad_int(p))),
{
    let pv: i32 = match p {
        Some(p) => p,
        None => 0,
    };
    let mut right = wa.right - 2 * pv;
    if right < 0 {
        right = 0;
    } else if right > COORD_LIMIT {
        right = COORD_LIMIT;
    }
    let mut bottom = wa.bottom - 2 * pv;
    if bottom < 0 {
        bottom = 0;
    } else if bottom > COORD_LIMIT {
        bottom = COORD_LIMIT;
    }
    Rect { left: wa.left + pv, top: wa.top + pv, right, bottom }
}

/// The visibility and position calls that present one container inside its
/// layout rectangle: the focused window is positioned (border-corrected,
/// not topmost), every other window is hidden, in index order.
pub open spec fn spec_present_cmds(c: Container, rect: Rect) -> Seq<OsCommand> {
    Seq::new(
        c.windows_seq().len(),
        |j: int|
            if j == c.focused_window_spec() {
                OsCommand::Position {
                    hwnd: c.windows_seq()[j].hwnd,
                    rect: spec_border_rect(rect),
                    topmost: false,
                }
            } else {
                OsCommand::Hide(c.windows_seq()[j].hwnd)
            },
    )
}

/// The calls that present containers `i..` of `cs` in their rectangles.
pub open spec fn spec_tiled_cmds(cs: Seq<Container>, rects: Seq<Rect>, i: int) -> Seq<OsCommand>
    decreases cs.len() - i,
{
    if i < 0 || i >= cs.len() {
        Seq::empty()
    } else {
        spec_present_cmds(cs[i], rects[i]) + spec_tiled_cmds(cs, rects, i + 1)
    }
}

/// The restore calls that keep every floating window visible.
pub open spec fn spec_restore_cmds(ws: Seq<Window>) -> Seq<OsCommand> {
    Seq::new(ws.len(), |i: int| OsCommand::Restore(ws[i].hwnd))
}

/// The rectangles the layout engine computes for this workspace on `wa`.
pub open spec fn spec_layout_rects(v: WorkspaceView, wa: Rect) -> Seq<Rect> {
    let area = spec_shrink_region(wa.region(), crate::layout::pad_int(v.workspace_padding));
    let regions = crate::layout::spec_calculate(
        v.layout,
        area,
        v.containers.len(),
        v.container_padding,
        v.layout_flip,
        v.resize,
    );
    Seq::new(regions.len(), |i: int| rect_of_region(regions[i]))
}

/// Every OS call one `update` issues for this workspace on `wa`:
/// - nothing, when tiling is off;
/// - a single native maximize, when a maximized window is set;
/// - a single position of the monocle container's focused window over the
///   whole padded work area, when a monocle container is set;
/// - otherwise one presentation per container in its layout rectangle,
///   followed by a restore of every floating window.
pub open spec fn spec_update_cmds(v: WorkspaceView, wa: Rect) -> Seq<OsCommand> {
    if !v.tile {
        Seq::empty()
    } else if v.maximized is Some {
        seq![OsCommand::Maximize(v.maximized.unwrap().hwnd)]
    } else if v.monocle is Some {
        let c = v.monocle.unwrap();
        seq![
            OsCommand::Position {
                hwnd: c.windows_seq()[c.focused_window_spec()].hwnd,
                rect: spec_border_rect(
                    rect_of_region(
                        spec_shrink_region(
                            wa.region(),
                            crate::layout::pad_int(v.workspace_padding),
                        ),
                    ),
                ),
                topmost: true,
            },
        ]
    } else if v.containers.len() == 0 || v.containers.len() > COORD_LIMIT as nat {
        spec_restore_cmds(v.floating)
    } else {
        spec_tiled_cmds(v.containers, spec_layout_rects(v, wa), 0) + spec_restore_cmds(v.floating)
    }
}

/// Present one container: position its focused window in `rect`, hide the
/// rest.
fn present_container(c: &Container, rect: &Rect, sink: &mut OsSink)
    requires
        c.wf(),
        rect.region().positionable(),
    ensures
        final(sink).cmds() == old(sink).cmds() + spec_present_cmds(*c, *rect),
        old(sink).wf() ==> final(sink).wf(),
    {
    let f = c.focused_window_idx();
    let ws = c.windows();
    let mut j: usize = 0;
    let n = ws.len();
    while j < n
        invariant
            c.wf(),
            rect.region().positionable(),
            ws.seq() == c.windows_seq(),
            n == c.windows_seq().len(),
            j <= n,
            f == c.focused_window_spec(),
            sink.cmds() == old(sink).cmds() + spec_present_cmds(*c, *rect).take(j as int),
            old(sink).wf() ==> sink.wf(),
        decreases n - j,
    {
        let w = *ws.get(j).unwrap();
        if j == f {
            w.set_position(rect, false, sink);
        } else {
            w.hide_window(sink);
        }
        proof {
            assert(sink.cmds() =~= old(sink).cmds() + spec_present_cmds(*c, *rect).take(
                j + 1,
            ));
        }
        j = j + 1;
    }
    proof {
        assert(spec_present_cmds(*c, *rect).take(n as int) =~= spec_present_cmds(*c, *rect));
    }
}

impl Workspace {
    /// Project this workspace onto the OS: queue the visibility and
    /// position calls that realise its current state inside `work_area`.
    ///
    /// When tiling is off nothing is positioned. A maximized window takes
    /// the whole screen natively; a monocle container takes the padded
    /// work area; otherwise the layout engine computes one rectangle per
    /// container and every container is presented in its rectangle. The
    /// floating windows are then restored so they stay visible. The
    /// hidden-window registry follows the individual hide and restore
    /// calls.
    pub fn update(&self, work_area: &Rect, sink: &mut OsSink)
        requires
            self.wf(),
            work_area.in_bounds(),
        ensures
            final(sink).cmds() == old(sink).cmds() + spec_update_cmds(self@, *work_area),
            old(sink).wf() ==> final(sink).wf(),
    {
        if !self.tile {
            proof {
                assert(sink.cmds() =~= old(sink).cmds() + spec_update_cmds(self@, *work_area));
            }
            return ;
        }
        if let Some(w) = self.maximized_window {
            w.maximize(sink);
            proof {
                assert(sink.cmds() =~= old(sink).cmds() + spec_update_cmds(self@, *work_area));
            }
            return ;
        }
        match &self.monocle_container {
            Some(c) => {
                let adjusted = shrink_area(work_area, self.workspace_padding);
                let w = *c.windows().focused().unwrap();
                w.set_position(&adjusted, true, sink);
                proof {
                    assert(sink.cmds() =~= old(sink).cmds() + spec_update_cmds(
                        self@,
                        *work_area,
                    ));
                }
                return ;
            },
            None => {},
        }
        let n = self.containers.len();
        let ghost pre_tiled = sink.cmds();
        if n > 0 && n <= COORD_LIMIT as usize {
            let adjusted = shrink_area(work_area, self.workspace_padding);
            let rects = self.layout.calculate(
                &adjusted,
                n,
                self.container_padding,
                self.layout_flip,
                &self.resize_dimensions,
            );
            proof {
                crate::layout::lemma_calculate_positionable(
                    self@.layout,
                    adjusted.region(),
                    n as nat,
                    self@.container_padding,
                    self@.layout_flip,
                    self@.resize,
                );
                assert(rects@ =~= spec_layout_rects(self@, *work_area));
                assert forall|i: int| 0 <= i < rects@.len() implies (
                #[trigger] rects@[i]).region().positionable() by {
                    assert(rects@[i].region() == crate::layout::spec_calculate(
                        self@.layout,
                        adjusted.region(),
                        n as nat,
                        self@.container_padding,
                        self@.layout_flip,
                        self@.resize,
                    )[i]);
                }
            }
            let ghost rects_spec = rects@;
            let mut i: usize = 0;
            while i < n
                invariant
                    self.wf(),
                    n == self@.containers.len(),
                    i <= n,
                    rects@ == rects_spec,
                    rects_spec.len() == n,
                    rects@.len() == n,
                    forall|k: int|
                        0 <= k < rects@.len() ==> (#[trigger] rects@[k]).region().positionable(),
                    pre_tiled + spec_tiled_cmds(self@.containers, rects_spec, 0) == sink.cmds()
                        + spec_tiled_cmds(self@.containers, rects_spec, i as int),
                    old(sink).wf() ==> sink.wf(),
                decreases n - i,
            {
                present_container(self.containers.get(i).unwrap(), &rects[i], sink);
                proof {
                    assert(pre_tiled + spec_tiled_cmds(self@.containers, rects_spec, 0)
                        =~= sink.cmds() + spec_tiled_cmds(
                        self@.containers,
                        rects_spec,
                        i + 1,
                    ));
                }
                i = i + 1;
            }
            proof {
                assert(sink.cmds() =~= pre_tiled + spec_tiled_cmds(
                    self@.containers,
                    rects_spec,
                    0,
                ));
            }
        }
        let ghost pre_floating = sink.cmds();
        let mut i: usize = 0;
        let fl = self.floating_windows.len();
        while i < fl
            invariant
                self.wf(),
                fl == self@.floating.len(),
                i <= fl,
                sink.cmds() == pre_floating + spec_restore_cmds(self@.floating).take(i as int),
                old(sink).wf() ==> sink.wf(),
            decreases fl - i,
        {
            let w = self.floating_windows[i];
            w.restore(sink);
            proof {
                assert(sink.cmds() =~= pre_floating + spec_restore_cmds(self@.floating).take(
                    i + 1,
                ));
            }
            i = i + 1;
        }
        proof {
            assert(spec_restore_cmds(self@.floating).take(fl as int) =~= spec_restore_cmds(
                self@.floating,
            ));
            assert(sink.cmds() =~= old(sink).cmds() + spec_update_cmds(self@, *work_area));
        }
    }
}

/// Whether any container of the ring holds the window with this handle.
pub open spec fn view_tiled_contains(v: WorkspaceView, hwnd: isize) -> bool {
    exists|i: int|
        0 <= i < v.containers.len() && (#[trigger] v.containers[i]).contains_hwnd(hwnd)
}

/// Whether the workspace holds the window anywhere.
pub open spec fn view_contains(v: WorkspaceView, hwnd: isize) -> bool {
    ||| view_tiled_contains(v, hwnd)
    ||| exists|i: int| 0 <= i < v.floating.len() && v.floating[i].hwnd == hwnd
    ||| v.maximized matches Some(w) && w.hwnd == hwnd
    ||| v.monocle matches Some(c) && c.contains_hwnd(hwnd)
}

/// The focused workspace's state after entering monocle.
pub open spec fn monocle_on_view(w: WorkspaceView) -> WorkspaceView {
    WorkspaceView {
        containers: w.containers.remove(w.focused),
        focused: Ring::<Container>::focus_after_remove(
            w.focused,
            w.focused,
            w.containers.len() as int,
        ),
        resize: w.resize.remove(w.focused),
        monocle: Some(w.containers[w.focused]),
        monocle_restore: Some(w.focused as usize),
        ..w
    }
}

/// The focused workspace's state after leaving monocle.
pub open spec fn monocle_off_view(w: WorkspaceView) -> WorkspaceView {
    let c = w.monocle.unwrap();
    let idx = w.monocle_restore.unwrap() as int;
    let ins = if idx <= w.containers.len() {
        idx
    } else {
        w.containers.len() as int
    };
    WorkspaceView {
        containers: w.containers.insert(ins, c),
        focused: ins,
        resize: w.resize.insert(ins, None),
        monocle: None,
        monocle_restore: None,
        ..w
    }
}

/// The focused window of a workspace's focused container.
pub open spec fn focused_window_of(w: WorkspaceView) -> Window {
    w.containers[w.focused].windows_seq()[w.containers[w.focused].focused_window_spec()]
}

/// Entering and then leaving monocle restores the previous container
/// arrangement and focus exactly; only the focused container's resize
/// slot is reset.
pub proof fn lemma_monocle_round_trip(w: WorkspaceView)
    requires
        view_wf(w),
        0 < w.containers.len() <= usize::MAX,
        w.monocle is None,
        w.maximized is None,
    ensures
        ({
            let c = monocle_off_view(monocle_on_view(w));
            &&& c.containers == w.containers
            &&& c.focused == w.focused
            &&& c.monocle is None
            &&& c.monocle_restore is None
            &&& c.resize == w.resize.update(w.focused, None)
            &&& c == (WorkspaceView { resize: c.resize, ..w })
        }),
{
    let b = monocle_on_view(w);
    let c = monocle_off_view(b);
    let f = w.focused;
    assert(c.containers =~= w.containers);
    assert(c.resize =~= w.resize.update(f, None));
    assert(c =~= (WorkspaceView { resize: c.resize, ..w }));
}

/// Natively maximizing the focused window of a multi-window container and
/// then undoing it restores the container arrangement, the window order
/// and the focused window sub-index exactly. `b` is the state after the
/// maximize, `c` the state after the reintegration.
pub proof fn lemma_maximize_round_trip(a: WorkspaceView, b: WorkspaceView, c: WorkspaceView)
    requires
        view_wf(a),
        a.containers.len() > 0,
        a.monocle is None,
        a.maximized is None,
        a.containers[a.focused].windows_seq().len() >= 2,
        ({
            let ca = a.containers[a.focused];
            let wi = ca.focused_window_spec();
            &&& b.maximized == Some(ca.windows_seq()[wi])
            &&& b.maximized_restore matches Some(mr) && mr.container_idx == a.focused
                && mr.window_idx == wi && mr.container_id@ == ca.id_chars()
            &&& b.containers.len() == a.containers.len()
            &&& forall|j: int|
                0 <= j < b.containers.len() && j != a.focused ==> b.containers[j]
                    == a.containers[j]
            &&& b.containers[a.focused].windows_seq() == ca.windows_seq().remove(wi)
            &&& b.containers[a.focused].focused_window_spec() == (if wi >= 1 {
                wi - 1
            } else {
                0
            })
            &&& b.containers[a.focused].id_chars() == ca.id_chars()
            &&& b == (WorkspaceView {
                containers: b.containers,
                maximized: b.maximized,
                maximized_restore: b.maximized_restore,
                ..a
            })
        }),
        reintegrated_at(b, c, b.maximized.unwrap(), b.maximized_restore.unwrap(), a.focused),
    ensures
        c.containers.len() == a.containers.len(),
        forall|j: int|
            0 <= j < c.containers.len() ==> (#[trigger] c.containers[j]).windows_seq()
                == a.containers[j].windows_seq() && c.containers[j].focused_window_spec()
                == a.containers[j].focused_window_spec() && c.containers[j].id_chars()
                == a.containers[j].id_chars(),
        c.focused == a.focused,
        c.maximized is None,
        c.maximized_restore is None,
        c == (WorkspaceView { containers: c.containers, ..a }),
{
    let ca = a.containers[a.focused];
    let wi = ca.focused_window_spec();
    let f = a.focused;
    assert(c.containers[f].windows_seq() =~= ca.windows_seq());
    assert forall|j: int|
        0 <= j < c.containers.len() implies (#[trigger] c.containers[j]).windows_seq()
        == a.containers[j].windows_seq() && c.containers[j].focused_window_spec()
        == a.containers[j].focused_window_spec() && c.containers[j].id_chars()
        == a.containers[j].id_chars() by {
        if j != f {
            assert(c.containers[j] == b.containers[j]);
            assert(b.containers[j] == a.containers[j]);
        }
    }
    assert(c =~= (WorkspaceView { containers: c.containers, ..a }));
}

/// The shape of one float step: the focused window of the focused
/// container moved to the end of the floating set; an emptied source
/// container is gone with its resize slot, otherwise the source kept its
/// other windows with the focus slid back.
pub open spec fn floated_focused_window(pre: WorkspaceView, post: WorkspaceView) -> bool {
    &&& pre.containers.len() > 0
    &&& post.floating == pre.floating.push(focused_window_of(pre))
    &&& if pre.containers[pre.focused].windows_seq().len() == 1 {
        post == (WorkspaceView {
            containers: pre.containers.remove(pre.focused),
            focused: Ring::<Container>::focus_after_remove(
                pre.focused,
                pre.focused,
                pre.containers.len() as int,
            ),
            resize: pre.resize.remove(pre.focused),
            floating: post.floating,
            ..pre
        })
    } else {
        &&& post.containers.len() == pre.containers.len()
        &&& forall|j: int|
            0 <= j < post.containers.len() && j != pre.focused ==> post.containers[j]
                == pre.containers[j]
        &&& post.containers[pre.focused].windows_seq()
            == pre.containers[pre.focused].windows_seq().remove(
            pre.containers[pre.focused].focused_window_spec(),
        )
        &&& post == (WorkspaceView {
            containers: post.containers,
            floating: post.floating,
            ..pre
        })
    }
}

/// The shape of one unstack: the focused window left the focused
/// container for a fresh container of its own, inserted right after the
/// focused position (clamped when the emptied source was dropped first),
/// which took the focus and a fresh resize slot.
pub open spec fn unstacked_focused_window(pre: WorkspaceView, post: WorkspaceView) -> bool {
    &&& pre.containers.len() > 0
    &&& {
        let f = pre.focused;
        let c0 = pre.containers[f];
        let w = focused_window_of(pre);
        if c0.windows_seq().len() == 1 {
            let mid = pre.containers.remove(f);
            let ins = if f + 1 <= mid.len() {
                f + 1
            } else {
                mid.len() as int
            };
            &&& post.containers.len() == pre.containers.len()
            &&& post.containers == mid.insert(ins, post.containers[ins])
            &&& post.containers[ins].windows_seq() == seq![w]
            &&& post == (WorkspaceView {
                containers: post.containers,
                focused: ins,
                resize: pre.resize.remove(f).insert(ins, None),
                ..pre
            })
        } else {
            let wi = c0.focused_window_spec();
            &&& post.containers.len() == pre.containers.len() + 1
            &&& forall|j: int| 0 <= j < f ==> post.containers[j] == pre.containers[j]
            &&& forall|j: int|
                f + 1 < j < post.containers.len() ==> post.containers[j] == pre.containers[j
                    - 1]
            &&& post.containers[f].windows_seq() == c0.windows_seq().remove(wi)
            &&& post.containers[f].id_chars() == c0.id_chars()
            &&& post.containers[f + 1].windows_seq() == seq![c0.windows_seq()[wi]]
            &&& post == (WorkspaceView {
                containers: post.containers,
                focused: f + 1,
                resize: pre.resize.insert(f + 1, None),
                ..pre
            })
        }
    }
}

/// The shape of one stacking move: the focused window left the focused
/// container and was appended to (and focused in) the container at
/// `target`, an index into the ring as it stands after an emptied source
/// is dropped; the target container took the ring focus.
pub open spec fn moved_window_to_container(
    pre: WorkspaceView,
    post: WorkspaceView,
    target: int,
) -> bool {
    &&& pre.containers.len() > 0
    &&& {
        let f = pre.focused;
        let c0 = pre.containers[f];
        let w = focused_window_of(pre);
        if c0.windows_seq().len() == 1 {
            let mid = pre.containers.remove(f);
            &&& 0 <= target < mid.len()
            &&& post.containers.len() == mid.len()
            &&& forall|j: int|
                0 <= j < post.containers.len() && j != target ==> post.containers[j] == mid[j]
            &&& post.containers[target].windows_seq() == mid[target].windows_seq().push(w)
            &&& post.containers[target].focused_window_spec()
                == mid[target].windows_seq().len() as int
            &&& post.containers[target].id_chars() == mid[target].id_chars()
            &&& post == (WorkspaceView {
                containers: post.containers,
                focused: target,
                resize: pre.resize.remove(f),
                ..pre
            })
        } else {
            &&& 0 <= target < pre.containers.len()
            &&& target != f
            &&& post.containers.len() == pre.containers.len()
            &&& forall|j: int|
                0 <= j < post.containers.len() && j != f && j != target ==> post.containers[j]
                    == pre.containers[j]
            &&& post.containers[f].windows_seq() == c0.windows_seq().remove(
                c0.focused_window_spec(),
            )
            &&& post.containers[f].focused_window_spec() == (if c0.focused_window_spec() >= 1 {
                c0.focused_window_spec() - 1
            } else {
                0
            })
            &&& post.containers[f].id_chars() == c0.id_chars()
            &&& post.containers[target].windows_seq()
                == pre.containers[target].windows_seq().push(w)
            &&& post.containers[target].focused_window_spec()
                == pre.containers[target].windows_seq().len() as int
            &&& post.containers[target].id_chars() == pre.containers[target].id_chars()
            &&& post == (WorkspaceView { containers: post.containers, focused: target, ..pre })
        }
    }
}

/// The shape of one unfloat step: the window with the handle left the
/// floating set (its first occurrence) and became the only window of a
/// fresh container inserted right after the focused one, which took the
/// focus and a fresh resize slot.
pub open spec fn unfloated_window(pre: WorkspaceView, post: WorkspaceView, hwnd: isize) -> bool {
    &&& pre.floating.contains(Window { hwnd })
    &&& post.floating == pre.floating.remove_value(Window { hwnd })
    &&& {
        let ins = if pre.focused + 1 <= pre.containers.len() {
            pre.focused + 1
        } else {
            pre.containers.len() as int
        };
        &&& post.containers == pre.containers.insert(ins, post.containers[ins])
        &&& post.containers[ins].windows_seq() == seq![Window { hwnd }]
        &&& post == (WorkspaceView {
            containers: post.containers,
            focused: ins,
            resize: pre.resize.insert(ins, None),
            floating: post.floating,
            ..pre
        })
    }
}

/// The state after floating the lone window of the focused container,
/// when that container is the last one.
pub open spec fn float_single_view(w: WorkspaceView) -> WorkspaceView {
    WorkspaceView {
        containers: w.containers.remove(w.focused),
        focused: Ring::<Container>::focus_after_remove(
            w.focused,
            w.focused,
            w.containers.len() as int,
        ),
        resize: w.resize.remove(w.focused),
        floating: w.floating.push(
            w.containers[w.focused].windows_seq()[w.containers[w.focused].focused_window_spec()],
        ),
        ..w
    }
}

/// Floating the lone window of the last container and then unfloating it
/// returns the workspace to an equivalent state: the same container
/// membership (under a fresh container identity), the same focused
/// indices, and the same floating set; only the container's resize slot
/// is reset.
pub proof fn lemma_float_round_trip(a: WorkspaceView, c: WorkspaceView, fresh: Container)
    requires
        view_wf(a),
        a.containers.len() > 0,
        a.focused == a.containers.len() - 1,
        a.monocle is None,
        a.maximized is None,
        a.containers[a.focused].windows_seq().len() == 1,
        !a.floating.contains(a.containers[a.focused].windows_seq()[0]),
        fresh.windows_seq() == seq![a.containers[a.focused].windows_seq()[0]],
        fresh.focused_window_spec() == 0,
        ({
            let b = float_single_view(a);
            let win = a.containers[a.focused].windows_seq()[0];
            let ins = if b.focused + 1 <= b.containers.len() {
                b.focused + 1
            } else {
                b.containers.len() as int
            };
            c == (WorkspaceView {
                containers: b.containers.insert(ins, fresh),
                focused: ins,
                resize: b.resize.insert(ins, None),
                floating: b.floating.remove_value(win),
                ..b
            })
        }),
    ensures
        c.containers.len() == a.containers.len(),
        forall|j: int|
            0 <= j < c.containers.len() ==> (#[trigger] c.containers[j]).windows_seq()
                == a.containers[j].windows_seq() && c.containers[j].focused_window_spec()
                == a.containers[j].focused_window_spec(),
        c.focused == a.focused,
        c.floating == a.floating,
        c.resize == a.resize.update(a.focused, None),
        c == (WorkspaceView { containers: c.containers, resize: c.resize, ..a }),
{
    let f = a.focused;
    let win = a.containers[f].windows_seq()[0];
    let b = float_single_view(a);
    let ins = if b.focused + 1 <= b.containers.len() {
        b.focused + 1
    } else {
        b.containers.len() as int
    };
    assert(ins == f);
    assert(a.containers[f].focused_window_spec() == 0);
    assert forall|j: int|
        0 <= j < c.containers.len() implies (#[trigger] c.containers[j]).windows_seq()
        == a.containers[j].windows_seq() && c.containers[j].focused_window_spec()
        == a.containers[j].focused_window_spec() by {
        if j < f {
            assert(c.containers[j] == b.containers[j]);
            assert(b.containers[j] == a.containers[j]);
        } else {
            assert(c.containers[j] == fresh);
        }
    }
    a.floating.push(win).index_of_first_ensures(win);
    let idx_opt = a.floating.push(win).index_of_first(win);
    assert(a.floating.push(win)[a.floating.len() as int] == win);
    assert(a.floating.push(win).contains(win));
    assert(idx_opt is Some);
    let k = idx_opt.unwrap();
    if k < a.floating.len() {
        assert(a.floating.push(win)[k] == a.floating[k]);
        assert(a.floating.contains(win)) by {
            assert(a.floating[k] == win);
        }
        assert(false);
    }
    assert(k == a.floating.len());
    assert(c.floating =~= a.floating);
    assert(c.resize =~= a.resize.update(f, None));
    assert(c =~= (WorkspaceView { containers: c.containers, resize: c.resize, ..a }));
}

/// Every window handle appears in at most one location across the
/// workspace: the tiled containers are pairwise disjoint, the floating
/// windows are distinct, and the floating set, the maximized window and
/// the stashed monocle container are disjoint from the containers and
/// from one another. Together with each container's own distinctness
/// (part of `Container::wf`), a handle has at most one home.
pub open spec fn view_handles_unique(v: WorkspaceView) -> bool {
    &&& forall|i: int, j: int, h: isize|
        0 <= i < v.containers.len() && 0 <= j < v.containers.len() && i != j ==> !((
        #[trigger] v.containers[i].contains_hwnd(h)) && (#[trigger] v.containers[j].contains_hwnd(
            h,
        )))
    &&& forall|x: int, y: int|
        0 <= x < y < v.floating.len() ==> v.floating[x].hwnd != v.floating[y].hwnd
    &&& forall|i: int, x: int|
        0 <= i < v.containers.len() && 0 <= x < v.floating.len() ==> !(
        #[trigger] v.containers[i].contains_hwnd(v.floating[x].hwnd))
    &&& match v.maximized {
        Some(w) => {
            &&& forall|i: int|
                0 <= i < v.containers.len() ==> !(#[trigger] v.containers[i].contains_hwnd(
                    w.hwnd,
                ))
            &&& forall|x: int| 0 <= x < v.floating.len() ==> v.floating[x].hwnd != w.hwnd
            &&& match v.monocle {
                Some(c) => !c.contains_hwnd(w.hwnd),
                None => true,
            }
        },
        None => true,
    }
    &&& match v.monocle {
        Some(c) => {
            &&& forall|i: int, h: isize|
                0 <= i < v.containers.len() ==> !((#[trigger] v.containers[i].contains_hwnd(h))
                    && c.contains_hwnd(h))
            &&& forall|x: int| 0 <= x < v.floating.len() ==> !c.contains_hwnd(v.floating[x].hwnd)
        },
        None => true,
    }
}

/// Entering monocle moves a whole container aside and leaving it puts the
/// container back: neither step can duplicate a window handle, so the
/// at-most-one-home invariant survives the round trip.
pub proof fn lemma_monocle_preserves_uniqueness(w: WorkspaceView)
    requires
        view_wf(w),
        view_handles_unique(w),
        0 < w.containers.len() <= usize::MAX,
        w.monocle is None,
        w.maximized is None,
    ensures
        view_handles_unique(monocle_on_view(w)),
        view_handles_unique(monocle_off_view(monocle_on_view(w))),
{
    let b = monocle_on_view(w);
    let f = w.focused;
    let n = w.containers.len() as int;
    assert forall|i: int, j: int, h: isize|
        0 <= i < b.containers.len() && 0 <= j < b.containers.len() && i != j implies !((
    #[trigger] b.containers[i].contains_hwnd(h)) && (#[trigger] b.containers[j].contains_hwnd(
        h,
    ))) by {
        let oi = if i < f {
            i
        } else {
            i + 1
        };
        let oj = if j < f {
            j
        } else {
            j + 1
        };
        assert(b.containers[i] == w.containers[oi]);
        assert(b.containers[j] == w.containers[oj]);
    }
    assert forall|i: int, x: int|
        0 <= i < b.containers.len() && 0 <= x < b.floating.len() implies !(
    #[trigger] b.containers[i].contains_hwnd(b.floating[x].hwnd)) by {
        let oi = if i < f {
            i
        } else {
            i + 1
        };
        assert(b.containers[i] == w.containers[oi]);
    }
    assert forall|i: int, h: isize|
        0 <= i < b.containers.len() implies !((#[trigger] b.containers[i].contains_hwnd(h))
        && b.monocle.unwrap().contains_hwnd(h)) by {
        let oi = if i < f {
            i
        } else {
            i + 1
        };
        assert(b.containers[i] == w.containers[oi]);
        assert(b.monocle.unwrap() == w.containers[f]);
    }
    assert forall|x: int|
        0 <= x < b.floating.len() implies !b.monocle.unwrap().contains_hwnd(
        b.floating[x].hwnd,
    ) by {
        assert(b.monocle.unwrap() == w.containers[f]);
    }

    let c = monocle_off_view(b);
    lemma_monocle_round_trip(w);
    assert forall|i: int, j: int, h: isize|
        0 <= i < c.containers.len() && 0 <= j < c.containers.len() && i != j implies !((
    #[trigger] c.containers[i].contains_hwnd(h)) && (#[trigger] c.containers[j].contains_hwnd(
        h,
    ))) by {
        assert(c.containers[i] == w.containers[i]);
        assert(c.containers[j] == w.containers[j]);
    }
    assert forall|i: int, x: int|
        0 <= i < c.containers.len() && 0 <= x < c.floating.len() implies !(
    #[trigger] c.containers[i].contains_hwnd(c.floating[x].hwnd)) by {
        assert(c.containers[i] == w.containers[i]);
        assert(c.floating[x] == w.floating[x]);
    }
}

/// Floating the lone window of the last container moves one handle from
/// the container ring to the floating set: the at-most-one-home invariant
/// survives.
pub proof fn lemma_float_preserves_uniqueness(w: WorkspaceView)
    requires
        view_wf(w),
        view_handles_unique(w),
        0 < w.containers.len() <= usize::MAX,
        w.focused == w.containers.len() - 1,
        w.containers[w.focused].windows_seq().len() == 1,
        w.monocle is None,
        w.maximized is None,
    ensures
        view_handles_unique(float_single_view(w)),
{
    let b = float_single_view(w);
    let f = w.focused;
    let win = w.containers[f].windows_seq()[w.containers[f].focused_window_spec()];
    assert(w.containers[f].contains_hwnd(win.hwnd)) by {
        assert(w.containers[f].windows_seq()[w.containers[f].focused_window_spec()].hwnd
            == win.hwnd);
    }
    assert forall|i: int, j: int, h: isize|
        0 <= i < b.containers.len() && 0 <= j < b.containers.len() && i != j implies !((
    #[trigger] b.containers[i].contains_hwnd(h)) && (#[trigger] b.containers[j].contains_hwnd(
        h,
    ))) by {
        assert(b.containers[i] == w.containers[i]);
        assert(b.containers[j] == w.containers[j]);
    }
    assert forall|x: int, y: int|
        0 <= x < y < b.floating.len() implies b.floating[x].hwnd != b.floating[y].hwnd by {
        if y < w.floating.len() {
        } else {
            assert(b.floating[y] == win);
            assert(b.floating[x] == w.floating[x]);
            assert(!w.containers[f].contains_hwnd(w.floating[x].hwnd));
        }
    }
    assert forall|i: int, x: int|
        0 <= i < b.containers.len() && 0 <= x < b.floating.len() implies !(
    #[trigger] b.containers[i].contains_hwnd(b.floating[x].hwnd)) by {
        assert(b.containers[i] == w.containers[i]);
        if x < w.floating.len() {
            assert(b.floating[x] == w.floating[x]);
            assert(!w.containers[i].contains_hwnd(w.floating[x].hwnd));
        } else {
            assert(b.floating[x] == win);
            assert(i != f);
            assert(w.containers[f].contains_hwnd(win.hwnd));
            assert(!(w.containers[i].contains_hwnd(win.hwnd) && w.containers[f].contains_hwnd(
                win.hwnd,
            )));
        }
    }
}

/// Two workspaces carry the same state: equal plain fields and
/// state-equal containers (container identities included).
pub open spec fn same_workspace_state(a: Workspace, b: Workspace) -> bool {
    &&& b@.name == a@.name
    &&& b@.containers.len() == a@.containers.len()
    &&& forall|k: int|
        0 <= k < a@.containers.len() ==> crate::container::same_container_state(
            a@.containers[k],
            #[trigger] b@.containers[k],
        )
    &&& b@.focused == a@.focused
    &&& match (a@.monocle, b@.monocle) {
        (Some(x), Some(y)) => crate::container::same_container_state(x, y),
        (None, None) => true,
        _ => false,
    }
    &&& b@.monocle_restore == a@.monocle_restore
    &&& b@.maximized == a@.maximized
    &&& b@.maximized_restore == a@.maximized_restore
    &&& b@.floating == a@.floating
    &&& b@.layout == a@.layout
    &&& b@.layout_flip == a@.layout_flip
    &&& b@.workspace_padding == a@.workspace_padding
    &&& b@.container_padding == a@.container_padding
    &&& b@.resize == a@.resize
    &&& b@.tile == a@.tile
}

impl Workspace {
    /// A snapshot of this workspace: a fresh value with the same state.
    pub fn duplicated(&self) -> (r: Workspace)
        ensures
            same_workspace_state(*self, r),
    {
        let name: Option<String> = match &self.name {
            Some(n) => Some(n.clone()),
            None => None,
        };
        let mut containers: Vec<Container> = Vec::new();
        let n = self.containers.len();
        let mut i: usize = 0;
        while i < n
            invariant
                n == self@.containers.len(),
                i <= n,
                containers@.len() == i,
                forall|k: int|
                    0 <= k < i ==> crate::container::same_container_state(
                        self@.containers[k],
                        #[trigger] containers@[k],
                    ),
            decreases n - i,
        {
            containers.push(self.containers.get(i).unwrap().duplicated());
            i = i + 1;
        }
        let monocle_container: Option<Container> = match &self.monocle_container {
            Some(c) => Some(c.duplicated()),
            None => None,
        };
        let maximized_restore: Option<MaximizedRestore> = match &self.maximized_restore {
            Some(mr) => Some(
                MaximizedRestore {
                    container_idx: mr.container_idx,
                    window_idx: mr.window_idx,
                    container_id: mr.container_id.clone(),
                },
            ),
            None => None,
        };
        let mut floating_windows: Vec<Window> = Vec::new();
        let fl = self.floating_windows.len();
        let mut i: usize = 0;
        while i < fl
            invariant
                fl == self@.floating.len(),
                i <= fl,
                floating_windows@ == self@.floating.take(i as int),
            decreases fl - i,
        {
            floating_windows.push(self.floating_windows[i]);
            proof {
                assert(floating_windows@ =~= self@.floating.take(i + 1));
            }
            i = i + 1;
        }
        proof {
            assert(floating_windows@ =~= self@.floating);
        }
        let mut resize_dimensions: Vec<Option<Rect>> = Vec::new();
        let rl = self.resize_dimensions.len();
        let mut i: usize = 0;
        while i < rl
            invariant
                rl == self@.resize.len(),
                i <= rl,
                resize_dimensions@ == self@.resize.take(i as int),
            decreases rl - i,
        {
            resize_dimensions.push(self.resize_dimensions[i]);
            proof {
                assert(resize_dimensions@ =~= self@.resize.take(i + 1));
            }
            i = i + 1;
        }
        proof {
            assert(resize_dimensions@ =~= self@.resize);
        }
        let r = Workspace {
            name,
            containers: Ring::from_parts(containers, self.containers.focused_idx()),
            monocle_container,
            monocle_restore_idx: self.monocle_restore_idx,
            maximized_window: self.maximized_window,
            maximized_restore,
            floating_windows,
            layout: self.layout,
            layout_flip: self.layout_flip,
            workspace_padding: self.workspace_padding,
            container_padding: self.container_padding,
            resize_dimensions,
            tile: self.tile,
        };
        proof {
            assert(r@.maximized_restore == self@.maximized_restore) by {
                match (self@.maximized_restore, r@.maximized_restore) {
                    (Some(x), Some(y)) => {
                        assert(x =~= y);
                    },
                    _ => {},
                }
            }
        }
        r
    }
}

/// Natively maximizing the focused window takes one handle out of the
/// containers and stores it as the maximized window: the at-most-one-home
/// invariant survives. `b` is the state after the maximize, described as
/// `new_maximized_window` leaves it in the multi-window case.
pub proof fn lemma_maximize_preserves_uniqueness(a: WorkspaceView, b: WorkspaceView)
    requires
        view_wf(a),
        view_handles_unique(a),
        a.containers.len() > 0,
        a.monocle is None,
        a.maximized is None,
        a.containers[a.focused].windows_seq().len() >= 2,
        ({
            let ca = a.containers[a.focused];
            let wi = ca.focused_window_spec();
            &&& b.maximized == Some(ca.windows_seq()[wi])
            &&& b.containers.len() == a.containers.len()
            &&& forall|j: int|
                0 <= j < b.containers.len() && j != a.focused ==> b.containers[j]
                    == a.containers[j]
            &&& b.containers[a.focused].windows_seq() == ca.windows_seq().remove(wi)
            &&& b.monocle is None
            &&& b.floating == a.floating
        }),
    ensures
        view_handles_unique(b),
{
    let f = a.focused;
    let ca = a.containers[f];
    let wi = ca.focused_window_spec();
    let w = ca.windows_seq()[wi];
    assert(ca.contains_hwnd(w.hwnd)) by {
        assert(ca.windows_seq()[wi].hwnd == w.hwnd);
    }
    assert forall|h: isize| #[trigger]
        b.containers[f].contains_hwnd(h) implies ca.contains_hwnd(h) by {
        let k = choose|k: int|
            0 <= k < b.containers[f].windows_seq().len() && b.containers[f].windows_seq()[k].hwnd
                == h;
        if k < wi {
            assert(ca.windows_seq()[k].hwnd == h);
        } else {
            assert(ca.windows_seq()[k + 1].hwnd == h);
        }
    }
    assert forall|i: int, j: int, h: isize|
        0 <= i < b.containers.len() && 0 <= j < b.containers.len() && i != j implies !((
    #[trigger] b.containers[i].contains_hwnd(h)) && (#[trigger] b.containers[j].contains_hwnd(
        h,
    ))) by {
        if b.containers[i].contains_hwnd(h) && b.containers[j].contains_hwnd(h) {
            assert(a.containers[i].contains_hwnd(h));
            assert(a.containers[j].contains_hwnd(h));
        }
    }
    assert forall|i: int, x: int|
        0 <= i < b.containers.len() && 0 <= x < b.floating.len() implies !(
    #[trigger] b.containers[i].contains_hwnd(b.floating[x].hwnd)) by {
        if b.containers[i].contains_hwnd(b.floating[x].hwnd) {
            assert(a.containers[i].contains_hwnd(a.floating[x].hwnd));
        }
    }
    assert forall|i: int|
        0 <= i < b.containers.len() implies !(#[trigger] b.containers[i].contains_hwnd(
        w.hwnd,
    )) by {
        if b.containers[i].contains_hwnd(w.hwnd) {
            if i != f {
                assert(a.containers[i].contains_hwnd(w.hwnd));
                assert(a.containers[f].contains_hwnd(w.hwnd));
            } else {
                // the focused container lost exactly that window, and a
                // well-formed container holds a handle at most once
                let k = choose|k: int|
                    0 <= k < b.containers[f].windows_seq().len()
                        && b.containers[f].windows_seq()[k].hwnd == w.hwnd;
                if k < wi {
                    assert(ca.windows_seq()[k].hwnd == ca.windows_seq()[wi].hwnd);
                } else {
                    assert(ca.windows_seq()[k + 1].hwnd == ca.windows_seq()[wi].hwnd);
                }
            }
        }
    }
    assert forall|x: int| 0 <= x < b.floating.len() implies b.floating[x].hwnd != w.hwnd by {
        if b.floating[x].hwnd == w.hwnd {
            assert(a.containers[f].contains_hwnd(a.floating[x].hwnd));
        }
    }
}

} // verus!