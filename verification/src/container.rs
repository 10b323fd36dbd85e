//! A container: an ordered, focus-tracked stack of windows sharing one
//! layout rectangle. Only the focused window of a container is visible;
//! the rest are hidden behind it.

use vstd::prelude::*;

use crate::os::OsCommand;
use crate::os::OsSink;
use crate::ring::Ring;
use crate::window::Window;

verus! {

/// Relies on `nanoid::format` with the default URL-safe alphabet and the
/// crate's OS random source: the result is a fresh identifier of exactly
/// 21 characters. Nothing more is assumed of a random identifier.
#[verifier::external_body]
fn fresh_container_id() -> (r: String)
    ensures
        r@.len() == 21,
{
    nanoid::format(nanoid::rngs::default, &nanoid::alphabet::SAFE, 21)
}

/// A stack of windows occupying one rectangle, identified by an opaque id.
/// Identity equality is by id.
#[derive(Debug, Clone)]
#[verifier::ext_equal]
pub struct Container {
    id: String,
    windows: Ring<Window>,
}

impl Container {
    /// The window stack as a sequence.
    pub closed spec fn windows_seq(self) -> Seq<Window> {
        self.windows.seq()
    }

    /// The focused window index.
    pub closed spec fn focused_window_spec(self) -> int {
        self.windows.focused_spec()
    }

    /// The identifier as a character sequence.
    pub closed spec fn id_chars(self) -> Seq<char> {
        self.id@
    }

    /// The focus invariant of the window stack: a non-empty stack focuses
    /// a valid index, an empty one parks the focus at zero.
    pub open spec fn windows_ring_wf(self) -> bool {
        if self.windows_seq().len() > 0 {
            0 <= self.focused_window_spec() < self.windows_seq().len()
        } else {
            self.focused_window_spec() == 0
        }
    }

    /// A well-formed container: the window ring keeps the focus invariant
    /// and no window handle occurs twice in the stack.
    pub open spec fn wf(self) -> bool {
        &&& self.windows_ring_wf()
        &&& forall|i: int, j: int|
            0 <= i < j < self.windows_seq().len() ==> self.windows_seq()[i].hwnd
                != self.windows_seq()[j].hwnd
    }

    pub fn new() -> (r: Container)
        ensures
            r.windows_seq() == Seq::<Window>::empty(),
            r.focused_window_spec() == 0,
            r.id_chars().len() == 21,
            r.wf(),
    {
        Container { id: fresh_container_id(), windows: Ring::new() }
    }

    /// Whether two containers are the same container: identity is by id.
    pub open spec fn same_id(self, other: Container) -> bool {
        self.id_chars() == other.id_chars()
    }

    /// The opaque identifier.
    pub fn id(&self) -> (r: &String)
        ensures
            r@ == self.id_chars(),
    {
        &self.id
    }

    /// The windows of this container.
    pub fn windows(&self) -> (r: &Ring<Window>)
        ensures
            r.seq() == self.windows_seq(),
            r.focused_spec() == self.focused_window_spec(),
    {
        &self.windows
    }

    pub fn focused_window_idx(&self) -> (r: usize)
        ensures
            r == self.focused_window_spec(),
    {
        self.windows.focused_idx()
    }

    pub fn focused_window(&self) -> (r: Option<Window>)
        requires
            self.windows_ring_wf(),
        ensures
            match r {
                Some(w) => self.windows_seq().len() > 0 && w == self.windows_seq()[self.focused_window_spec()],
                None => self.windows_seq().len() == 0,
            },
    {
        match self.windows.focused() {
            Some(w) => Some(*w),
            None => None,
        }
    }

    /// Whether the stack holds the window with this handle.
    pub fn contains_window(&self, hwnd: isize) -> (r: bool)
        ensures
            r == exists|i: int|
                0 <= i < self.windows_seq().len() && self.windows_seq()[i].hwnd == hwnd,
    {
        let mut i: usize = 0;
        let n = self.windows.len();
        while i < n
            invariant
                n == self.windows_seq().len(),
                i <= n,
                forall|j: int| 0 <= j < i ==> self.windows_seq()[j].hwnd != hwnd,
            decreases n - i,
        {
            if self.windows.get(i).unwrap().hwnd == hwnd {
                proof {
                    assert(self.windows_seq()[i as int].hwnd == hwnd);
                }
                return true;
            }
            i = i + 1;
        }
        false
    }

    /// The index of the window with this handle: the last occurrence, or
    /// `None` when the stack does not hold it.
    pub fn idx_for_window(&self, hwnd: isize) -> (r: Option<usize>)
        ensures
            match r {
                Some(i) => {
                    &&& i < self.windows_seq().len()
                    &&& self.windows_seq()[i as int].hwnd == hwnd
                    &&& forall|j: int|
                        i < j < self.windows_seq().len() ==> self.windows_seq()[j].hwnd != hwnd
                },
                None => forall|j: int|
                    0 <= j < self.windows_seq().len() ==> self.windows_seq()[j].hwnd != hwnd,
            },
    {
        let mut idx: Option<usize> = None;
        let mut i: usize = 0;
        let n = self.windows.len();
        while i < n
            invariant
                n == self.windows_seq().len(),
                i <= n,
                match idx {
                    Some(k) => {
                        &&& k < i
                        &&& self.windows_seq()[k as int].hwnd == hwnd
                        &&& forall|j: int| k < j < i ==> self.windows_seq()[j].hwnd != hwnd
                    },
                    None => forall|j: int| 0 <= j < i ==> self.windows_seq()[j].hwnd != hwnd,
                },
            decreases n - i,
        {
            if self.windows.get(i).unwrap().hwnd == hwnd {
                idx = Some(i);
            }
            i = i + 1;
        }
        idx
    }

    /// Remove and return the window at `idx`; `None` (and no change) when
    /// `idx` is out of range.
    pub fn remove_window_by_idx(&mut self, idx: usize) -> (r: Option<Window>)
        ensures
            match r {
                Some(w) => {
                    &&& idx < old(self).windows_seq().len()
                    &&& w == old(self).windows_seq()[idx as int]
                    &&& final(self).windows_seq() == old(self).windows_seq().remove(idx as int)
                    &&& final(self).focused_window_spec() == Ring::<Window>::focus_after_remove(
                        old(self).focused_window_spec(),
                        idx as int,
                        old(self).windows_seq().len() as int,
                    )
                },
                None => idx >= old(self).windows_seq().len() && *final(self) == *old(self),
            },
            final(self).id_chars() == old(self).id_chars(),
            old(self).wf() ==> final(self).wf(),
    {
        let r = self.windows.remove(idx);
        proof {
            if old(self).wf() && r is Some {
                assert forall|i: int, j: int|
                    0 <= i < j < self.windows_seq().len() implies self.windows_seq()[i].hwnd
                    != self.windows_seq()[j].hwnd by {
                    let s = old(self).windows_seq();
                    let k = idx as int;
                    if j < k {
                    } else if i < k {
                        assert(self.windows_seq()[j] == s[j + 1]);
                    } else {
                        assert(self.windows_seq()[i] == s[i + 1]);
                        assert(self.windows_seq()[j] == s[j + 1]);
                    }
                }
            }
        }
        r
    }

    /// Remove and return the focused window. Afterwards the focus moves to
    /// the window before the removed one, or stays at the front.
    pub fn remove_focused_window(&mut self) -> (r: Option<Window>)
        requires
            old(self).windows_ring_wf(),
        ensures
            match r {
                Some(w) => {
                    &&& old(self).windows_seq().len() > 0
                    &&& w == old(self).windows_seq()[old(self).focused_window_spec()]
                    &&& final(self).windows_seq() == old(self).windows_seq().remove(
                        old(self).focused_window_spec(),
                    )
                    &&& final(self).focused_window_spec() == (if old(self).focused_window_spec()
                        >= 1 {
                        old(self).focused_window_spec() - 1
                    } else {
                        0
                    })
                },
                None => old(self).windows_seq().len() == 0 && *final(self) == *old(self),
            },
            final(self).id_chars() == old(self).id_chars(),
            old(self).wf() ==> final(self).wf(),
    {
        let focused_idx = self.windows.focused_idx();
        let window = self.remove_window_by_idx(focused_idx);

        if window.is_some() && focused_idx != 0 {
            self.focus_window(focused_idx - 1);
        }

        window
    }

    /// Append a window and focus it.
    pub fn add_window(&mut self, window: Window)
        ensures
            final(self).windows_seq() == old(self).windows_seq().push(window),
            final(self).focused_window_spec() == old(self).windows_seq().len(),
            final(self).id_chars() == old(self).id_chars(),
            old(self).wf() && !old(self).contains_hwnd(window.hwnd) ==> final(self).wf(),
    {
        self.windows.push_back(window);
        self.windows.focus(self.windows.len() - 1);
        proof {
            if old(self).wf() && !old(self).contains_hwnd(window.hwnd) {
                assert forall|i: int, j: int|
                    0 <= i < j < self.windows_seq().len() implies self.windows_seq()[i].hwnd
                    != self.windows_seq()[j].hwnd by {
                    if j < self.windows_seq().len() - 1 {
                    } else {
                        assert(self.windows_seq()[i] == old(self).windows_seq()[i]);
                    }
                }
            }
        }
    }

    /// Insert a window at `idx` and focus it.
    pub fn insert_window(&mut self, idx: usize, window: Window)
        requires
            idx <= old(self).windows_seq().len(),
            old(self).wf(),
            !old(self).contains_hwnd(window.hwnd),
        ensures
            final(self).windows_seq() == old(self).windows_seq().insert(idx as int, window),
            final(self).focused_window_spec() == idx,
            final(self).id_chars() == old(self).id_chars(),
            final(self).wf(),
    {
        self.windows.insert(idx, window);
        self.windows.focus(idx);
        proof {
            assert forall|i: int, j: int|
                0 <= i < j < self.windows_seq().len() implies self.windows_seq()[i].hwnd
                != self.windows_seq()[j].hwnd by {
                let s = old(self).windows_seq();
                let k = idx as int;
                let f = |x: int| if x < k { s[x] } else { s[x - 1] };
                if i != k && j != k {
                    assert(self.windows_seq()[i] == f(i));
                    assert(self.windows_seq()[j] == f(j));
                } else if i == k {
                    assert(self.windows_seq()[j] == f(j));
                    assert(s[j - 1].hwnd != window.hwnd);
                } else {
                    assert(self.windows_seq()[i] == f(i));
                    assert(f(i).hwnd != window.hwnd);
                }
            }
        }
    }

    /// Whether any window of the stack has this handle.
    pub open spec fn contains_hwnd(self, hwnd: isize) -> bool {
        exists|i: int| 0 <= i < self.windows_seq().len() && self.windows_seq()[i].hwnd == hwnd
    }

    /// Move the focus to the window at `idx`.
    pub fn focus_window(&mut self, idx: usize)
        requires
            idx < old(self).windows_seq().len(),
        ensures
            final(self).windows_seq() == old(self).windows_seq(),
            final(self).focused_window_spec() == idx,
            final(self).id_chars() == old(self).id_chars(),
            old(self).wf() ==> final(self).wf(),
    {
        self.windows.focus(idx);
    }

    /// Restore the focused window and hide every other window of the
    /// stack, in index order.
    pub fn load_focused_window(&self, sink: &mut OsSink)
        requires
            self.wf(),
        ensures
            final(sink).cmds() == old(sink).cmds() + spec_load_cmds(
                self.windows_seq(),
                self.focused_window_spec(),
            ),
            final(sink).hidden() == spec_load_hidden(
                old(sink).hidden(),
                self.windows_seq(),
                self.focused_window_spec(),
                0,
            ),
            old(sink).wf() ==> final(sink).wf(),
    {
        let focused_idx = self.windows.focused_idx();
        let mut i: usize = 0;
        let n = self.windows.len();
        while i < n
            invariant
                self.wf(),
                n == self.windows_seq().len(),
                i <= n,
                focused_idx == self.focused_window_spec(),
                sink.cmds() == old(sink).cmds() + spec_load_cmds(
                    self.windows_seq(),
                    self.focused_window_spec(),
                ).take(i as int),
                spec_load_hidden(
                    old(sink).hidden(),
                    self.windows_seq(),
                    self.focused_window_spec(),
                    0,
                ) == spec_load_hidden(
                    sink.hidden(),
                    self.windows_seq(),
                    self.focused_window_spec(),
                    i as int,
                ),
                old(sink).wf() ==> sink.wf(),
            decreases n - i,
        {
            let w = *self.windows.get(i).unwrap();
            if i == focused_idx {
                w.restore(sink);
            } else {
                w.hide_window(sink);
            }
            proof {
                assert(sink.cmds() =~= old(sink).cmds() + spec_load_cmds(
                    self.windows_seq(),
                    self.focused_window_spec(),
                ).take(i + 1));
            }
            i = i + 1;
        }
        proof {
            assert(spec_load_cmds(self.windows_seq(), self.focused_window_spec()).take(n as int)
                =~= spec_load_cmds(self.windows_seq(), self.focused_window_spec()));
        }
    }
}

/// Two containers carry the same state: the same identifier, the same
/// window stack, the same focused window.
pub open spec fn same_container_state(a: Container, b: Container) -> bool {
    &&& b.windows_seq() == a.windows_seq()
    &&& b.focused_window_spec() == a.focused_window_spec()
    &&& b.id_chars() == a.id_chars()
}

impl Container {
    /// A snapshot of this container: a fresh value with the same state.
    pub fn duplicated(&self) -> (r: Container)
        ensures
            same_container_state(*self, r),
    {
        let mut windows: Vec<Window> = Vec::new();
        let n = self.windows.len();
        let mut i: usize = 0;
        while i < n
            invariant
                n == self.windows_seq().len(),
                i <= n,
                windows@ == self.windows_seq().take(i as int),
            decreases n - i,
        {
            windows.push(*self.windows.get(i).unwrap());
            proof {
                assert(windows@ =~= self.windows_seq().take(i + 1));
            }
            i = i + 1;
        }
        proof {
            assert(windows@ =~= self.windows_seq());
        }
        Container { id: self.id.clone(), windows: Ring::from_parts(windows, self.windows.focused_idx()) }
    }
}

impl Default for Container {
    /// A fresh empty container with a new identifier.
    fn default() -> (r: Container)
        ensures
            r.windows_seq() == Seq::<Window>::empty(),
            r.focused_window_spec() == 0,
            r.id_chars().len() == 21,
            r.wf(),
    {
        Container::new()
    }
}

impl PartialEq for Container {
    /// Identity equality: two containers are equal when their ids are.
    fn eq(&self, other: &Container) -> (r: bool) {
        self.id.eq(&other.id)
    }
}

impl vstd::std_specs::cmp::PartialEqSpecImpl for Container {
    open spec fn obeys_eq_spec() -> bool {
        true
    }

    open spec fn eq_spec(&self, other: &Container) -> bool {
        self.id_chars() == other.id_chars()
    }
}

/// The visibility calls that present a container: restore for the focused
/// window, hide for every other, in index order.
pub open spec fn spec_load_cmds(ws: Seq<Window>, f: int) -> Seq<OsCommand> {
    Seq::new(
        ws.len(),
        |i: int|
            if i == f {
                OsCommand::Restore(ws[i].hwnd)
            } else {
                OsCommand::Hide(ws[i].hwnd)
            },
    )
}

/// The handle registered by a hide if it is not already registered.
pub open spec fn spec_hide_set(h: Seq<isize>, x: isize) -> Seq<isize> {
    if h.contains(x) {
        h
    } else {
        h.push(x)
    }
}

/// The hidden registry after presenting windows `i..` of a container whose
/// focused index is `f`: each hidden window registers its handle, the
/// restored one unregisters it.
pub open spec fn spec_load_hidden(h: Seq<isize>, ws: Seq<Window>, f: int, i: int) -> Seq<isize>
    decreases ws.len() - i,
{
    if i < 0 || i >= ws.len() {
        h
    } else {
        let h2 = if i == f {
            h.remove_value(ws[i].hwnd)
        } else {
            spec_hide_set(h, ws[i].hwnd)
        };
        spec_load_hidden(h2, ws, f, i + 1)
    }
}

} // verus!
