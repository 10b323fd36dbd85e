//! The focus ring: an ordered sequence with a single focused index.
//!
//! Every level of the hierarchy (monitors, workspaces, containers, windows)
//! is stored in a `Ring`, and every level shares the same focus semantics:
//! whenever the ring is non-empty, the focused index is a valid index.

use vstd::prelude::*;

verus! {

/// An ordered sequence of elements together with a focused index.
///
/// Invariant (`wf`): when `elements` is non-empty, `focused` lies in
/// `[0, len)`. When the ring is empty the focused index is meaningless and
/// is kept at whatever value it last had.
#[derive(Debug, Clone)]
#[verifier::ext_equal]
pub struct Ring<T> {
    elements: Vec<T>,
    focused: usize,
}

impl<T> Ring<T> {
    /// The elements as a mathematical sequence.
    pub closed spec fn seq(self) -> Seq<T> {
        self.elements@
    }

    /// The focused index as a mathematical integer.
    pub closed spec fn focused_spec(self) -> int {
        self.focused as int
    }

    /// The focus invariant: a non-empty ring focuses a valid index, and an
    /// empty ring parks the focus at zero.
    pub open spec fn wf(self) -> bool {
        if self.seq().len() > 0 {
            0 <= self.focused_spec() < self.seq().len()
        } else {
            self.focused_spec() == 0
        }
    }

    pub fn new() -> (r: Ring<T>)
        ensures
            r.seq() == Seq::<T>::empty(),
            r.focused_spec() == 0,
            r.wf(),
    {
        Ring { elements: Vec::new(), focused: 0 }
    }

    pub fn len(&self) -> (n: usize)
        ensures
            n == self.seq().len(),
    {
        self.elements.len()
    }

    pub fn is_empty(&self) -> (b: bool)
        ensures
            b == (self.seq().len() == 0),
    {
        self.elements.len() == 0
    }

    pub fn focused_idx(&self) -> (i: usize)
        ensures
            i == self.focused_spec(),
    {
        self.focused
    }

    pub fn get(&self, i: usize) -> (r: Option<&T>)
        ensures
            match r {
                Some(x) => i < self.seq().len() && *x == self.seq()[i as int],
                None => i >= self.seq().len(),
            },
    {
        if i < self.elements.len() {
            Some(&self.elements[i])
        } else {
            None
        }
    }

    /// A mutable borrow of the element at `i`.
    pub fn get_mut(&mut self, i: usize) -> (r: &mut T)
        requires
            i < old(self).seq().len(),
        ensures
            *r == old(self).seq()[i as int],
            final(self).seq() == old(self).seq().update(i as int, *final(r)),
            final(self).focused_spec() == old(self).focused_spec(),
    {
        &mut self.elements[i]
    }

    pub fn focused(&self) -> (r: Option<&T>)
        requires
            self.wf(),
        ensures
            match r {
                Some(x) => self.seq().len() > 0 && *x == self.seq()[self.focused_spec()],
                None => self.seq().len() == 0,
            },
    {
        if self.elements.len() > 0 {
            Some(&self.elements[self.focused])
        } else {
            None
        }
    }

    /// A mutable borrow of the focused element.
    pub fn focused_mut(&mut self) -> (r: &mut T)
        requires
            old(self).seq().len() > 0,
            old(self).wf(),
        ensures
            *r == old(self).seq()[old(self).focused_spec()],
            final(self).seq() == old(self).seq().update(old(self).focused_spec(), *final(r)),
            final(self).focused_spec() == old(self).focused_spec(),
    {
        &mut self.elements[self.focused]
    }

    /// Append an element; the focused index is unchanged.
    pub fn push_back(&mut self, x: T)
        ensures
            final(self).seq() == old(self).seq().push(x),
            final(self).focused_spec() == old(self).focused_spec(),
            old(self).wf() ==> final(self).wf(),
    {
        self.elements.push(x);
    }

    /// Remove and return the element at `i`; `None` (and no change) when `i`
    /// is out of range.
    ///
    /// Focus follows the survivors: an element removed from below the
    /// focused index shifts it down by one; removing the focused element
    /// itself clamps the index to the new last position.
    pub fn remove(&mut self, i: usize) -> (r: Option<T>)
        ensures
            match r {
                Some(x) => {
                    &&& i < old(self).seq().len()
                    &&& x == old(self).seq()[i as int]
                    &&& final(self).seq() == old(self).seq().remove(i as int)
                    &&& final(self).focused_spec() == Self::focus_after_remove(
                        old(self).focused_spec(),
                        i as int,
                        old(self).seq().len() as int,
                    )
                },
                None => i >= old(self).seq().len() && *final(self) == *old(self),
            },
            old(self).wf() ==> final(self).wf(),
    {
        if i >= self.elements.len() {
            return None;
        }
        let x = self.elements.remove(i);
        if i < self.focused {
            self.focused = self.focused - 1;
        } else if i == self.focused && self.elements.len() > 0 {
            if self.focused > self.elements.len() - 1 {
                self.focused = self.elements.len() - 1;
            }
        }
        Some(x)
    }

    /// The focused index after removing index `i` from a ring of length
    /// `len` whose focused index was `focused`.
    pub open spec fn focus_after_remove(focused: int, i: int, len: int) -> int {
        if i < focused {
            focused - 1
        } else if i == focused && len - 1 > 0 && focused > len - 2 {
            len - 2
        } else {
            focused
        }
    }

    /// Insert `x` at `i`; an insertion at or below the focused index of a
    /// non-empty ring shifts the focus up with the element it pointed at.
    pub fn insert(&mut self, i: usize, x: T)
        requires
            i <= old(self).seq().len(),
            old(self).wf(),
        ensures
            final(self).seq() == old(self).seq().insert(i as int, x),
            final(self).focused_spec() == Self::focus_after_insert(
                old(self).focused_spec(),
                i as int,
                old(self).seq().len() as int,
            ),
            final(self).wf(),
    {
        self.elements.insert(i, x);
        if self.elements.len() > 1 && i <= self.focused {
            self.focused = self.focused + 1;
        }
    }

    /// The focused index after inserting at `i` into a ring of length `len`
    /// whose focused index was `focused`.
    pub open spec fn focus_after_insert(focused: int, i: int, len: int) -> int {
        if len > 0 && i <= focused {
            focused + 1
        } else {
            focused
        }
    }

    /// Swap the elements at `i` and `j`; the focus follows the element it
    /// pointed at.
    pub fn swap(&mut self, i: usize, j: usize)
        requires
            i < old(self).seq().len(),
            j < old(self).seq().len(),
        ensures
            final(self).seq() == old(self).seq().update(i as int, old(self).seq()[j as int])
                .update(j as int, old(self).seq()[i as int]),
            final(self).focused_spec() == (if old(self).focused_spec() == i {
                j as int
            } else if old(self).focused_spec() == j {
                i as int
            } else {
                old(self).focused_spec()
            }),
            old(self).wf() ==> final(self).wf(),
    {
        if i == j {
            proof {
                assert(final(self).seq() =~= old(self).seq().update(i as int, old(self).seq()[j as int])
                    .update(j as int, old(self).seq()[i as int]));
            }
            return;
        }
        let xi = self.elements.remove(i);
        let j2: usize = if j > i {
            j - 1
        } else {
            j
        };
        let xj = self.elements.remove(j2);
        self.elements.insert(j2, xi);
        self.elements.insert(i, xj);
        if self.focused == i {
            self.focused = j;
        } else if self.focused == j {
            self.focused = i;
        }
        proof {
            assert(final(self).seq() =~= old(self).seq().update(i as int, old(self).seq()[j as int])
                .update(j as int, old(self).seq()[i as int]));
        }
    }

    /// Assemble a ring from its parts.
    pub(crate) fn from_parts(elements: Vec<T>, focused: usize) -> (r: Ring<T>)
        ensures
            r.seq() == elements@,
            r.focused_spec() == focused,
    {
        Ring { elements, focused }
    }

    /// Move the focus to `i`.
    pub fn focus(&mut self, i: usize)
        requires
            i < old(self).seq().len(),
        ensures
            final(self).seq() == old(self).seq(),
            final(self).focused_spec() == i,
            final(self).wf(),
    {
        self.focused = i;
    }
}

} // verus!
