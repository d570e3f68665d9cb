//! A registry of independently owned elements that keeps two-way bookkeeping
//! between each element and the registry holding it.
//!
//! All storage lives in an [`Arena`]: elements and registries are addressed
//! through the stable handle types [`AutoChild`] and [`AutoVec`], so neither
//! side ever holds a memory address of the other.  A registry records the
//! handles of its members in order; each registered element records the
//! handle of its owning registry and its slot within that registry.  The
//! well-formedness predicate [`Arena::wf`] states that these two views agree,
//! and every operation proves that it preserves it.

use vstd::prelude::*;

mod access;
mod index;
mod iter;
mod laws;

pub use iter::Iter;
pub use iter::IterMut;

verus! {

/// Errors reported by registry operations.
#[derive(Clone, Copy, Debug, PartialEq, Eq, Structural)]
pub enum AutoError {
    /// Positional access at or past the registry's current length.
    IndexOutOfRange,
    /// `remove` was called on an element the registry does not hold.
    NotRegistered,
}

/// Handle of an element stored in an [`Arena`].
#[derive(Clone, Copy, Debug, PartialEq, Eq, Structural)]
pub struct AutoChild {
    pub handle: usize,
}

/// Handle of a registry stored in an [`Arena`].
#[derive(Clone, Copy, Debug, PartialEq, Eq, Structural)]
pub struct AutoVec {
    pub handle: usize,
}

/// The stored record of one element: its wrapped value and, while it is
/// registered, the registry that holds it and the slot it occupies there.
pub struct RawAutoChild<T> {
    pub parent: Option<AutoVec>,
    pub index: usize,
    pub child: T,
}

/// The stored record of one registry: the handles of its members in order.
pub struct RawAutoVec {
    pub children: Vec<AutoChild>,
}

/// Owns every element and registry record; handles index into it.
/// A destroyed element or registry leaves a `None` tombstone behind, so
/// handles are never reused and a live handle always means the same object.
pub struct Arena<T> {
    pub elems: Vec<Option<RawAutoChild<T>>>,
    pub vecs: Vec<Option<RawAutoVec>>,
}

impl<T> Arena<T> {
    /// The element handle `c` designates a live (not destroyed) element.
    pub open spec fn elem_live(self, c: AutoChild) -> bool {
        c.handle < self.elems@.len() && self.elems@[c.handle as int] is Some
    }

    /// The registry handle `v` designates a live (not destroyed) registry.
    pub open spec fn vec_live(self, v: AutoVec) -> bool {
        v.handle < self.vecs@.len() && self.vecs@[v.handle as int] is Some
    }

    /// The stored record of a live element.
    pub open spec fn raw_elem(self, c: AutoChild) -> RawAutoChild<T> {
        self.elems@[c.handle as int].unwrap()
    }

    /// The registry currently holding element `c`, if any.
    pub open spec fn owner_of(self, c: AutoChild) -> Option<AutoVec> {
        self.raw_elem(c).parent
    }

    /// The slot element `c` occupies in its owner (meaningful only while owned).
    pub open spec fn slot_of(self, c: AutoChild) -> int {
        self.raw_elem(c).index as int
    }

    /// The value wrapped by element `c`.
    pub open spec fn value_of(self, c: AutoChild) -> T {
        self.raw_elem(c).child
    }

    /// The members of registry `v`, in storage order.
    pub open spec fn members(self, v: AutoVec) -> Seq<AutoChild> {
        self.vecs@[v.handle as int].unwrap().children@
    }

    /// Every slot of registry `v` holds a live element that points back at
    /// exactly this registry and this slot.
    pub open spec fn vec_ok(self, v: AutoVec) -> bool {
        forall|i: int|
            0 <= i < self.members(v).len() ==> {
                let c = #[trigger] self.members(v)[i];
                &&& self.elem_live(c)
                &&& self.owner_of(c) == Some(v)
                &&& self.slot_of(c) == i
            }
    }

    /// If element `c` claims an owner, that registry is live and holds `c`
    /// at the claimed slot.
    pub open spec fn elem_ok(self, c: AutoChild) -> bool {
        self.owner_of(c) matches Some(v) ==> {
            &&& self.vec_live(v)
            &&& 0 <= self.slot_of(c) < self.members(v).len()
            &&& self.members(v)[self.slot_of(c)] == c
        }
    }

    /// Well-formedness: the registry-side and element-side bookkeeping agree
    /// everywhere.  Every public operation requires and preserves this.
    pub open spec fn wf(self) -> bool {
        &&& forall|v: AutoVec| #[trigger] self.vec_live(v) ==> self.vec_ok(v)
        &&& forall|c: AutoChild| #[trigger] self.elem_live(c) ==> self.elem_ok(c)
    }

    /// The element handles that are live are the same in `self` and `other`,
    /// and each live element wraps the same value in both.  (Ownership
    /// bookkeeping may differ.)
    pub open spec fn same_values(self, other: Arena<T>) -> bool {
        &&& self.elems@.len() == other.elems@.len()
        &&& forall|c: AutoChild| self.elem_live(c) == #[trigger] other.elem_live(c)
        &&& forall|c: AutoChild| self.elem_live(c) ==> self.value_of(c) == #[trigger] other.value_of(c)
    }

    /// The registry handles that are live are the same in `self` and `other`.
    pub open spec fn same_vec_dom(self, other: Arena<T>) -> bool {
        &&& self.vecs@.len() == other.vecs@.len()
        &&& forall|v: AutoVec| self.vec_live(v) == #[trigger] other.vec_live(v)
    }

    /// An empty arena: no elements, no registries.
    pub fn new() -> (arena: Arena<T>)
        ensures
            arena.wf(),
            arena.elems@.len() == 0,
            arena.vecs@.len() == 0,
    {
        Arena { elems: Vec::new(), vecs: Vec::new() }
    }
}

impl<T> Arena<T> {
    /// Reads a live element's ownership bookkeeping: its owner and slot.
    fn get_meta(&self, c: AutoChild) -> (r: (Option<AutoVec>, usize))
        requires
            self.elem_live(c),
        ensures
            r.0 == self.owner_of(c),
            r.1 as int == self.slot_of(c),
    {
        match &self.elems[c.handle] {
            Some(rc) => (rc.parent, rc.index),
            None => unreached(),
        }
    }

    /// Overwrites a live element's ownership bookkeeping, keeping its value.
    fn set_meta(&mut self, c: AutoChild, parent: Option<AutoVec>, index: usize)
        requires
            old(self).elem_live(c),
        ensures
            final(self).elems@ == old(self).elems@.update(
                c.handle as int,
                Some((RawAutoChild { parent, index, child: old(self).raw_elem(c).child })),
            ),
            final(self).vecs == old(self).vecs,
    {
        match &mut self.elems[c.handle] {
            Some(rc) => {
                rc.parent = parent;
                rc.index = index;
            },
            None => {},
        }
    }

    /// Reads the `i`-th member handle of a live registry.
    fn member_at(&self, v: AutoVec, i: usize) -> (c: AutoChild)
        requires
            self.vec_live(v),
            i < self.members(v).len(),
        ensures
            c == self.members(v)[i as int],
    {
        match &self.vecs[v.handle] {
            Some(rv) => rv.children[i],
            None => unreached(),
        }
    }

    /// Appends a member handle to a live registry's list.
    fn push_member(&mut self, v: AutoVec, c: AutoChild)
        requires
            old(self).vec_live(v),
        ensures
            final(self).vec_live(v),
            final(self).members(v) == old(self).members(v).push(c),
            final(self).vecs@.len() == old(self).vecs@.len(),
            forall|j: int|
                0 <= j < old(self).vecs@.len() && j != v.handle ==> final(self).vecs@[j] == old(
                    self,
                ).vecs@[j],
            final(self).elems == old(self).elems,
    {
        match &mut self.vecs[v.handle] {
            Some(rv) => rv.children.push(c),
            None => {},
        }
    }

    /// Swap-removes the `k`-th member handle of a live registry and, when a
    /// member was moved into the vacated slot, repairs that member's stored
    /// slot in the same operation.
    fn called_remove(&mut self, v: AutoVec, k: usize)
        requires
            old(self).wf(),
            old(self).vec_live(v),
            k < old(self).members(v).len(),
        ensures
            final(self).vec_live(v),
            final(self).members(v) == swap_removed(old(self).members(v), k as int),
            final(self).vecs@.len() == old(self).vecs@.len(),
            forall|j: int|
                0 <= j < old(self).vecs@.len() && j != v.handle ==> final(self).vecs@[j] == old(
                    self,
                ).vecs@[j],
            final(self).elems@.len() == old(self).elems@.len(),
            k + 1 == old(self).members(v).len() ==> final(self).elems@ == old(self).elems@,
            k + 1 < old(self).members(v).len() ==> final(self).elems@ == old(self).elems@.update(
                old(self).members(v).last().handle as int,
                Some(
                    (RawAutoChild {
                        parent: Some(v),
                        index: k,
                        child: old(self).raw_elem(old(self).members(v).last()).child,
                    }),
                ),
            ),
    {
        proof {
            assert(self.vec_ok(v));
            assert(self.elem_live(self.members(v).last()));
            assert(self.owner_of(self.members(v).last()) == Some(v));
        }
        match &mut self.vecs[v.handle] {
            Some(rv) => {
                rv.children.swap_remove(k);
            },
            None => {},
        }
        let n = match &self.vecs[v.handle] {
            Some(rv) => rv.children.len(),
            None => unreached(),
        };
        if k < n {
            let moved = self.member_at(v, k);
            let (p, _i) = self.get_meta(moved);
            self.set_meta(moved, p, k);
        }
    }

    /// Takes a live registry's member list out, leaving it empty.
    fn take_members(&mut self, v: AutoVec) -> (out: Vec<AutoChild>)
        requires
            old(self).vec_live(v),
        ensures
            out@ == old(self).members(v),
            final(self).vec_live(v),
            final(self).members(v) == Seq::<AutoChild>::empty(),
            final(self).vecs@.len() == old(self).vecs@.len(),
            forall|j: int|
                0 <= j < old(self).vecs@.len() && j != v.handle ==> final(self).vecs@[j] == old(
                    self,
                ).vecs@[j],
            final(self).elems == old(self).elems,
    {
        let mut tmp: Vec<AutoChild> = Vec::new();
        match &mut self.vecs[v.handle] {
            Some(rv) => {
                core::mem::swap(&mut rv.children, &mut tmp);
            },
            None => {},
        }
        tmp
    }

    /// Concatenates the handed-over member handles onto a live registry's
    /// list, draining the argument.
    fn append_members(&mut self, v: AutoVec, handed: &mut Vec<AutoChild>)
        requires
            old(self).vec_live(v),
        ensures
            final(self).vec_live(v),
            final(self).members(v) == old(self).members(v) + old(handed)@,
            final(handed)@.len() == 0,
            final(self).vecs@.len() == old(self).vecs@.len(),
            forall|j: int|
                0 <= j < old(self).vecs@.len() && j != v.handle ==> final(self).vecs@[j] == old(
                    self,
                ).vecs@[j],
            final(self).elems == old(self).elems,
    {
        match &mut self.vecs[v.handle] {
            Some(rv) => rv.children.append(handed),
            None => {},
        }
    }

    /// Empties a live registry's member list (bookkeeping of the members
    /// themselves is the caller's charge).
    fn clear_members(&mut self, v: AutoVec)
        requires
            old(self).vec_live(v),
        ensures
            final(self).vec_live(v),
            final(self).members(v) == Seq::<AutoChild>::empty(),
            final(self).vecs@.len() == old(self).vecs@.len(),
            forall|j: int|
                0 <= j < old(self).vecs@.len() && j != v.handle ==> final(self).vecs@[j] == old(
                    self,
                ).vecs@[j],
            final(self).elems == old(self).elems,
    {
        match &mut self.vecs[v.handle] {
            Some(rv) => rv.children.clear(),
            None => {},
        }
    }

    /// Tombstones a live registry's arena slot.
    fn kill_vec(&mut self, v: AutoVec)
        requires
            old(self).vec_live(v),
        ensures
            final(self).vecs@ == old(self).vecs@.update(v.handle as int, None),
            final(self).elems == old(self).elems,
    {
        self.vecs[v.handle] = None;
    }

    /// Clears the ownership bookkeeping of every member of `v`, one by one.
    /// The member list itself is left as it was; the caller empties or
    /// tombstones it next.
    fn detach_all(&mut self, v: AutoVec)
        requires
            old(self).wf(),
            old(self).vec_live(v),
        ensures
            final(self).vecs == old(self).vecs,
            final(self).elems@.len() == old(self).elems@.len(),
            forall|i: int|
                0 <= i < old(self).members(v).len() ==> {
                    let c = #[trigger] old(self).members(v)[i];
                    final(self).elems@[c.handle as int] == Some(
                        (RawAutoChild { parent: None, index: 0, child: old(self).raw_elem(c).child }),
                    )
                },
            forall|x: AutoChild|
                x.handle < old(self).elems@.len() && !old(self).members(v).contains(x)
                    ==> final(self).elems@[x.handle as int] == old(self).elems@[x.handle as int],
    {
        let ghost a0 = *self;
        proof {
            assert(a0.vec_ok(v));
            assert forall|i: int, j: int|
                0 <= i < a0.members(v).len() && 0 <= j < a0.members(v).len() && i != j implies a0.members(
                v,
            )[i] != a0.members(v)[j] by {
                assert(a0.slot_of(a0.members(v)[i]) == i);
                assert(a0.slot_of(a0.members(v)[j]) == j);
            }
        }
        let n = match &self.vecs[v.handle] {
            Some(rv) => rv.children.len(),
            None => unreached(),
        };
        let mut i: usize = 0;
        while i < n
            invariant
                i <= n,
                a0.wf(),
                a0.vec_live(v),
                n == a0.members(v).len(),
                self.vecs == a0.vecs,
                self.elems@.len() == a0.elems@.len(),
                forall|j: int|
                    0 <= j < i ==> {
                        let c = #[trigger] a0.members(v)[j];
                        self.elems@[c.handle as int] == Some(
                            (RawAutoChild { parent: None, index: 0, child: a0.raw_elem(c).child }),
                        )
                    },
                forall|j: int|
                    i <= j < n ==> {
                        let c = #[trigger] a0.members(v)[j];
                        self.elems@[c.handle as int] == a0.elems@[c.handle as int]
                    },
                forall|x: AutoChild|
                    x.handle < a0.elems@.len() && !a0.members(v).contains(x)
                        ==> self.elems@[x.handle as int] == a0.elems@[x.handle as int],
                forall|i2: int, j2: int|
                    0 <= i2 < n && 0 <= j2 < n && i2 != j2 ==> a0.members(v)[i2] != a0.members(
                        v,
                    )[j2],
            decreases n - i,
        {
            let c = self.member_at(v, i);
            proof {
                assert(a0.members(v).contains(a0.members(v)[i as int]));
                assert(a0.elem_live(c));
                assert(self.elems@[c.handle as int] == a0.elems@[c.handle as int]);
            }
            self.set_meta(c, None, 0);
            i = i + 1;
        }
    }

    /// Tombstones a live element's arena slot, releasing its value.
    fn kill_elem(&mut self, c: AutoChild)
        requires
            old(self).elem_live(c),
        ensures
            final(self).elems@ == old(self).elems@.update(c.handle as int, None),
            final(self).vecs == old(self).vecs,
    {
        self.elems[c.handle] = None;
    }
}

/// After appending unowned element `c` to registry `v` and pointing `c` at
/// slot `n`, the arena is well-formed again.
proof fn lemma_wf_register<T>(a0: Arena<T>, a1: Arena<T>, v: AutoVec, c: AutoChild, n: usize)
    requires
        a0.wf(),
        a0.vec_live(v),
        a0.elem_live(c),
        a0.owner_of(c) is None,
        n == a0.members(v).len(),
        a1.vecs@.len() == a0.vecs@.len(),
        a1.vec_live(v),
        a1.members(v) == a0.members(v).push(c),
        forall|j: int|
            0 <= j < a0.vecs@.len() && j != v.handle ==> a1.vecs@[j] == a0.vecs@[j],
        a1.elems@ == a0.elems@.update(
            c.handle as int,
            Some((RawAutoChild { parent: Some(v), index: n, child: a0.raw_elem(c).child })),
        ),
    ensures
        a1.wf(),
{
    assert forall|x: AutoChild| a0.elem_live(x) && x != c implies a1.elems@[x.handle as int]
        == a0.elems@[x.handle as int] by {}
    assert forall|u: AutoVec| #[trigger] a1.vec_live(u) implies a1.vec_ok(u) by {
        assert(a0.vec_live(u));
        assert(a0.vec_ok(u));
        assert forall|i: int| 0 <= i < a1.members(u).len() implies {
            let x = #[trigger] a1.members(u)[i];
            &&& a1.elem_live(x)
            &&& a1.owner_of(x) == Some(u)
            &&& a1.slot_of(x) == i
        } by {
            if u == v && i == n {
                assert(a1.members(u)[i] == c);
            } else {
                let x = a0.members(u)[i];
                assert(a0.elem_live(x));
                assert(a0.owner_of(x) == Some(u));
                assert(x != c);
            }
        }
    }
    assert forall|x: AutoChild| #[trigger] a1.elem_live(x) implies a1.elem_ok(x) by {
        if x == c {
            assert(a1.members(v)[n as int] == c);
        } else {
            assert(a0.elem_live(x));
            assert(a0.elem_ok(x));
            if a0.owner_of(x) is Some {
                let u = a0.owner_of(x).unwrap();
                assert(a0.vec_live(u));
                if u == v {
                    assert(a1.members(v)[a0.slot_of(x)] == a0.members(v)[a0.slot_of(x)]);
                }
            }
        }
    }
}

/// After swap-removing owned element `c` from its registry `v`, repairing the
/// member moved into the vacated slot, and either clearing `c`'s owner or
/// tombstoning `c`, the arena is well-formed again.
proof fn lemma_wf_detach<T>(a0: Arena<T>, a1: Arena<T>, v: AutoVec, c: AutoChild)
    requires
        a0.wf(),
        a0.vec_live(v),
        a0.elem_live(c),
        a0.owner_of(c) == Some(v),
        a1.vecs@.len() == a0.vecs@.len(),
        a1.vec_live(v),
        a1.members(v) == swap_removed(a0.members(v), a0.slot_of(c)),
        forall|j: int|
            0 <= j < a0.vecs@.len() && j != v.handle ==> a1.vecs@[j] == a0.vecs@[j],
        a1.elems@.len() == a0.elems@.len(),
        a1.elems@[c.handle as int] is Some ==> a1.elems@[c.handle as int].unwrap().parent is None,
        a0.slot_of(c) + 1 < a0.members(v).len() ==> a1.elems@[a0.members(
            v,
        ).last().handle as int] == Some(
            (RawAutoChild {
                parent: Some(v),
                index: a0.slot_of(c) as usize,
                child: a0.raw_elem(a0.members(v).last()).child,
            }),
        ),
        forall|x: AutoChild|
            x.handle < a0.elems@.len() && x != c && x != a0.members(v).last()
                ==> a1.elems@[x.handle as int] == a0.elems@[x.handle as int],
    ensures
        a1.wf(),
{
    let k = a0.slot_of(c);
    let len = a0.members(v).len() as int;
    let m = a0.members(v).last();
    assert(a0.vec_ok(v));
    assert(a0.elem_ok(c));
    assert(a0.members(v)[k] == c);
    assert(a0.slot_of(m) == len - 1);
    assert forall|i: int, j: int|
        0 <= i < len && 0 <= j < len && i != j implies a0.members(v)[i] != a0.members(v)[j] by {
        assert(a0.slot_of(a0.members(v)[i]) == i);
        assert(a0.slot_of(a0.members(v)[j]) == j);
    }
    assert forall|u: AutoVec| #[trigger] a1.vec_live(u) implies a1.vec_ok(u) by {
        assert(a0.vec_live(u));
        assert(a0.vec_ok(u));
        assert forall|i: int| 0 <= i < a1.members(u).len() implies {
            let x = #[trigger] a1.members(u)[i];
            &&& a1.elem_live(x)
            &&& a1.owner_of(x) == Some(u)
            &&& a1.slot_of(x) == i
        } by {
            if u == v {
                if i == k && k + 1 < len {
                    assert(a1.members(v)[i] == m);
                } else {
                    let x = a0.members(v)[i];
                    assert(a1.members(v)[i] == x);
                    assert(a0.elem_live(x));
                    assert(a0.slot_of(x) == i);
                    assert(x != c);
                    assert(x != m);
                }
            } else {
                let x = a0.members(u)[i];
                assert(a0.elem_live(x));
                assert(a0.owner_of(x) == Some(u));
                assert(x != c);
                assert(x != m ==> a1.elems@[x.handle as int] == a0.elems@[x.handle as int]);
                if x == m {
                    assert(a0.owner_of(m) == Some(v));
                }
            }
        }
    }
    assert forall|x: AutoChild| #[trigger] a1.elem_live(x) implies a1.elem_ok(x) by {
        if x == c {
        } else if x == m && k + 1 < len {
            assert(a1.members(v)[k] == m);
        } else {
            assert(x.handle < a0.elems@.len());
            assert(a0.elem_live(x));
            assert(a0.elem_ok(x));
            if a0.owner_of(x) is Some {
                let u = a0.owner_of(x).unwrap();
                assert(a0.vec_live(u));
                if u == v {
                    let i = a0.slot_of(x);
                    assert(a0.members(v)[i] == x);
                    assert(i != k);
                    assert(i != len - 1);
                    assert(a1.members(v)[i] == a0.members(v)[i]);
                }
            }
        }
    }
}

/// After clearing the ownership bookkeeping of every member of registry `v`
/// and then either emptying `v`'s member list or tombstoning `v` itself, the
/// arena is well-formed again.
proof fn lemma_wf_release_all<T>(a0: Arena<T>, a1: Arena<T>, v: AutoVec)
    requires
        a0.wf(),
        a0.vec_live(v),
        a1.vecs@.len() == a0.vecs@.len(),
        forall|j: int|
            0 <= j < a0.vecs@.len() && j != v.handle ==> a1.vecs@[j] == a0.vecs@[j],
        a1.vec_live(v) ==> a1.members(v).len() == 0,
        a1.elems@.len() == a0.elems@.len(),
        forall|i: int|
            0 <= i < a0.members(v).len() ==> {
                let c = #[trigger] a0.members(v)[i];
                a1.elems@[c.handle as int] == Some(
                    (RawAutoChild { parent: None, index: 0, child: a0.raw_elem(c).child }),
                )
            },
        forall|x: AutoChild|
            x.handle < a0.elems@.len() && !a0.members(v).contains(x) ==> a1.elems@[x.handle as int]
                == a0.elems@[x.handle as int],
    ensures
        a1.wf(),
        a0.same_values(a1),
        forall|i: int|
            0 <= i < a0.members(v).len() ==> {
                let c = #[trigger] a0.members(v)[i];
                a1.elem_live(c) && a1.owner_of(c) is None
            },
        forall|x: AutoChild|
            a0.elem_live(x) && a0.owner_of(x) == Some(v) ==> #[trigger] a1.owner_of(x) is None,
        forall|x: AutoChild|
            a0.elem_live(x) && a0.owner_of(x) != Some(v) ==> #[trigger] a1.owner_of(x)
                == a0.owner_of(x),
{
    assert(a0.vec_ok(v));
    assert forall|x: AutoChild|
        a0.elem_live(x) && a0.owner_of(x) == Some(v) implies #[trigger] a1.owner_of(x)
        is None by {
        assert(a0.elem_ok(x));
        assert(a0.members(v)[a0.slot_of(x)] == x);
        assert(a0.members(v).contains(x));
        let j = choose|j: int| 0 <= j < a0.members(v).len() && a0.members(v)[j] == x;
        assert(a1.elems@[x.handle as int] == Some(
            (RawAutoChild { parent: None, index: 0, child: a0.raw_elem(x).child }),
        ));
    }
    assert forall|x: AutoChild|
        a0.elem_live(x) && a0.owner_of(x) != Some(v) implies #[trigger] a1.owner_of(x)
        == a0.owner_of(x) by {
        if a0.members(v).contains(x) {
            let j = choose|j: int| 0 <= j < a0.members(v).len() && a0.members(v)[j] == x;
            assert(a0.owner_of(a0.members(v)[j]) == Some(v));
            assert(false);
        }
        assert(a1.elems@[x.handle as int] == a0.elems@[x.handle as int]);
    }
    assert forall|x: AutoChild| a0.elem_live(x) == #[trigger] a1.elem_live(x) by {
        if a0.members(v).contains(x) {
            let j = choose|j: int| 0 <= j < a0.members(v).len() && a0.members(v)[j] == x;
            assert(a0.elem_live(a0.members(v)[j]));
        } else if x.handle < a0.elems@.len() {
            assert(a1.elems@[x.handle as int] == a0.elems@[x.handle as int]);
        }
    }
    assert forall|x: AutoChild| a0.elem_live(x) implies a0.value_of(x) == #[trigger] a1.value_of(
        x,
    ) by {
        if a0.members(v).contains(x) {
            let j = choose|j: int| 0 <= j < a0.members(v).len() && a0.members(v)[j] == x;
            assert(a1.elems@[x.handle as int] == Some(
                (RawAutoChild { parent: None, index: 0, child: a0.raw_elem(x).child }),
            ));
        } else {
            assert(a1.elems@[x.handle as int] == a0.elems@[x.handle as int]);
        }
    }
    assert forall|i: int| 0 <= i < a0.members(v).len() implies {
        let c = #[trigger] a0.members(v)[i];
        a1.elem_live(c) && a1.owner_of(c) is None
    } by {
        let c = a0.members(v)[i];
        assert(a0.elem_live(c));
    }
    assert forall|u: AutoVec| #[trigger] a1.vec_live(u) implies a1.vec_ok(u) by {
        assert(a0.vec_live(u));
        assert(a0.vec_ok(u));
        if u != v {
            assert forall|i: int| 0 <= i < a1.members(u).len() implies {
                let x = #[trigger] a1.members(u)[i];
                &&& a1.elem_live(x)
                &&& a1.owner_of(x) == Some(u)
                &&& a1.slot_of(x) == i
            } by {
                let x = a0.members(u)[i];
                assert(a0.elem_live(x));
                assert(a0.owner_of(x) == Some(u));
                if a0.members(v).contains(x) {
                    let j = choose|j: int|
                        0 <= j < a0.members(v).len() && a0.members(v)[j] == x;
                    assert(a0.owner_of(a0.members(v)[j]) == Some(v));
                    assert(false);
                }
                assert(a1.elems@[x.handle as int] == a0.elems@[x.handle as int]);
            }
        }
    }
    assert forall|x: AutoChild| #[trigger] a1.elem_live(x) implies a1.elem_ok(x) by {
        if a0.members(v).contains(x) {
            let j = choose|j: int| 0 <= j < a0.members(v).len() && a0.members(v)[j] == x;
            assert(a1.elems@[x.handle as int] == Some(
                (RawAutoChild { parent: None, index: 0, child: a0.raw_elem(x).child }),
            ));
        } else {
            assert(x.handle < a0.elems@.len());
            assert(a1.elems@[x.handle as int] == a0.elems@[x.handle as int]);
            assert(a0.elem_live(x));
            assert(a0.elem_ok(x));
            if a0.owner_of(x) is Some {
                let u = a0.owner_of(x).unwrap();
                assert(a0.vec_live(u));
                assert(a0.members(u)[a0.slot_of(x)] == x);
                assert(a0.members(u).contains(x));
                assert(u != v);
            }
        }
    }
}

/// After transferring every member of registry `o` to the end of registry
/// `v`'s list, in order, and pointing each at its shifted slot, the arena is
/// well-formed again.
proof fn lemma_wf_append<T>(a0: Arena<T>, a1: Arena<T>, v: AutoVec, o: AutoVec, n: usize)
    requires
        a0.wf(),
        a0.vec_live(v),
        a0.vec_live(o),
        v != o,
        n == a0.members(v).len(),
        n + a0.members(o).len() <= usize::MAX,
        a1.vecs@.len() == a0.vecs@.len(),
        a1.vec_live(v),
        a1.vec_live(o),
        a1.members(v) == a0.members(v) + a0.members(o),
        a1.members(o).len() == 0,
        forall|j: int|
            0 <= j < a0.vecs@.len() && j != v.handle && j != o.handle ==> a1.vecs@[j]
                == a0.vecs@[j],
        a1.elems@.len() == a0.elems@.len(),
        forall|i: int|
            0 <= i < a0.members(o).len() ==> {
                let c = #[trigger] a0.members(o)[i];
                a1.elems@[c.handle as int] == Some(
                    (RawAutoChild {
                        parent: Some(v),
                        index: (n + i) as usize,
                        child: a0.raw_elem(c).child,
                    }),
                )
            },
        forall|x: AutoChild|
            x.handle < a0.elems@.len() && !a0.members(o).contains(x) ==> a1.elems@[x.handle as int]
                == a0.elems@[x.handle as int],
    ensures
        a1.wf(),
        a0.same_values(a1),
        a0.same_vec_dom(a1),
        forall|i: int|
            0 <= i < a0.members(o).len() ==> {
                let c = #[trigger] a0.members(o)[i];
                a1.owner_of(c) == Some(v) && a1.slot_of(c) == n + i
            },
        forall|x: AutoChild|
            a0.elem_live(x) && a0.owner_of(x) == Some(o) ==> #[trigger] a1.owner_of(x) == Some(v),
        forall|x: AutoChild|
            a0.elem_live(x) && a0.owner_of(x) != Some(o) ==> #[trigger] a1.owner_of(x)
                == a0.owner_of(x),
{
    assert(a0.vec_ok(v));
    assert(a0.vec_ok(o));
    assert forall|x: AutoChild|
        a0.elem_live(x) && a0.owner_of(x) == Some(o) implies #[trigger] a1.owner_of(x)
        == Some(v) by {
        assert(a0.elem_ok(x));
        assert(a0.members(o)[a0.slot_of(x)] == x);
    }
    assert forall|x: AutoChild|
        a0.elem_live(x) && a0.owner_of(x) != Some(o) implies #[trigger] a1.owner_of(x)
        == a0.owner_of(x) by {
        if a0.members(o).contains(x) {
            let j = choose|j: int| 0 <= j < a0.members(o).len() && a0.members(o)[j] == x;
            assert(a0.owner_of(a0.members(o)[j]) == Some(o));
            assert(false);
        }
        assert(a1.elems@[x.handle as int] == a0.elems@[x.handle as int]);
    }
    assert forall|u: AutoVec| #[trigger] a1.vec_live(u) implies a1.vec_ok(u) by {
        assert(a0.vec_live(u));
        assert(a0.vec_ok(u));
        if u == o {
        } else {
            assert forall|i: int| 0 <= i < a1.members(u).len() implies {
                let x = #[trigger] a1.members(u)[i];
                &&& a1.elem_live(x)
                &&& a1.owner_of(x) == Some(u)
                &&& a1.slot_of(x) == i
            } by {
                if u == v && n <= i {
                    let c = a0.members(o)[i - n];
                    assert(a1.members(u)[i] == c);
                    assert(a0.elem_live(c));
                } else {
                    let x = a0.members(u)[i];
                    assert(a1.members(u)[i] == x);
                    assert(a0.elem_live(x));
                    assert(a0.owner_of(x) == Some(u));
                    if a0.members(o).contains(x) {
                        let j = choose|j: int|
                            0 <= j < a0.members(o).len() && a0.members(o)[j] == x;
                        assert(a0.owner_of(a0.members(o)[j]) == Some(o));
                        assert(false);
                    }
                    assert(a1.elems@[x.handle as int] == a0.elems@[x.handle as int]);
                }
            }
        }
    }
    assert forall|x: AutoChild| #[trigger] a1.elem_live(x) implies a1.elem_ok(x) by {
        if a0.members(o).contains(x) {
            let j = choose|j: int| 0 <= j < a0.members(o).len() && a0.members(o)[j] == x;
            assert(a1.elems@[x.handle as int] == Some(
                (RawAutoChild {
                    parent: Some(v),
                    index: (n + j) as usize,
                    child: a0.raw_elem(a0.members(o)[j]).child,
                }),
            ));
            assert(a1.members(v)[n + j] == x);
        } else {
            assert(x.handle < a0.elems@.len());
            assert(a1.elems@[x.handle as int] == a0.elems@[x.handle as int]);
            assert(a0.elem_live(x));
            assert(a0.elem_ok(x));
            if a0.owner_of(x) is Some {
                let u = a0.owner_of(x).unwrap();
                assert(a0.vec_live(u));
                if u == o {
                    assert(a0.members(o)[a0.slot_of(x)] == x);
                    assert(a0.members(o).contains(x));
                    assert(false);
                } else if u == v {
                    assert(a1.members(v)[a0.slot_of(x)] == a0.members(v)[a0.slot_of(x)]);
                }
            }
        }
    }
    assert forall|x: AutoChild| a0.elem_live(x) == #[trigger] a1.elem_live(x) by {
        if a0.members(o).contains(x) {
            let j = choose|j: int| 0 <= j < a0.members(o).len() && a0.members(o)[j] == x;
            assert(a0.elem_live(a0.members(o)[j]));
        } else if x.handle < a0.elems@.len() {
            assert(a1.elems@[x.handle as int] == a0.elems@[x.handle as int]);
        }
    }
    assert forall|x: AutoChild| a0.elem_live(x) implies a0.value_of(x) == #[trigger] a1.value_of(
        x,
    ) by {
        if a0.members(o).contains(x) {
            let j = choose|j: int| 0 <= j < a0.members(o).len() && a0.members(o)[j] == x;
            assert(a1.elems@[x.handle as int] == Some(
                (RawAutoChild {
                    parent: Some(v),
                    index: (n + j) as usize,
                    child: a0.raw_elem(a0.members(o)[j]).child,
                }),
            ));
        } else {
            assert(a1.elems@[x.handle as int] == a0.elems@[x.handle as int]);
        }
    }
    assert forall|i: int| 0 <= i < a0.members(o).len() implies {
        let c = #[trigger] a0.members(o)[i];
        a1.owner_of(c) == Some(v) && a1.slot_of(c) == n + i
    } by {
        let c = a0.members(o)[i];
        assert(a0.elem_live(c));
    }
}

/// An arena whose element records are untouched and whose registries keep
/// their liveness and member lists stays well-formed.
proof fn lemma_wf_members_preserved<T>(a0: Arena<T>, a1: Arena<T>)
    requires
        a0.wf(),
        a1.elems@ == a0.elems@,
        a1.vecs@.len() == a0.vecs@.len(),
        forall|u: AutoVec| a0.vec_live(u) == #[trigger] a1.vec_live(u),
        forall|u: AutoVec| a0.vec_live(u) ==> #[trigger] a1.members(u) == a0.members(u),
    ensures
        a1.wf(),
{
    assert forall|u: AutoVec| #[trigger] a1.vec_live(u) implies a1.vec_ok(u) by {
        assert(a0.vec_live(u));
        assert(a0.vec_ok(u));
    }
    assert forall|x: AutoChild| #[trigger] a1.elem_live(x) implies a1.elem_ok(x) by {
        assert(a0.elem_live(x));
        assert(a0.elem_ok(x));
        if a0.owner_of(x) is Some {
            let u = a0.owner_of(x).unwrap();
            assert(a0.vec_live(u));
        }
    }
}

/// Changing only the value wrapped by a live element keeps the arena
/// well-formed: no ownership bookkeeping is involved.  The broadcast form,
/// so that the conclusion is available wherever a well-formedness claim
/// about such a one-value update is checked.
pub broadcast proof fn lemma_wf_value_update<T>(a0: Arena<T>, a1: Arena<T>, c: AutoChild)
    ensures
        #![trigger a1.wf(), a0.raw_elem(c)]
        ({
            &&& a0.wf()
            &&& a0.elem_live(c)
            &&& a1.vecs == a0.vecs
            &&& a1.elems@.len() == a0.elems@.len()
            &&& a1.elem_live(c)
            &&& a1.raw_elem(c).parent == a0.raw_elem(c).parent
            &&& a1.raw_elem(c).index == a0.raw_elem(c).index
            &&& forall|x: AutoChild|
                x.handle < a0.elems@.len() && x != c ==> a1.elems@[x.handle as int]
                    == a0.elems@[x.handle as int]
        }) ==> a1.wf(),
{
    if ({
        &&& a0.wf()
        &&& a0.elem_live(c)
        &&& a1.vecs == a0.vecs
        &&& a1.elems@.len() == a0.elems@.len()
        &&& a1.elem_live(c)
        &&& a1.raw_elem(c).parent == a0.raw_elem(c).parent
        &&& a1.raw_elem(c).index == a0.raw_elem(c).index
        &&& forall|x: AutoChild|
            x.handle < a0.elems@.len() && x != c ==> a1.elems@[x.handle as int]
                == a0.elems@[x.handle as int]
    }) {
        lemma_wf_value_change(a0, a1, c);
    }
}

/// Changing only the value wrapped by a live element keeps the arena
/// well-formed: no ownership bookkeeping is involved.
pub(crate) proof fn lemma_wf_value_change<T>(a0: Arena<T>, a1: Arena<T>, c: AutoChild)
    requires
        a0.wf(),
        a0.elem_live(c),
        a1.vecs == a0.vecs,
        a1.elems@.len() == a0.elems@.len(),
        a1.elem_live(c),
        a1.raw_elem(c).parent == a0.raw_elem(c).parent,
        a1.raw_elem(c).index == a0.raw_elem(c).index,
        forall|x: AutoChild|
            x.handle < a0.elems@.len() && x != c ==> a1.elems@[x.handle as int]
                == a0.elems@[x.handle as int],
    ensures
        a1.wf(),
{
    assert forall|u: AutoVec| #[trigger] a1.vec_live(u) implies a1.vec_ok(u) by {
        assert(a0.vec_live(u));
        assert(a0.vec_ok(u));
        assert forall|i: int| 0 <= i < a1.members(u).len() implies {
            let x = #[trigger] a1.members(u)[i];
            &&& a1.elem_live(x)
            &&& a1.owner_of(x) == Some(u)
            &&& a1.slot_of(x) == i
        } by {
            let x = a0.members(u)[i];
            assert(a0.elem_live(x));
            if x != c {
                assert(a1.elems@[x.handle as int] == a0.elems@[x.handle as int]);
            }
        }
    }
    assert forall|x: AutoChild| #[trigger] a1.elem_live(x) implies a1.elem_ok(x) by {
        if x != c {
            assert(a1.elems@[x.handle as int] == a0.elems@[x.handle as int]);
        }
        assert(a0.elem_live(x));
        assert(a0.elem_ok(x));
        if a0.owner_of(x) is Some {
            let u = a0.owner_of(x).unwrap();
            assert(a0.vec_live(u));
        }
    }
}

/// Relies on `Vec::shrink_to_fit`: it only releases spare capacity; the
/// contents are untouched.
#[verifier::external_body]
fn vec_shrink_to_fit<T>(v: &mut Vec<T>)
    ensures
        final(v)@ == old(v)@,
{
    v.shrink_to_fit()
}

/// Relies on `Vec::shrink_to`: it only releases spare capacity down to the
/// given lower bound; the contents are untouched.
#[verifier::external_body]
fn vec_shrink_to<T>(v: &mut Vec<T>, min_capacity: usize)
    ensures
        final(v)@ == old(v)@,
{
    v.shrink_to(min_capacity)
}

/// Tombstoning an element that no registry holds keeps the arena well-formed.
proof fn lemma_wf_kill_unowned<T>(a0: Arena<T>, a1: Arena<T>, c: AutoChild)
    requires
        a0.wf(),
        a0.elem_live(c),
        a0.owner_of(c) is None,
        a1.elems@ == a0.elems@.update(c.handle as int, None),
        a1.vecs == a0.vecs,
    ensures
        a1.wf(),
{
    assert forall|u: AutoVec| #[trigger] a1.vec_live(u) implies a1.vec_ok(u) by {
        assert(a0.vec_live(u));
        assert(a0.vec_ok(u));
        assert forall|i: int| 0 <= i < a1.members(u).len() implies {
            let x = #[trigger] a1.members(u)[i];
            &&& a1.elem_live(x)
            &&& a1.owner_of(x) == Some(u)
            &&& a1.slot_of(x) == i
        } by {
            let x = a0.members(u)[i];
            assert(a0.elem_live(x));
            assert(a0.owner_of(x) == Some(u));
            assert(x != c);
        }
    }
    assert forall|x: AutoChild| #[trigger] a1.elem_live(x) implies a1.elem_ok(x) by {
        assert(x != c);
        assert(a0.elem_live(x));
        assert(a0.elem_ok(x));
        if a0.owner_of(x) is Some {
            let u = a0.owner_of(x).unwrap();
            assert(a0.vec_live(u));
        }
    }
}

/// The order-preserving effect of a swap-remove at position `i`: the last
/// entry moves into the vacated slot and the length shrinks by one.
pub open spec fn swap_removed<A>(s: Seq<A>, i: int) -> Seq<A> {
    s.update(i, s.last()).drop_last()
}

impl AutoChild {
    /// Creates a new element wrapping `child`, unregistered.
    pub fn new<T>(arena: &mut Arena<T>, child: T) -> (c: AutoChild)
        requires
            old(arena).wf(),
        ensures
            final(arena).wf(),
            final(arena).elem_live(c),
            !old(arena).elem_live(c),
            final(arena).owner_of(c) is None,
            final(arena).value_of(c) == child,
            final(arena).elems@.len() == old(arena).elems@.len() + 1,
            forall|j: int|
                0 <= j < old(arena).elems@.len() ==> #[trigger] final(arena).elems@[j] == old(
                    arena,
                ).elems@[j],
            forall|x: AutoChild|
                x != c ==> old(arena).elem_live(x) == #[trigger] final(arena).elem_live(x),
            forall|x: AutoChild|
                old(arena).elem_live(x) ==> #[trigger] final(arena).raw_elem(x) == old(arena).raw_elem(x),
            final(arena).vecs@ == old(arena).vecs@,
    {
        let h = arena.elems.len();
        arena.elems.push(Some(RawAutoChild { parent: None, index: 0, child }));
        let c = AutoChild { handle: h };
        proof {
            let a0 = *old(arena);
            let a1 = *arena;
            assert forall|v: AutoVec| #[trigger] a1.vec_live(v) implies a1.vec_ok(v) by {
                assert(a0.vec_live(v));
                assert(a0.vec_ok(v));
                assert forall|i: int| 0 <= i < a1.members(v).len() implies {
                    let m = #[trigger] a1.members(v)[i];
                    &&& a1.elem_live(m)
                    &&& a1.owner_of(m) == Some(v)
                    &&& a1.slot_of(m) == i
                } by {
                    let m = a0.members(v)[i];
                    assert(a0.elem_live(m));
                    assert(a1.elems@[m.handle as int] == a0.elems@[m.handle as int]);
                }
            }
            assert forall|x: AutoChild| #[trigger] a1.elem_live(x) implies a1.elem_ok(x) by {
                if x != c {
                    assert(a0.elem_live(x));
                    assert(a0.elem_ok(x));
                    assert(a1.elems@[x.handle as int] == a0.elems@[x.handle as int]);
                }
            }
        }
        c
    }

    /// Ends this element's life.  If a registry holds it, that registry
    /// drops the corresponding slot first (by the swap-remove rule), so no
    /// registry ever refers to a destroyed element.
    pub fn destroy<T>(&self, arena: &mut Arena<T>)
        requires
            old(arena).wf(),
            old(arena).elem_live(*self),
        ensures
            final(arena).wf(),
            !final(arena).elem_live(*self),
            final(arena).elems@.len() == old(arena).elems@.len(),
            forall|x: AutoChild|
                x != *self ==> old(arena).elem_live(x) == #[trigger] final(arena).elem_live(x),
            forall|x: AutoChild|
                x != *self && old(arena).elem_live(x) ==> #[trigger] final(arena).value_of(x)
                    == old(arena).value_of(x),
            old(arena).same_vec_dom(*final(arena)),
            old(arena).owner_of(*self) matches Some(v) ==> final(arena).members(v)
                == swap_removed(old(arena).members(v), old(arena).slot_of(*self)),
            forall|u: AutoVec|
                old(arena).vec_live(u) && Some(u) != old(arena).owner_of(*self)
                    ==> #[trigger] final(arena).members(u) == old(arena).members(u),
            forall|x: AutoChild|
                old(arena).elem_live(x) && x != *self ==> #[trigger] final(arena).owner_of(x)
                    == old(arena).owner_of(x),
    {
        let (owner, slot) = arena.get_meta(*self);
        match owner {
            Some(v) => {
                proof {
                    assert(arena.elem_ok(*self));
                }
                arena.called_remove(v, slot);
                arena.kill_elem(*self);
                proof {
                    lemma_wf_detach(*old(arena), *arena, v, *self);
                    let pre = *old(arena);
                    assert forall|x: AutoChild|
                        pre.elem_live(x) && x != *self implies #[trigger] arena.owner_of(x)
                        == pre.owner_of(x) by {
                        assert(pre.vec_ok(v));
                        if x == pre.members(v).last() {
                            assert(pre.owner_of(x) == Some(v));
                        }
                    }
                }
            },
            None => {
                arena.kill_elem(*self);
                proof {
                    lemma_wf_kill_unowned(*old(arena), *arena, *self);
                }
            },
        }
    }
}

impl AutoVec {
    /// Creates a new, empty registry.
    pub fn new<T>(arena: &mut Arena<T>) -> (v: AutoVec)
        requires
            old(arena).wf(),
        ensures
            final(arena).wf(),
            final(arena).vec_live(v),
            !old(arena).vec_live(v),
            final(arena).members(v).len() == 0,
            final(arena).vecs@.len() == old(arena).vecs@.len() + 1,
            forall|j: int|
                0 <= j < old(arena).vecs@.len() ==> #[trigger] final(arena).vecs@[j] == old(
                    arena,
                ).vecs@[j],
            forall|u: AutoVec|
                u != v ==> old(arena).vec_live(u) == #[trigger] final(arena).vec_live(u),
            forall|u: AutoVec|
                old(arena).vec_live(u) ==> #[trigger] final(arena).members(u) == old(arena).members(u),
            final(arena).elems@ == old(arena).elems@,
    {
        let h = arena.vecs.len();
        arena.vecs.push(Some(RawAutoVec { children: Vec::new() }));
        let v = AutoVec { handle: h };
        proof {
            let a0 = *old(arena);
            let a1 = *arena;
            assert forall|u: AutoVec| #[trigger] a1.vec_live(u) implies a1.vec_ok(u) by {
                if u != v {
                    assert(a0.vec_live(u));
                    assert(a0.vec_ok(u));
                    assert(a1.vecs@[u.handle as int] == a0.vecs@[u.handle as int]);
                } else {
                    assert(a1.members(u).len() == 0);
                }
            }
            assert forall|x: AutoChild| #[trigger] a1.elem_live(x) implies a1.elem_ok(x) by {
                assert(a0.elem_live(x));
                assert(a0.elem_ok(x));
                if a0.owner_of(x) is Some {
                    let u = a0.owner_of(x).unwrap();
                    assert(a0.vec_live(u));
                    assert(a1.vecs@[u.handle as int] == a0.vecs@[u.handle as int]);
                }
            }
        }
        v
    }

    /// Registers an element.  An unowned element is appended at the end; an
    /// element owned by another registry is evicted from there first (its
    /// old registry shrinks by the swap-remove rule); re-adding an element
    /// this registry already holds is a no-op.
    pub fn add<T>(&self, arena: &mut Arena<T>, child: &AutoChild)
        requires
            old(arena).wf(),
            old(arena).vec_live(*self),
            old(arena).elem_live(*child),
        ensures
            final(arena).wf(),
            old(arena).same_values(*final(arena)),
            old(arena).same_vec_dom(*final(arena)),
            final(arena).owner_of(*child) == Some(*self),
            old(arena).owner_of(*child) == Some(*self) ==> *final(arena) == *old(arena),
            old(arena).owner_of(*child) != Some(*self) ==> {
                &&& final(arena).members(*self) == old(arena).members(*self).push(*child)
                &&& final(arena).slot_of(*child) == old(arena).members(*self).len()
            },
            forall|p: AutoVec|
                old(arena).owner_of(*child) == Some(p) && p != *self
                    ==> #[trigger] final(arena).members(p) == swap_removed(
                    old(arena).members(p),
                    old(arena).slot_of(*child),
                ),
            forall|u: AutoVec|
                old(arena).vec_live(u) && u != *self && Some(u) != old(arena).owner_of(*child)
                    ==> #[trigger] final(arena).members(u) == old(arena).members(u),
            forall|x: AutoChild|
                old(arena).elem_live(x) && x != *child ==> #[trigger] final(arena).owner_of(x)
                    == old(arena).owner_of(x),
    {
        let (owner, slot) = arena.get_meta(*child);
        let already = match owner {
            Some(p) => p.handle == self.handle,
            None => false,
        };
        if already {
            return ;
        }
        match owner {
            Some(p) => {
                proof {
                    assert(arena.elem_ok(*child));
                }
                arena.called_remove(p, slot);
                arena.set_meta(*child, None, 0);
                proof {
                    lemma_wf_detach(*old(arena), *arena, p, *child);
                }
            },
            None => {},
        }
        let ghost mid = *arena;
        let n = self.len(arena);
        arena.push_member(*self, *child);
        arena.set_meta(*child, Some(*self), n);
        proof {
            lemma_wf_register(mid, *arena, *self, *child, n);
            let pre = *old(arena);
            assert forall|x: AutoChild|
                pre.elem_live(x) && x != *child implies #[trigger] arena.owner_of(x)
                == pre.owner_of(x) by {
                if pre.owner_of(*child) is Some {
                    let p = pre.owner_of(*child).unwrap();
                    assert(pre.elem_ok(*child));
                    assert(pre.vec_ok(p));
                    if x == pre.members(p).last() {
                        assert(pre.owner_of(x) == Some(p));
                    }
                }
            }
        }
    }

    /// Detaches an element this registry holds, by swap-remove: the last
    /// member moves into the vacated slot.  Fails with `NotRegistered`, and
    /// changes nothing, exactly when the element's owner is not this
    /// registry.
    pub fn remove<T>(&self, arena: &mut Arena<T>, child: &AutoChild) -> (r: Result<(), AutoError>)
        requires
            old(arena).wf(),
            old(arena).vec_live(*self),
            old(arena).elem_live(*child),
        ensures
            final(arena).wf(),
            r is Ok <==> old(arena).owner_of(*child) == Some(*self),
            r is Err ==> *final(arena) == *old(arena) && r == Err::<(), AutoError>(
                AutoError::NotRegistered,
            ),
            r is Ok ==> {
                &&& final(arena).members(*self) == swap_removed(
                    old(arena).members(*self),
                    old(arena).slot_of(*child),
                )
                &&& final(arena).owner_of(*child) is None
                &&& old(arena).same_values(*final(arena))
                &&& old(arena).same_vec_dom(*final(arena))
                &&& forall|u: AutoVec|
                    old(arena).vec_live(u) && u != *self ==> #[trigger] final(arena).members(u)
                        == old(arena).members(u)
                &&& forall|x: AutoChild|
                    old(arena).elem_live(x) && x != *child ==> #[trigger] final(arena).owner_of(x)
                        == old(arena).owner_of(x)
            },
    {
        let (owner, slot) = arena.get_meta(*child);
        let mine = match owner {
            Some(p) => p.handle == self.handle,
            None => false,
        };
        if !mine {
            return Err(AutoError::NotRegistered);
        }
        proof {
            assert(arena.elem_ok(*child));
        }
        arena.called_remove(*self, slot);
        arena.set_meta(*child, None, 0);
        proof {
            lemma_wf_detach(*old(arena), *arena, *self, *child);
            let pre = *old(arena);
            assert forall|x: AutoChild|
                pre.elem_live(x) && x != *child implies #[trigger] arena.owner_of(x)
                == pre.owner_of(x) by {
                assert(pre.vec_ok(*self));
                if x == pre.members(*self).last() {
                    assert(pre.owner_of(x) == Some(*self));
                }
            }
        }
        Ok(())
    }

    /// Moves every member of `other` into this registry, in order, after the
    /// current members; `other` is left empty but stays valid.  Each moved
    /// member's owner becomes this registry and its slot is shifted by this
    /// registry's former length.
    pub fn append<T>(&self, arena: &mut Arena<T>, other: &AutoVec)
        requires
            old(arena).wf(),
            old(arena).vec_live(*self),
            old(arena).vec_live(*other),
            *self != *other,
            old(arena).members(*self).len() + old(arena).members(*other).len() <= usize::MAX,
        ensures
            final(arena).wf(),
            final(arena).members(*self) == old(arena).members(*self) + old(arena).members(*other),
            final(arena).members(*other).len() == 0,
            old(arena).same_values(*final(arena)),
            old(arena).same_vec_dom(*final(arena)),
            forall|u: AutoVec|
                old(arena).vec_live(u) && u != *self && u != *other
                    ==> #[trigger] final(arena).members(u) == old(arena).members(u),
            forall|i: int|
                0 <= i < old(arena).members(*other).len() ==> {
                    let c = #[trigger] old(arena).members(*other)[i];
                    final(arena).owner_of(c) == Some(*self) && final(arena).slot_of(c) == old(
                        arena,
                    ).members(*self).len() + i
                },
            forall|x: AutoChild|
                old(arena).elem_live(x) && old(arena).owner_of(x) == Some(*other)
                    ==> #[trigger] final(arena).owner_of(x) == Some(*self),
            forall|x: AutoChild|
                old(arena).elem_live(x) && old(arena).owner_of(x) != Some(*other)
                    ==> #[trigger] final(arena).owner_of(x) == old(arena).owner_of(x),
    {
        let ghost a0 = *old(arena);
        proof {
            assert(a0.vec_ok(*other));
            assert forall|i2: int, j2: int|
                0 <= i2 < a0.members(*other).len() && 0 <= j2 < a0.members(*other).len() && i2
                    != j2 implies a0.members(*other)[i2] != a0.members(*other)[j2] by {
                assert(a0.slot_of(a0.members(*other)[i2]) == i2);
                assert(a0.slot_of(a0.members(*other)[j2]) == j2);
            }
        }
        let n = self.len(arena);
        let mut moved = arena.take_members(*other);
        let mut i: usize = 0;
        while i < moved.len()
            invariant
                i <= moved.len(),
                a0.wf(),
                a0.vec_live(*self),
                a0.vec_live(*other),
                *self != *other,
                moved@ == a0.members(*other),
                n == a0.members(*self).len(),
                n + moved@.len() <= usize::MAX,
                arena.vecs@.len() == a0.vecs@.len(),
                arena.vec_live(*self),
                arena.vec_live(*other),
                arena.members(*self) == a0.members(*self),
                arena.members(*other).len() == 0,
                forall|j: int|
                    0 <= j < a0.vecs@.len() && j != other.handle ==> arena.vecs@[j]
                        == a0.vecs@[j],
                arena.elems@.len() == a0.elems@.len(),
                forall|j: int|
                    0 <= j < i ==> {
                        let c = #[trigger] moved@[j];
                        arena.elems@[c.handle as int] == Some(
                            (RawAutoChild {
                                parent: Some(*self),
                                index: (n + j) as usize,
                                child: a0.raw_elem(c).child,
                            }),
                        )
                    },
                forall|j: int|
                    i <= j < moved@.len() ==> {
                        let c = #[trigger] moved@[j];
                        arena.elems@[c.handle as int] == a0.elems@[c.handle as int]
                    },
                forall|x: AutoChild|
                    x.handle < a0.elems@.len() && !moved@.contains(x)
                        ==> arena.elems@[x.handle as int] == a0.elems@[x.handle as int],
                forall|i2: int, j2: int|
                    0 <= i2 < moved@.len() && 0 <= j2 < moved@.len() && i2 != j2 ==> moved@[i2]
                        != moved@[j2],
            decreases moved.len() - i,
        {
            let c = moved[i];
            proof {
                assert(moved@.contains(moved@[i as int]));
                assert(a0.vec_ok(*other));
                assert(a0.elem_live(c));
                assert(arena.elems@[c.handle as int] == a0.elems@[c.handle as int]);
            }
            arena.set_meta(c, Some(*self), n + i);
            i = i + 1;
        }
        arena.append_members(*self, &mut moved);
        proof {
            lemma_wf_append(a0, *arena, *self, *other, n);
        }
    }

    /// Detaches every member: each one's owner is cleared and the member
    /// list becomes empty.  The members stay alive, usable standalone.
    pub fn clear<T>(&self, arena: &mut Arena<T>)
        requires
            old(arena).wf(),
            old(arena).vec_live(*self),
        ensures
            final(arena).wf(),
            final(arena).vec_live(*self),
            final(arena).members(*self).len() == 0,
            old(arena).same_values(*final(arena)),
            old(arena).same_vec_dom(*final(arena)),
            forall|i: int|
                0 <= i < old(arena).members(*self).len() ==> {
                    let c = #[trigger] old(arena).members(*self)[i];
                    final(arena).elem_live(c) && final(arena).owner_of(c) is None
                },
            forall|u: AutoVec|
                old(arena).vec_live(u) && u != *self ==> #[trigger] final(arena).members(u) == old(
                    arena,
                ).members(u),
            forall|x: AutoChild|
                old(arena).elem_live(x) && old(arena).owner_of(x) == Some(*self)
                    ==> #[trigger] final(arena).owner_of(x) is None,
            forall|x: AutoChild|
                old(arena).elem_live(x) && old(arena).owner_of(x) != Some(*self)
                    ==> #[trigger] final(arena).owner_of(x) == old(arena).owner_of(x),
    {
        arena.detach_all(*self);
        arena.clear_members(*self);
        proof {
            lemma_wf_release_all(*old(arena), *arena, *self);
        }
    }

    /// Ends this registry's life.  Every member's owner is cleared first, so
    /// the members stay alive and individually valid; none of them is
    /// touched beyond that bookkeeping.
    pub fn destroy<T>(&self, arena: &mut Arena<T>)
        requires
            old(arena).wf(),
            old(arena).vec_live(*self),
        ensures
            final(arena).wf(),
            !final(arena).vec_live(*self),
            final(arena).vecs@.len() == old(arena).vecs@.len(),
            forall|u: AutoVec|
                u != *self ==> old(arena).vec_live(u) == #[trigger] final(arena).vec_live(u),
            old(arena).same_values(*final(arena)),
            forall|i: int|
                0 <= i < old(arena).members(*self).len() ==> {
                    let c = #[trigger] old(arena).members(*self)[i];
                    final(arena).elem_live(c) && final(arena).owner_of(c) is None
                },
            forall|u: AutoVec|
                old(arena).vec_live(u) && u != *self ==> #[trigger] final(arena).members(u) == old(
                    arena,
                ).members(u),
            forall|x: AutoChild|
                old(arena).elem_live(x) && old(arena).owner_of(x) == Some(*self)
                    ==> #[trigger] final(arena).owner_of(x) is None,
            forall|x: AutoChild|
                old(arena).elem_live(x) && old(arena).owner_of(x) != Some(*self)
                    ==> #[trigger] final(arena).owner_of(x) == old(arena).owner_of(x),
    {
        arena.detach_all(*self);
        arena.kill_vec(*self);
        proof {
            lemma_wf_release_all(*old(arena), *arena, *self);
        }
    }

    /// The number of members currently held by this registry.
    pub fn len<T>(&self, arena: &Arena<T>) -> (n: usize)
        requires
            arena.vec_live(*self),
        ensures
            n == arena.members(*self).len(),
    {
        match &arena.vecs[self.handle] {
            Some(rv) => rv.children.len(),
            None => unreached(),
        }
    }

    /// Creates a new, empty registry with member storage reserved for at
    /// least `capacity` members.
    pub fn with_capacity<T>(arena: &mut Arena<T>, capacity: usize) -> (v: AutoVec)
        requires
            old(arena).wf(),
        ensures
            final(arena).wf(),
            final(arena).vec_live(v),
            !old(arena).vec_live(v),
            final(arena).members(v).len() == 0,
            final(arena).vecs@.len() == old(arena).vecs@.len() + 1,
            forall|j: int|
                0 <= j < old(arena).vecs@.len() ==> #[trigger] final(arena).vecs@[j] == old(
                    arena,
                ).vecs@[j],
            forall|u: AutoVec|
                u != v ==> old(arena).vec_live(u) == #[trigger] final(arena).vec_live(u),
            forall|u: AutoVec|
                old(arena).vec_live(u) ==> #[trigger] final(arena).members(u) == old(arena).members(
                    u,
                ),
            final(arena).elems@ == old(arena).elems@,
    {
        let h = arena.vecs.len();
        arena.vecs.push(Some(RawAutoVec { children: Vec::with_capacity(capacity) }));
        let v = AutoVec { handle: h };
        proof {
            let a0 = *old(arena);
            let a1 = *arena;
            assert forall|u: AutoVec| #[trigger] a1.vec_live(u) implies a1.vec_ok(u) by {
                if u != v {
                    assert(a0.vec_live(u));
                    assert(a0.vec_ok(u));
                    assert(a1.vecs@[u.handle as int] == a0.vecs@[u.handle as int]);
                } else {
                    assert(a1.members(u).len() == 0);
                }
            }
            assert forall|x: AutoChild| #[trigger] a1.elem_live(x) implies a1.elem_ok(x) by {
                assert(a0.elem_live(x));
                assert(a0.elem_ok(x));
                if a0.owner_of(x) is Some {
                    let u = a0.owner_of(x).unwrap();
                    assert(a0.vec_live(u));
                    assert(a1.vecs@[u.handle as int] == a0.vecs@[u.handle as int]);
                }
            }
        }
        v
    }

    /// Releases spare member storage down to at least `min_capacity`; the
    /// registry's membership is untouched.
    pub fn shrink_to<T>(&self, arena: &mut Arena<T>, min_capacity: usize)
        requires
            old(arena).wf(),
            old(arena).vec_live(*self),
        ensures
            final(arena).wf(),
            final(arena).elems@ == old(arena).elems@,
            old(arena).same_vec_dom(*final(arena)),
            forall|u: AutoVec|
                old(arena).vec_live(u) ==> #[trigger] final(arena).members(u) == old(arena).members(
                    u,
                ),
    {
        match &mut arena.vecs[self.handle] {
            Some(rv) => vec_shrink_to(&mut rv.children, min_capacity),
            None => {},
        }
        proof {
            let a0 = *old(arena);
            let a1 = *arena;
            assert forall|u: AutoVec| a0.vec_live(u) == #[trigger] a1.vec_live(u) by {
                if u != *self && u.handle < a0.vecs@.len() {
                    assert(a1.vecs@[u.handle as int] == a0.vecs@[u.handle as int]);
                }
            }
            assert forall|u: AutoVec| a0.vec_live(u) implies #[trigger] a1.members(u)
                == a0.members(u) by {
                if u != *self {
                    assert(a1.vecs@[u.handle as int] == a0.vecs@[u.handle as int]);
                }
            }
            lemma_wf_members_preserved(a0, a1);
        }
    }

    /// Releases all spare member storage; the registry's membership is
    /// untouched.
    pub fn shrink_to_fit<T>(&self, arena: &mut Arena<T>)
        requires
            old(arena).wf(),
            old(arena).vec_live(*self),
        ensures
            final(arena).wf(),
            final(arena).elems@ == old(arena).elems@,
            old(arena).same_vec_dom(*final(arena)),
            forall|u: AutoVec|
                old(arena).vec_live(u) ==> #[trigger] final(arena).members(u) == old(arena).members(
                    u,
                ),
    {
        match &mut arena.vecs[self.handle] {
            Some(rv) => vec_shrink_to_fit(&mut rv.children),
            None => {},
        }
        proof {
            let a0 = *old(arena);
            let a1 = *arena;
            assert forall|u: AutoVec| a0.vec_live(u) == #[trigger] a1.vec_live(u) by {
                if u != *self && u.handle < a0.vecs@.len() {
                    assert(a1.vecs@[u.handle as int] == a0.vecs@[u.handle as int]);
                }
            }
            assert forall|u: AutoVec| a0.vec_live(u) implies #[trigger] a1.members(u)
                == a0.members(u) by {
                if u != *self {
                    assert(a1.vecs@[u.handle as int] == a0.vecs@[u.handle as int]);
                }
            }
            lemma_wf_members_preserved(a0, a1);
        }
    }
}

} // verus!
