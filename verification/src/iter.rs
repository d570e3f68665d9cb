//! Traversal over a registry's members in storage order.

use vstd::prelude::*;

use crate::Arena;
use crate::AutoChild;
use crate::AutoVec;

verus! {

/// A forward-only traversal over a registry's members, yielding shared
/// access to their values.  Valid only while the registry's membership is
/// unchanged since the traversal was created.
pub struct Iter {
    pub vec: AutoVec,
    pub pos: usize,
}

/// A forward-only traversal over a registry's members, yielding member
/// handles so the caller can mutate each value in turn (through
/// `AutoChild::replace_value`).  Valid only while the registry's membership
/// is unchanged since the traversal was created.
pub struct IterMut {
    pub vec: AutoVec,
    pub pos: usize,
}

impl Iter {
    /// Yields the value of the next member in storage order, or `None` once
    /// every member as of traversal start has been yielded.
    pub fn next<'a, T>(&mut self, arena: &'a Arena<T>) -> (r: Option<&'a T>)
        requires
            arena.wf(),
            arena.vec_live(old(self).vec),
        ensures
            final(self).vec == old(self).vec,
            old(self).pos < arena.members(old(self).vec).len() ==> {
                &&& final(self).pos == old(self).pos + 1
                &&& r matches Some(t) && *t == arena.value_of(
                    arena.members(old(self).vec)[old(self).pos as int],
                )
            },
            old(self).pos >= arena.members(old(self).vec).len() ==> {
                &&& r is None
                &&& final(self).pos == old(self).pos
            },
    {
        let n = self.vec.len(arena);
        if self.pos < n {
            let c = match &arena.vecs[self.vec.handle] {
                Some(rv) => rv.children[self.pos],
                None => unreached(),
            };
            proof {
                assert(arena.vec_ok(self.vec));
                assert(arena.elem_live(c));
            }
            self.pos = self.pos + 1;
            match &arena.elems[c.handle] {
                Some(rc) => Some(&rc.child),
                None => unreached(),
            }
        } else {
            None
        }
    }
}

impl IterMut {
    /// Yields the handle of the next member in storage order, or `None` once
    /// every member as of traversal start has been yielded.
    pub fn next<T>(&mut self, arena: &Arena<T>) -> (r: Option<AutoChild>)
        requires
            arena.wf(),
            arena.vec_live(old(self).vec),
        ensures
            final(self).vec == old(self).vec,
            old(self).pos < arena.members(old(self).vec).len() ==> {
                &&& final(self).pos == old(self).pos + 1
                &&& r == Some(arena.members(old(self).vec)[old(self).pos as int])
            },
            old(self).pos >= arena.members(old(self).vec).len() ==> {
                &&& r is None
                &&& final(self).pos == old(self).pos
            },
    {
        let n = self.vec.len(arena);
        if self.pos < n {
            let c = match &arena.vecs[self.vec.handle] {
                Some(rv) => rv.children[self.pos],
                None => unreached(),
            };
            self.pos = self.pos + 1;
            Some(c)
        } else {
            None
        }
    }
}

impl AutoVec {
    /// Starts a traversal over this registry's members in storage order.
    pub fn iter<T>(&self, arena: &Arena<T>) -> (it: Iter)
        requires
            arena.vec_live(*self),
        ensures
            it.vec == *self,
            it.pos == 0,
    {
        Iter { vec: *self, pos: 0 }
    }

    /// Starts a traversal that yields member handles for in-place mutation.
    pub fn iter_mut<T>(&self, arena: &Arena<T>) -> (it: IterMut)
        requires
            arena.vec_live(*self),
        ensures
            it.vec == *self,
            it.pos == 0,
    {
        IterMut { vec: *self, pos: 0 }
    }
}

} // verus!
