//! Transparent access to the value wrapped by an element.

use vstd::prelude::*;

use crate::lemma_wf_value_change;
use crate::Arena;
use crate::AutoChild;
use crate::AutoVec;

verus! {

broadcast use crate::lemma_wf_value_update;

impl AutoChild {
    /// Reads the wrapped value.  Registry membership is unaffected.
    pub fn access<'a, T>(&self, arena: &'a Arena<T>) -> (r: &'a T)
        requires
            arena.elem_live(*self),
        ensures
            *r == arena.value_of(*self),
    {
        match &arena.elems[self.handle] {
            Some(rc) => &rc.child,
            None => unreached(),
        }
    }

    /// Writes transparently to the wrapped value.  Registry membership is
    /// unaffected, whatever the caller stores through the returned
    /// reference.
    pub fn access_mut<'a, T>(&self, arena: &'a mut Arena<T>) -> (r: &'a mut T)
        requires
            old(arena).wf(),
            old(arena).elem_live(*self),
        ensures
            *r == old(arena).value_of(*self),
            final(arena).wf(),
            final(arena).elem_live(*self),
            final(arena).value_of(*self) == *final(r),
            final(arena).owner_of(*self) == old(arena).owner_of(*self),
            final(arena).slot_of(*self) == old(arena).slot_of(*self),
            final(arena).elems@.len() == old(arena).elems@.len(),
            forall|x: AutoChild|
                x.handle < old(arena).elems@.len() && x != *self
                    ==> final(arena).elems@[x.handle as int] == #[trigger] old(
                    arena,
                ).elems@[x.handle as int],
            final(arena).vecs == old(arena).vecs,
    {
        match &mut arena.elems[self.handle] {
            Some(rc) => &mut rc.child,
            None => unreached(),
        }
    }

    /// The registry currently holding this element, if any.
    pub fn owner<T>(&self, arena: &Arena<T>) -> (r: Option<AutoVec>)
        requires
            arena.elem_live(*self),
        ensures
            r == arena.owner_of(*self),
    {
        match &arena.elems[self.handle] {
            Some(rc) => rc.parent,
            None => unreached(),
        }
    }

    /// Substitutes the wrapped value in place.  Registry membership is
    /// preserved: this is the sanctioned alternative to destroying the
    /// element and constructing a new one.
    pub fn replace_value<T>(&self, arena: &mut Arena<T>, value: T)
        requires
            old(arena).wf(),
            old(arena).elem_live(*self),
        ensures
            final(arena).wf(),
            final(arena).elem_live(*self),
            final(arena).value_of(*self) == value,
            final(arena).owner_of(*self) == old(arena).owner_of(*self),
            final(arena).slot_of(*self) == old(arena).slot_of(*self),
            final(arena).elems@.len() == old(arena).elems@.len(),
            forall|x: AutoChild|
                x.handle < old(arena).elems@.len() && x != *self
                    ==> final(arena).elems@[x.handle as int] == #[trigger] old(
                    arena,
                ).elems@[x.handle as int],
            final(arena).vecs == old(arena).vecs,
    {
        match &mut arena.elems[self.handle] {
            Some(rc) => {
                rc.child = value;
            },
            None => {},
        }
        proof {
            lemma_wf_value_change(*old(arena), *arena, *self);
        }
    }
}

} // verus!
