//! Positional access into a registry.

use vstd::prelude::*;

use crate::Arena;
use crate::AutoChild;
use crate::AutoError;
use crate::AutoVec;

verus! {

impl AutoVec {
    /// Returns the value of the `i`-th member in current storage order, or
    /// `IndexOutOfRange` exactly when `i` is at or past the current length.
    pub fn index<'a, T>(&self, arena: &'a Arena<T>, i: usize) -> (r: Result<&'a T, AutoError>)
        requires
            arena.wf(),
            arena.vec_live(*self),
        ensures
            i < arena.members(*self).len() ==> (r matches Ok(t) && *t == arena.value_of(
                arena.members(*self)[i as int],
            )),
            i >= arena.members(*self).len() ==> r == Err::<&'a T, AutoError>(
                AutoError::IndexOutOfRange,
            ),
    {
        match self.index_ref(arena, i) {
            Ok(c) => {
                proof {
                    assert(arena.vec_ok(*self));
                }
                Ok(c.access(arena))
            },
            Err(e) => Err(e),
        }
    }

    /// Writes transparently to the value of the `i`-th member in current
    /// storage order, or fails with `IndexOutOfRange` exactly when `i` is at
    /// or past the current length; on failure nothing changes.  Registry
    /// membership is unaffected, whatever the caller stores through the
    /// returned reference.
    pub fn index_mut<'a, T>(&self, arena: &'a mut Arena<T>, i: usize) -> (r: Result<
        &'a mut T,
        AutoError,
    >)
        requires
            old(arena).wf(),
            old(arena).vec_live(*self),
        ensures
            r is Ok <==> i < old(arena).members(*self).len(),
            r is Err ==> *final(arena) == *old(arena) && r == Err::<&'a mut T, AutoError>(
                AutoError::IndexOutOfRange,
            ),
            r matches Ok(t) ==> ({
                let c = old(arena).members(*self)[i as int];
                &&& *t == old(arena).value_of(c)
                &&& final(arena).wf()
                &&& final(arena).elem_live(c)
                &&& final(arena).value_of(c) == *final(t)
                &&& final(arena).owner_of(c) == old(arena).owner_of(c)
                &&& final(arena).slot_of(c) == old(arena).slot_of(c)
                &&& final(arena).elems@.len() == old(arena).elems@.len()
                &&& forall|x: AutoChild|
                    x.handle < old(arena).elems@.len() && x != c
                        ==> final(arena).elems@[x.handle as int] == old(
                        arena,
                    ).elems@[x.handle as int]
                &&& final(arena).vecs == old(arena).vecs
            }),
    {
        match self.index_ref(arena, i) {
            Ok(c) => {
                proof {
                    assert(arena.vec_ok(*self));
                }
                Ok(c.access_mut(arena))
            },
            Err(e) => Err(e),
        }
    }

    /// Returns the handle of the `i`-th member in current storage order, or
    /// `IndexOutOfRange` exactly when `i` is at or past the current length.
    pub fn index_ref<T>(&self, arena: &Arena<T>, i: usize) -> (r: Result<AutoChild, AutoError>)
        requires
            arena.wf(),
            arena.vec_live(*self),
        ensures
            i < arena.members(*self).len() ==> r == Ok::<AutoChild, AutoError>(
                arena.members(*self)[i as int],
            ),
            i >= arena.members(*self).len() ==> r == Err::<AutoChild, AutoError>(
                AutoError::IndexOutOfRange,
            ),
    {
        let n = self.len(arena);
        if i < n {
            match &arena.vecs[self.handle] {
                Some(rv) => Ok(rv.children[i]),
                None => unreached(),
            }
        } else {
            Err(AutoError::IndexOutOfRange)
        }
    }
}

} // verus!
