//! The guarantees the registry protocol maintains, stated as standalone
//! proof functions.

use vstd::prelude::*;

use crate::Arena;
use crate::AutoChild;
use crate::AutoVec;

verus! {

/// Bijection: in a well-formed arena, the `i`-th member of a live registry
/// is a live element owned by exactly that registry, its stored slot is
/// exactly `i`, and no other slot of the registry holds it.
pub proof fn lemma_registry_bijection<T>(arena: Arena<T>, v: AutoVec, i: int)
    requires
        arena.wf(),
        arena.vec_live(v),
        0 <= i < arena.members(v).len(),
    ensures
        arena.elem_live(arena.members(v)[i]),
        arena.owner_of(arena.members(v)[i]) == Some(v),
        arena.slot_of(arena.members(v)[i]) == i,
        forall|j: int|
            0 <= j < arena.members(v).len() && j != i ==> arena.members(v)[j] != arena.members(
                v,
            )[i],
{
    assert(arena.vec_ok(v));
}

/// Exclusivity: a member slot of one live registry and a member slot of
/// another can never hold the same element; within one registry the same
/// element can occupy only one slot.
pub proof fn lemma_exclusive_membership<T>(
    arena: Arena<T>,
    v1: AutoVec,
    v2: AutoVec,
    i: int,
    j: int,
)
    requires
        arena.wf(),
        arena.vec_live(v1),
        arena.vec_live(v2),
        0 <= i < arena.members(v1).len(),
        0 <= j < arena.members(v2).len(),
        arena.members(v1)[i] == arena.members(v2)[j],
    ensures
        v1 == v2,
        i == j,
{
    assert(arena.vec_ok(v1));
    assert(arena.vec_ok(v2));
}

/// An element without an owner stands in no live registry at all.
pub proof fn lemma_unregistered_in_no_registry<T>(arena: Arena<T>, c: AutoChild, v: AutoVec)
    requires
        arena.wf(),
        arena.vec_live(v),
        arena.elem_live(c),
        arena.owner_of(c) != Some(v),
    ensures
        !arena.members(v).contains(c),
{
    assert(arena.vec_ok(v));
    assert forall|i: int| 0 <= i < arena.members(v).len() implies arena.members(v)[i] != c by {
        assert(arena.owner_of(arena.members(v)[i]) == Some(v));
    }
    if arena.members(v).contains(c) {
        let i = choose|i: int| 0 <= i < arena.members(v).len() && arena.members(v)[i] == c;
        assert(false);
    }
}

} // verus!
