//! The scratch pool: two base arenas handed out to nested call scopes, and
//! the scoped handle that gives a scope's memory back when it is released.
//!
//! The pool is an explicit context object rather than process-wide state.
//! A handle's release is a consuming call; the generation check that catches
//! out-of-order release is a precondition, so verified callers are held to
//! strict LIFO nesting.

use vstd::prelude::*;
use crate::debug;
use crate::helpers::opt_ptr_eq;
use crate::release::{is_pow2, AllocError, Arena, Region};

verus! {

/// Two independent base arenas of the same capacity.
pub struct ScratchPool {
    first: Arena,
    second: Arena,
}

/// The slot that `scratch_arena` hands out when the caller already holds
/// `conflict`.
pub open spec fn slot_for(conflict: Option<usize>) -> int {
    if conflict == Some(0usize) {
        1
    } else {
        0
    }
}

impl ScratchPool {
    /// The base arena in slot `i` (0 or 1).
    pub closed spec fn slot(&self, i: int) -> Arena {
        if i == 0 {
            self.first
        } else {
            self.second
        }
    }

    pub open spec fn wf(&self) -> bool {
        self.slot(0).wf() && self.slot(1).wf()
    }

    /// `after` equals `self` in every slot but `i`.
    pub open spec fn only_slot_changed(&self, after: &ScratchPool, i: int) -> bool {
        &&& 0 <= i < 2
        &&& (i == 0 ==> after.slot(1) == self.slot(1))
        &&& (i == 1 ==> after.slot(0) == self.slot(0))
    }

    /// The base arena in slot `i`.
    pub fn slot_ref(&self, i: usize) -> (r: &Arena)
        requires
            i < 2,
        ensures
            *r == self.slot(i as int),
    {
        if i == 0 {
            &self.first
        } else {
            &self.second
        }
    }

    /// The base arena in slot `i`, for allocating through it directly (as an
    /// arena string does). Its borrow generation can only change through the
    /// pool, so live handles stay live.
    pub fn slot_mut(&mut self, i: usize) -> (r: &mut Arena)
        requires
            i < 2,
        ensures
            *r == old(self).slot(i as int),
            final(self).slot(i as int) == *final(r),
            old(self).only_slot_changed(&*final(self), i as int),
    {
        if i == 0 {
            &mut self.first
        } else {
            &mut self.second
        }
    }

    pub(crate) fn alloc_in(&mut self, i: usize, bytes: usize, alignment: usize) -> (r: Result<
        Region,
        AllocError,
    >)
        requires
            old(self).wf(),
            i < 2,
            is_pow2(alignment as int),
        ensures
            final(self).wf(),
            old(self).only_slot_changed(&*final(self), i as int),
            old(self).slot(i as int).alloc_post(
                &final(self).slot(i as int),
                bytes as int,
                alignment as int,
                r,
            ),
            final(self).slot(i as int).generation() == old(self).slot(i as int).generation(),
    {
        if i == 0 {
            self.first.alloc_raw(bytes, alignment)
        } else {
            self.second.alloc_raw(bytes, alignment)
        }
    }

    pub(crate) fn reset_in(&mut self, i: usize, to: usize)
        requires
            old(self).wf(),
            i < 2,
            to <= old(self).slot(i as int).committed(),
        ensures
            final(self).wf(),
            old(self).only_slot_changed(&*final(self), i as int),
            old(self).slot(i as int).reset_post(&final(self).slot(i as int), to as int),
            final(self).slot(i as int).generation() == old(self).slot(i as int).generation(),
    {
        if i == 0 {
            self.first.reset(to);
        } else {
            self.second.reset(to);
        }
    }

    pub(crate) fn set_generation(&mut self, i: usize, borrows: usize)
        requires
            old(self).wf(),
            i < 2,
        ensures
            final(self).wf(),
            old(self).only_slot_changed(&*final(self), i as int),
            old(self).slot(i as int).same_space(&final(self).slot(i as int)),
            final(self).slot(i as int).generation() == borrows,
    {
        if i == 0 {
            self.first.set_borrows(borrows);
        } else {
            self.second.set_borrows(borrows);
        }
    }
}

/// Creates the pool: two arenas, each reserving `capacity` bytes (rounded up
/// to whole chunks).
pub fn init(capacity: usize) -> (r: Result<ScratchPool, AllocError>)
    ensures
        r is Ok <==> crate::release::reserved_capacity(capacity as int) <= usize::MAX,
        r matches Ok(p) ==> {
            &&& p.wf()
            &&& forall|i: int|
                0 <= i < 2 ==> {
                    &&& #[trigger] p.slot(i).cap() == crate::release::reserved_capacity(
                        capacity as int,
                    )
                    &&& p.slot(i).off() == 0
                    &&& p.slot(i).committed() == 0
                    &&& p.slot(i).generation() == 0
                }
        },
{
    let first = match Arena::new(capacity) {
        Ok(a) => a,
        Err(e) => {
            return Err(e);
        },
    };
    let second = match Arena::new(capacity) {
        Ok(a) => a,
        Err(e) => {
            return Err(e);
        },
    };
    Ok(ScratchPool { first, second })
}

/// A borrow of one pool slot for the duration of a call scope. It records the
/// slot's offset at acquisition; `release` resets the slot to it.
pub struct ScratchArena {
    arena: debug::Arena,
    offset: usize,
}

impl ScratchArena {
    /// The checked arena this handle wraps.
    pub closed spec fn inner(&self) -> debug::Arena {
        self.arena
    }

    /// The slot this handle borrows.
    pub open spec fn slot(&self) -> int {
        match self.inner() {
            debug::Arena::Delegated { slot, .. } => slot as int,
            debug::Arena::Owned { .. } => -1,
        }
    }

    /// The generation this handle recorded when it was acquired.
    pub open spec fn borrow(&self) -> int {
        match self.inner() {
            debug::Arena::Delegated { borrow, .. } => borrow as int,
            debug::Arena::Owned { .. } => 0,
        }
    }

    /// The slot's offset when this handle was acquired.
    pub closed spec fn mark(&self) -> int {
        self.offset as int
    }

    /// The handle is the most recent live borrow of its slot in `pool`.
    pub open spec fn live_in(&self, pool: &ScratchPool) -> bool {
        &&& 0 <= self.slot() < 2
        &&& self.borrow() >= 1
        &&& pool.slot(self.slot()).generation() == self.borrow()
        &&& self.mark() <= pool.slot(self.slot()).committed()
    }

    fn new(pool: &mut ScratchPool, slot: usize) -> (r: Self)
        requires
            old(pool).wf(),
            slot < 2,
            old(pool).slot(slot as int).generation() < usize::MAX,
        ensures
            final(pool).wf(),
            r.slot() == slot,
            r.mark() == old(pool).slot(slot as int).off(),
            r.borrow() == old(pool).slot(slot as int).generation() + 1,
            r.live_in(&*final(pool)),
            old(pool).only_slot_changed(&*final(pool), slot as int),
            old(pool).slot(slot as int).same_space(&final(pool).slot(slot as int)),
    {
        let offset = pool.slot_ref(slot).offset();
        let arena = debug::Arena::delegated(pool, slot);
        ScratchArena { arena, offset }
    }

    /// The checked arena this handle wraps.
    pub fn arena(&self) -> (r: &debug::Arena)
        ensures
            *r == self.inner(),
    {
        &self.arena
    }

    /// The slot's offset when this handle was acquired.
    pub fn offset_mark(&self) -> (r: usize)
        ensures
            r == self.mark(),
    {
        self.offset
    }

    /// Allocates `bytes` bytes aligned to `alignment` from the borrowed slot.
    pub fn alloc_raw(&self, pool: &mut ScratchPool, bytes: usize, alignment: usize) -> (r: Result<
        Region,
        AllocError,
    >)
        requires
            old(pool).wf(),
            self.live_in(&*old(pool)),
            is_pow2(alignment as int),
        ensures
            final(pool).wf(),
            self.live_in(&*final(pool)),
            old(pool).only_slot_changed(&*final(pool), self.slot()),
            old(pool).slot(self.slot()).alloc_post(
                &final(pool).slot(self.slot()),
                bytes as int,
                alignment as int,
                r,
            ),
    {
        let slot = match &self.arena {
            debug::Arena::Delegated { slot, .. } => *slot,
            debug::Arena::Owned { .. } => 0,
        };
        pool.alloc_in(slot, bytes, alignment)
    }

    /// Ends the scope: resets the slot to the recorded offset, then gives up
    /// the borrow. Must be the most recent live borrow of its slot.
    pub fn release(self, pool: &mut ScratchPool)
        requires
            old(pool).wf(),
            self.live_in(&*old(pool)),
        ensures
            final(pool).wf(),
            released(&*old(pool), &self, &*final(pool)),
    {
        let slot = match &self.arena {
            debug::Arena::Delegated { slot, .. } => *slot,
            debug::Arena::Owned { .. } => 0,
        };
        pool.reset_in(slot, self.offset);
        self.arena.release(pool);
    }
}

/// `after` is what acquiring a handle `h` with `conflict` does to `before`:
/// the other slot than `conflict` (slot 0 without one) gets a new borrow, and
/// the handle records that slot's offset.
pub open spec fn acquired(
    before: &ScratchPool,
    conflict: Option<usize>,
    after: &ScratchPool,
    h: &ScratchArena,
) -> bool {
    let s = slot_for(conflict);
    &&& h.slot() == s
    &&& h.mark() == before.slot(s).off()
    &&& h.borrow() == before.slot(s).generation() + 1
    &&& after.slot(s).generation() == h.borrow()
    &&& before.slot(s).same_space(&after.slot(s))
    &&& before.only_slot_changed(after, s)
}

/// `after` is what releasing `h` does to `before`: the slot's offset is back
/// at the recorded mark and the borrow is given up.
pub open spec fn released(before: &ScratchPool, h: &ScratchArena, after: &ScratchPool) -> bool {
    &&& after.slot(h.slot()).off() == h.mark()
    &&& after.slot(h.slot()).generation() == h.borrow() - 1
    &&& after.slot(h.slot()).cap() == before.slot(h.slot()).cap()
    &&& after.slot(h.slot()).committed() == before.slot(h.slot()).committed()
    &&& before.only_slot_changed(after, h.slot())
}

/// The identity of the arena behind an optional checked arena.
pub open spec fn identity_of(conflict: Option<&debug::Arena>) -> Option<usize> {
    match conflict {
        Some(a) => a.identity(),
        None => None,
    }
}

/// Acquires a scratch handle. With `conflict` naming a pool slot the handle
/// borrows the other one; otherwise it borrows slot 0.
pub fn scratch_arena(pool: &mut ScratchPool, conflict: Option<&debug::Arena>) -> (r: ScratchArena)
    requires
        old(pool).wf(),
        old(pool).slot(slot_for(identity_of(conflict))).generation() < usize::MAX,
    ensures
        final(pool).wf(),
        r.slot() == slot_for(identity_of(conflict)),
        r.live_in(&*final(pool)),
        acquired(&*old(pool), identity_of(conflict), &*final(pool), &r),
{
    let conflict_id: Option<usize> = match conflict {
        Some(a) => a.delegate_target_unchecked(),
        None => None,
    };
    let index: usize = if opt_ptr_eq(conflict_id, Some(0)) {
        1
    } else {
        0
    };
    ScratchArena::new(pool, index)
}

/// Releasing a scratch handle puts its slot's offset and borrow generation
/// back where they were before the handle was acquired, however much was
/// allocated or reset in between.
pub proof fn lemma_release_restores_offset(
    before: ScratchPool,
    conflict: Option<usize>,
    acquired_state: ScratchPool,
    h: ScratchArena,
    last: ScratchPool,
    after: ScratchPool,
)
    requires
        acquired(&before, conflict, &acquired_state, &h),
        released(&last, &h, &after),
    ensures
        after.slot(h.slot()).off() == before.slot(h.slot()).off(),
        after.slot(h.slot()).generation() == before.slot(h.slot()).generation(),
{
}

/// A handle acquired with a held handle as `conflict` borrows the other slot.
pub proof fn lemma_conflict_yields_other_slot(held: ScratchArena, conflict: Option<&debug::Arena>)
    requires
        0 <= held.slot() < 2,
        identity_of(conflict) == Some(held.slot() as usize),
    ensures
        slot_for(identity_of(conflict)) == 1 - held.slot(),
{
}

} // verus!
