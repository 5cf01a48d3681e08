//! The checked arena: either owns a base arena, or delegates to a slot of the
//! scratch pool and records the borrow generation it was created with.

use vstd::prelude::*;
use crate::release::{self, is_pow2, AllocError, Region};
use crate::scratch::ScratchPool;

verus! {

/// A base arena that is either owned, or borrowed from a pool slot together
/// with the borrow generation recorded when the borrow was made.
pub enum Arena {
    Delegated { slot: usize, borrow: usize },
    Owned { arena: release::Arena },
}

impl Default for Arena {
    /// An owned arena with no capacity.
    fn default() -> (r: Self)
        ensures
            r matches Arena::Owned { arena } && arena.wf() && arena.cap() == 0 && arena.off()
                == 0,
    {
        Arena::empty()
    }
}

impl Arena {
    /// The pool slot behind this arena, if it delegates.
    pub open spec fn identity(&self) -> Option<usize> {
        match self {
            Arena::Delegated { slot, .. } => Some(*slot),
            Arena::Owned { .. } => None,
        }
    }

    /// This arena may be used: it owns a well-formed arena, or it is the most
    /// recent live borrow of its slot.
    pub open spec fn is_live(&self, pool: &ScratchPool) -> bool {
        match self {
            Arena::Delegated { slot, borrow } => {
                &&& *slot < 2
                &&& *borrow >= 1
                &&& pool.slot(*slot as int).generation() == *borrow
            },
            Arena::Owned { arena } => arena.wf(),
        }
    }

    /// The base arena that operations through `self` act on.
    pub open spec fn target(&self, pool: &ScratchPool) -> release::Arena {
        match self {
            Arena::Delegated { slot, .. } => pool.slot(*slot as int),
            Arena::Owned { arena } => *arena,
        }
    }

    /// An operation through `self` changed nothing but its target.
    pub open spec fn frame(
        &self,
        pool: &ScratchPool,
        after: &Arena,
        after_pool: &ScratchPool,
    ) -> bool {
        match self {
            Arena::Delegated { slot, .. } => *after == *self && pool.only_slot_changed(
                after_pool,
                *slot as int,
            ),
            Arena::Owned { .. } => after is Owned && *after_pool == *pool,
        }
    }

    /// An owned arena with no capacity.
    pub fn empty() -> (r: Self)
        ensures
            r matches Arena::Owned { arena } && arena.wf() && arena.cap() == 0 && arena.off()
                == 0,
    {
        Arena::Owned { arena: release::Arena::empty() }
    }

    /// The identity of the pool slot behind this arena, without checking that
    /// the borrow is still live.
    pub fn delegate_target_unchecked(&self) -> (r: Option<usize>)
        ensures
            r == self.identity(),
    {
        match self {
            Arena::Delegated { slot, .. } => Some(*slot),
            Arena::Owned { .. } => None,
        }
    }

    /// The base arena behind this one; it must be live.
    pub fn delegate_target<'a>(&'a self, pool: &'a ScratchPool) -> (r: &'a release::Arena)
        requires
            self.is_live(pool),
        ensures
            *r == self.target(pool),
    {
        match self {
            Arena::Delegated { slot, .. } => pool.slot_ref(*slot),
            Arena::Owned { arena } => arena,
        }
    }

    /// Borrows pool slot `slot`: bumps its generation and records the new value.
    pub(crate) fn delegated(pool: &mut ScratchPool, slot: usize) -> (r: Self)
        requires
            old(pool).wf(),
            slot < 2,
            old(pool).slot(slot as int).generation() < usize::MAX,
        ensures
            final(pool).wf(),
            r == (Arena::Delegated {
                slot,
                borrow: (old(pool).slot(slot as int).generation() + 1) as usize,
            }),
            r.is_live(&*final(pool)),
            old(pool).only_slot_changed(&*final(pool), slot as int),
            old(pool).slot(slot as int).same_space(&final(pool).slot(slot as int)),
            final(pool).slot(slot as int).generation() == old(pool).slot(slot as int).generation()
                + 1,
    {
        let borrow = pool.slot_ref(slot).borrows() + 1;
        pool.set_generation(slot, borrow);
        Arena::Delegated { slot, borrow }
    }

    /// Allocates from the target arena; see `release::Arena::alloc_raw`.
    pub fn alloc_raw(
        &mut self,
        pool: &mut ScratchPool,
        bytes: usize,
        alignment: usize,
    ) -> (r: Result<Region, AllocError>)
        requires
            old(pool).wf(),
            old(self).is_live(&*old(pool)),
            is_pow2(alignment as int),
        ensures
            final(pool).wf(),
            final(self).is_live(&*final(pool)),
            old(self).frame(&*old(pool), &*final(self), &*final(pool)),
            old(self).target(&*old(pool)).alloc_post(
                &final(self).target(&*final(pool)),
                bytes as int,
                alignment as int,
                r,
            ),
    {
        match self {
            Arena::Delegated { slot, .. } => pool.alloc_in(*slot, bytes, alignment),
            Arena::Owned { arena } => arena.alloc_raw(bytes, alignment),
        }
    }

    /// Resets the target arena to `to`; see `release::Arena::reset`.
    pub fn reset(&mut self, pool: &mut ScratchPool, to: usize)
        requires
            old(pool).wf(),
            old(self).is_live(&*old(pool)),
            to <= old(self).target(&*old(pool)).committed(),
        ensures
            final(pool).wf(),
            final(self).is_live(&*final(pool)),
            old(self).frame(&*old(pool), &*final(self), &*final(pool)),
            old(self).target(&*old(pool)).reset_post(
                &final(self).target(&*final(pool)),
                to as int,
            ),
    {
        match self {
            Arena::Delegated { slot, .. } => pool.reset_in(*slot, to),
            Arena::Owned { arena } => arena.reset(to),
        }
    }

    /// Ends this arena. A delegate must be the most recent live borrow of its
    /// slot; the slot's generation goes back down by one.
    pub fn release(self, pool: &mut ScratchPool)
        requires
            old(pool).wf(),
            self.is_live(&*old(pool)),
        ensures
            final(pool).wf(),
            match self {
                Arena::Delegated { slot, borrow } => {
                    &&& old(pool).only_slot_changed(&*final(pool), slot as int)
                    &&& old(pool).slot(slot as int).same_space(&final(pool).slot(slot as int))
                    &&& final(pool).slot(slot as int).generation() == borrow - 1
                },
                Arena::Owned { .. } => *final(pool) == *old(pool),
            },
    {
        match self {
            Arena::Delegated { slot, borrow } => {
                pool.set_generation(slot, borrow - 1);
            },
            Arena::Owned { .. } => {},
        }
    }
}

} // verus!
