use whitedew::debug;
use whitedew::release::{AllocError, Arena, Region, ALLOC_FILL, RESET_FILL};
use whitedew::scratch::{init, scratch_arena};

#[test]
fn reserve_rounds_up_to_chunks() {
    let a = Arena::new(100 * 1024).unwrap();
    assert_eq!(a.capacity(), 131072);
    assert_eq!(a.offset(), 0);
    assert_eq!(a.committed_bytes(), 0);
    assert_eq!(Arena::new(0).unwrap().capacity(), 65536);
    assert_eq!(Arena::new(65536).unwrap().capacity(), 65536);
    assert_eq!(Arena::new(65537).unwrap().capacity(), 131072);
}

#[test]
fn reserve_too_large_fails() {
    assert!(matches!(Arena::new(usize::MAX), Err(AllocError)));
    assert!(matches!(Arena::new(usize::MAX - 65534), Err(AllocError)));
    assert!(Arena::new(usize::MAX - 65535).is_ok());
}

#[test]
fn empty_arena_refuses_everything() {
    let mut a = Arena::empty();
    assert_eq!(a.capacity(), 0);
    assert_eq!(a.alloc_raw(1, 1), Err(AllocError));
    assert_eq!(a.alloc_raw(0, 1), Ok(Region { beg: 0, len: 0 }));
}

#[test]
fn alloc_pads_to_alignment() {
    let mut a = Arena::new(1024 * 1024).unwrap();
    assert_eq!(a.alloc_raw(10, 8), Ok(Region { beg: 0, len: 10 }));
    assert_eq!(a.alloc_raw(3, 8), Ok(Region { beg: 16, len: 3 }));
    assert_eq!(a.offset(), 19);
}

#[test]
fn alloc_commits_whole_chunks() {
    let mut a = Arena::new(1024 * 1024).unwrap();
    assert_eq!(a.alloc_raw(100 * 1024, 1), Ok(Region { beg: 0, len: 102400 }));
    assert_eq!(a.committed_bytes(), 131072);
    assert_eq!(a.offset(), 102400);
}

#[test]
fn alloc_past_capacity_fails_and_changes_nothing() {
    let mut a = Arena::new(100 * 1024).unwrap();
    assert_eq!(a.capacity(), 131072);
    assert_eq!(a.alloc_raw(200 * 1024, 1), Err(AllocError));
    assert_eq!(a.offset(), 0);
    assert_eq!(a.committed_bytes(), 0);
    assert_eq!(a.alloc_raw(131072, 1), Ok(Region { beg: 0, len: 131072 }));
    assert_eq!(a.alloc_raw(1, 1), Err(AllocError));
}

#[test]
fn addresses_ascend_and_are_aligned() {
    let mut a = Arena::new(1 << 20).unwrap();
    let requests = [(3usize, 1usize), (5, 4), (1, 16), (7, 2), (9, 64), (0, 8), (2, 1)];
    let mut last_end = 0;
    for (bytes, align) in requests {
        let g = a.alloc_raw(bytes, align).unwrap();
        assert_eq!(g.beg % align, 0);
        assert!(g.beg >= last_end);
        assert_eq!(g.len, bytes);
        last_end = g.beg + g.len;
        assert_eq!(a.offset(), last_end);
    }
}

#[test]
fn reset_then_alloc_reuses_the_same_space() {
    let mut a = Arena::new(1 << 20).unwrap();
    a.alloc_raw(5, 1).unwrap();
    let x = a.offset();
    let first = a.alloc_raw(40, 16).unwrap();
    a.alloc_raw(1000, 8).unwrap();
    a.reset(x);
    assert_eq!(a.offset(), x);
    let again = a.alloc_raw(40, 16).unwrap();
    assert_eq!(again, first);
    assert_eq!(again, Region { beg: 16, len: 40 });
}

#[test]
fn alloc_and_reset_poison_memory() {
    let mut a = Arena::new(1 << 20).unwrap();
    let g = a.alloc_raw(4, 1).unwrap();
    for i in 0..4 {
        assert_eq!(a.byte_at(g.beg + i), ALLOC_FILL);
    }
    assert_eq!(a.byte_at(4 + 127), ALLOC_FILL);
    assert_eq!(a.byte_at(4 + 128), 0);
    a.set_byte(1, 7);
    assert_eq!(a.byte_at(1), 7);
    a.reset(2);
    assert_eq!(a.byte_at(0), ALLOC_FILL);
    assert_eq!(a.byte_at(1), 7);
    assert_eq!(a.byte_at(2), RESET_FILL);
    assert_eq!(a.byte_at(4 + 127), RESET_FILL);
    assert_eq!(a.byte_at(4 + 128), 0);
}

#[test]
fn release_restores_offset() {
    let mut pool = init(1 << 20).unwrap();
    let before = pool.slot_ref(0).offset();
    let h = scratch_arena(&mut pool, None);
    assert_eq!(pool.slot_ref(0).borrows(), 1);
    h.release(&mut pool);
    assert_eq!(pool.slot_ref(0).offset(), before);
    assert_eq!(pool.slot_ref(0).borrows(), 0);
}

#[test]
fn release_restores_offset_after_allocating() {
    let mut pool = init(1 << 20).unwrap();
    let outer = scratch_arena(&mut pool, None);
    outer.alloc_raw(&mut pool, 100, 8).unwrap();
    let before = pool.slot_ref(0).offset();
    let inner = scratch_arena(&mut pool, None);
    assert_eq!(inner.offset_mark(), before);
    inner.alloc_raw(&mut pool, 5000, 16).unwrap();
    inner.alloc_raw(&mut pool, 70000, 1).unwrap();
    assert!(pool.slot_ref(0).offset() > before);
    inner.release(&mut pool);
    assert_eq!(pool.slot_ref(0).offset(), before);
    assert_eq!(pool.slot_ref(0).borrows(), 1);
    outer.release(&mut pool);
    assert_eq!(pool.slot_ref(0).offset(), 0);
    assert_eq!(pool.slot_ref(0).borrows(), 0);
}

#[test]
fn conflict_yields_the_other_slot() {
    let mut pool = init(1 << 16).unwrap();
    let a = scratch_arena(&mut pool, None);
    assert_eq!(a.arena().delegate_target_unchecked(), Some(0));
    let b = scratch_arena(&mut pool, Some(a.arena()));
    assert_eq!(b.arena().delegate_target_unchecked(), Some(1));
    let c = scratch_arena(&mut pool, Some(b.arena()));
    assert_eq!(c.arena().delegate_target_unchecked(), Some(0));
    assert_eq!(pool.slot_ref(0).borrows(), 2);
    assert_eq!(pool.slot_ref(1).borrows(), 1);
    c.release(&mut pool);
    b.release(&mut pool);
    a.release(&mut pool);
    assert_eq!(pool.slot_ref(0).borrows(), 0);
    assert_eq!(pool.slot_ref(1).borrows(), 0);
}

#[test]
fn owned_conflict_yields_slot_zero() {
    let mut pool = init(1 << 16).unwrap();
    let owned = debug::Arena::empty();
    let h = scratch_arena(&mut pool, Some(&owned));
    assert_eq!(h.arena().delegate_target_unchecked(), Some(0));
    h.release(&mut pool);
}

#[test]
fn scratch_slots_are_independent() {
    let mut pool = init(1 << 16).unwrap();
    let a = scratch_arena(&mut pool, None);
    let b = scratch_arena(&mut pool, Some(a.arena()));
    assert_eq!(b.alloc_raw(&mut pool, 64, 8), Ok(Region { beg: 0, len: 64 }));
    assert_eq!(a.alloc_raw(&mut pool, 8, 8), Ok(Region { beg: 0, len: 8 }));
    assert_eq!(pool.slot_ref(0).offset(), 8);
    assert_eq!(pool.slot_ref(1).offset(), 64);
    b.release(&mut pool);
    assert_eq!(pool.slot_ref(1).offset(), 0);
    assert_eq!(pool.slot_ref(0).offset(), 8);
    a.release(&mut pool);
}

#[test]
fn scratch_alloc_failure_leaves_slot_alone() {
    let mut pool = init(100).unwrap();
    assert_eq!(pool.slot_ref(0).capacity(), 65536);
    let a = scratch_arena(&mut pool, None);
    assert_eq!(a.alloc_raw(&mut pool, 65537, 1), Err(AllocError));
    assert_eq!(pool.slot_ref(0).offset(), 0);
    a.release(&mut pool);
}

#[test]
fn init_too_large_fails() {
    assert!(init(usize::MAX).is_err());
}

#[test]
fn checked_arena_delegate_and_owned() {
    let mut pool = init(1 << 16).unwrap();
    let mut owned = debug::Arena::Owned { arena: Arena::new(1000).unwrap() };
    assert_eq!(owned.alloc_raw(&mut pool, 10, 4), Ok(Region { beg: 0, len: 10 }));
    assert_eq!(owned.delegate_target(&pool).offset(), 10);
    owned.reset(&mut pool, 0);
    assert_eq!(owned.delegate_target(&pool).offset(), 0);
    assert_eq!(pool.slot_ref(0).offset(), 0);
    owned.release(&mut pool);

    let h = scratch_arena(&mut pool, None);
    let mut d = debug::Arena::Delegated { slot: 0, borrow: 1 };
    assert_eq!(d.alloc_raw(&mut pool, 3, 1), Ok(Region { beg: 0, len: 3 }));
    assert_eq!(d.delegate_target(&pool).offset(), 3);
    d.reset(&mut pool, 1);
    assert_eq!(pool.slot_ref(0).offset(), 1);
    h.release(&mut pool);
    assert_eq!(pool.slot_ref(0).offset(), 0);
}

#[test]
fn checked_arena_default_is_empty_owned() {
    let mut pool = init(1 << 16).unwrap();
    let mut d = debug::Arena::default();
    assert_eq!(d.delegate_target_unchecked(), None);
    assert_eq!(d.alloc_raw(&mut pool, 1, 1), Err(AllocError));
    d.release(&mut pool);
}

#[test]
fn poisoning_can_be_turned_off() {
    let mut a = Arena::new(1 << 20).unwrap();
    a.set_poison(false);
    let g = a.alloc_raw(4, 1).unwrap();
    assert_eq!(a.byte_at(g.beg), 0);
    a.set_byte(0, 9);
    a.reset(0);
    assert_eq!(a.byte_at(0), 9);
    a.set_poison(true);
    a.alloc_raw(2, 1).unwrap();
    assert_eq!(a.byte_at(0), ALLOC_FILL);
    a.reset(0);
    assert_eq!(a.byte_at(0), RESET_FILL);
}
