use arena_alloc::arena::Arena;
use arena_alloc::arena::ArenaError;

const PAGE: usize = 4096;

#[test]
fn new_commits_nothing() {
    let arena = Arena::new(PAGE, PAGE).unwrap();
    assert_eq!(arena.allocated(), 0);
    assert_eq!(arena.committed(), 0);
    assert_eq!(arena.capacity(), PAGE);
    assert_eq!(arena.page_size(), PAGE);
}

#[test]
fn new_rejects_zero_page_size() {
    assert!(Arena::new(PAGE, 0).is_none());
}

#[test]
fn aligned_offsets_and_counter_increase() {
    // Offsets come back aligned, and the allocation counter grows by
    // exactly the alignment padding plus the requested size.
    let mut arena = Arena::new(PAGE, PAGE).unwrap();
    let (first, _) = arena.alloc_region(1, 1).unwrap();
    assert_eq!(first.offset, 0);
    assert_eq!(arena.allocated(), 1);

    let before = arena.allocated();
    let (lease, _) = arena.alloc_region(5, 8).unwrap();
    assert_eq!(lease.offset % 8, 0);
    assert_eq!(lease.offset, 8);
    let padding = lease.offset - before;
    assert_eq!(arena.allocated() - before, padding + 5);
    assert_eq!(arena.allocated(), 13);
}

#[test]
fn first_allocation_commits_whole_pages_second_commits_nothing() {
    let mut arena = Arena::new(4 * PAGE, PAGE).unwrap();
    assert_eq!(arena.committed(), 0);

    // The first allocation needing k bytes commits ceil(k / page) pages.
    let (_, commit) = arena.alloc_region(PAGE + 10, 1).unwrap();
    let range = commit.unwrap();
    assert_eq!(range.offset, 0);
    assert_eq!(range.len, 2 * PAGE);
    assert_eq!(arena.committed(), 2 * PAGE);

    // A second allocation that still fits in the committed prefix asks for
    // no further commit.
    let (_, commit) = arena.alloc_region(100, 1).unwrap();
    assert!(commit.is_none());
    assert_eq!(arena.committed(), 2 * PAGE);
}

#[test]
fn checkpoint_roundtrip_restores_counter() {
    let mut arena = Arena::new(8 * PAGE, PAGE).unwrap();
    arena.alloc_region(100, 1).unwrap();
    let before = arena.allocated();
    let cp = arena.checkpoint();

    // Any number of allocations of any size inside the checkpointed span...
    arena.alloc_region(10, 8).unwrap();
    arena.alloc_region(PAGE, 1).unwrap();
    arena.alloc_region(3000, 16).unwrap();
    assert!(arena.allocated() > before);
    let committed_mid = arena.committed();

    // ...and the counter is back where it was, with pages kept committed.
    assert!(arena.restore(&cp));
    assert_eq!(arena.allocated(), before);
    assert_eq!(arena.committed(), committed_mid);
}

#[test]
fn stale_checkpoint_is_refused() {
    let mut arena = Arena::new(PAGE, PAGE).unwrap();
    arena.alloc_region(10, 1).unwrap();
    let cp = arena.checkpoint();
    arena.free_all();
    assert!(!arena.restore(&cp));
    assert_eq!(arena.allocated(), 0);
}

#[test]
fn reset_zeroes_counter_and_keeps_pages_committed() {
    let mut arena = Arena::new(2 * PAGE, PAGE).unwrap();
    arena.alloc_region(PAGE + 1, 1).unwrap();
    assert_eq!(arena.committed(), 2 * PAGE);

    arena.free_all();
    assert_eq!(arena.allocated(), 0);
    assert_eq!(arena.committed(), 2 * PAGE);

    // Allocating again up to the previously committed amount asks for no
    // new commit.
    let (lease, commit) = arena.alloc_region(2 * PAGE, 1).unwrap();
    assert_eq!(lease.offset, 0);
    assert!(commit.is_none());
    assert_eq!(arena.committed(), 2 * PAGE);
}

#[test]
fn one_page_arena_fills_then_exhausts() {
    // A one-page reservation: the first allocation commits the whole page,
    // a second fills it without further commits, and one byte more is
    // refused because a second page cannot be backed.
    let mut arena = Arena::new(PAGE, PAGE).unwrap();
    let (lease, commit) = arena.alloc_region(10, 1).unwrap();
    assert_eq!(lease.offset, 0);
    assert_eq!(commit.unwrap().len, PAGE);
    assert_eq!(arena.committed(), PAGE);

    let (lease, commit) = arena.alloc_region(PAGE - 10, 1).unwrap();
    assert_eq!(lease.offset, 10);
    assert!(commit.is_none());
    assert_eq!(arena.allocated(), PAGE);

    assert_eq!(arena.alloc_region(1, 1).unwrap_err(), ArenaError::CommitExhaustion);
    assert_eq!(arena.allocated(), PAGE);
    assert_eq!(arena.committed(), PAGE);
}

#[test]
fn two_page_arena_commits_second_page() {
    let mut arena = Arena::new(2 * PAGE, PAGE).unwrap();
    arena.alloc_region(10, 1).unwrap();
    arena.alloc_region(PAGE - 10, 1).unwrap();
    assert_eq!(arena.committed(), PAGE);

    // Crossing the committed prefix triggers the second page commit.
    let (lease, commit) = arena.alloc_region(1, 1).unwrap();
    assert_eq!(lease.offset, PAGE);
    let range = commit.unwrap();
    assert_eq!(range.offset, PAGE);
    assert_eq!(range.len, PAGE);
    assert_eq!(arena.committed(), 2 * PAGE);
}

#[test]
fn zero_capacity_arena_fails_every_allocation() {
    let mut arena = Arena::new(0, PAGE).unwrap();
    assert_eq!(arena.alloc_region(1, 1).unwrap_err(), ArenaError::CommitExhaustion);
    assert_eq!(arena.alloc_region(100, 8).unwrap_err(), ArenaError::CommitExhaustion);
    assert_eq!(arena.alloc_region(1, 4096).unwrap_err(), ArenaError::CommitExhaustion);
    assert_eq!(arena.allocated(), 0);
    assert_eq!(arena.committed(), 0);
}

#[test]
fn three_one_byte_values_aligned_to_eight() {
    let mut arena = Arena::new(PAGE, PAGE).unwrap();
    let (a, _) = arena.alloc_region(1, 8).unwrap();
    let (b, _) = arena.alloc_region(1, 8).unwrap();
    let (c, _) = arena.alloc_region(1, 8).unwrap();
    assert_eq!(a.offset, 0);
    assert_eq!(b.offset, 8);
    assert_eq!(c.offset, 16);
}

#[test]
fn leases_go_stale_on_reset() {
    let mut arena = Arena::new(PAGE, PAGE).unwrap();
    let (lease, _) = arena.alloc_region(16, 8).unwrap();
    assert!(arena.lease_valid(&lease));

    arena.free_all();
    assert!(!arena.lease_valid(&lease));

    let (fresh, _) = arena.alloc_region(16, 8).unwrap();
    assert!(arena.lease_valid(&fresh));
    assert!(!arena.lease_valid(&lease));
}

#[test]
fn non_power_of_two_alignment() {
    // The rounding formula holds for any positive alignment, not only
    // powers of two.
    let mut arena = Arena::new(PAGE, PAGE).unwrap();
    arena.alloc_region(1, 1).unwrap();
    let (lease, _) = arena.alloc_region(2, 3).unwrap();
    assert_eq!(lease.offset, 3);
    assert_eq!(arena.allocated(), 5);
}
