//! The arena allocator: bump-pointer allocation inside one reservation.
//!
//! An [`Arena`] owns the bookkeeping of one [`VirtualMemory`] reservation.
//! `allocated` is the bump pointer (bytes handed out so far); `committed` is
//! the page-backed prefix, which only grows. Every allocation hands back an
//! aligned offset and, when the bump pointer outruns the committed prefix,
//! the exact page span the hosting program must commit before the bytes may
//! be touched. Checkpoints and resets move the bump pointer only: they never
//! uncommit pages, so reclaimed address space is silently reused.

use vstd::prelude::*;

use crate::os::lemma_round_up_monotonic;
use crate::os::lemma_round_up_properties;
use crate::os::round_up;
use crate::os::round_up_checked;
use crate::os::round_up_exec;
use crate::os::VirtualMemory;
use vstd::arithmetic::div_mod::lemma_small_mod;

verus! {

/// Why an arena operation could not be satisfied.
#[derive(Clone, Copy, Debug, PartialEq, Eq, Structural)]
pub enum ArenaError {
    /// Backing the requested range with pages would overrun the reserved
    /// capacity. The allocator has no fallback allocation strategy; the
    /// caller decides whether this is fatal.
    CommitExhaustion,
}

/// A lease over the byte range `[offset, offset + len)` of an arena's
/// reservation.
///
/// The lease carries no storage of its own and frees nothing when dropped:
/// the arena governs the memory's lifetime. `generation` records the arena
/// generation the lease was issued under, so that a lease kept across a
/// reset is recognized as stale (see [`Arena::lease_valid`]).
#[derive(Clone, Copy, Debug, PartialEq, Eq, Structural)]
pub struct ArenaBox {
    pub offset: usize,
    pub len: usize,
    pub generation: u64,
}

/// A saved bump-pointer position, taken by [`Arena::checkpoint`] and given
/// back to [`Arena::restore`].
#[derive(Clone, Copy, Debug, PartialEq, Eq, Structural)]
pub struct ArenaCheckpoint {
    pub offset: usize,
    pub generation: u64,
}

/// A page span `[offset, offset + len)` of the reservation that the hosting
/// program must commit (make readable and writable) to back the allocation
/// that returned it. Both ends are multiples of the page size.
#[derive(Clone, Copy, Debug, PartialEq, Eq, Structural)]
pub struct CommitRange {
    pub offset: usize,
    pub len: usize,
}

/// A bump-pointer allocator over one reservation of virtual address space.
pub struct Arena {
    allocated: usize,
    committed: usize,
    page_size: usize,
    generation: u64,
    vm: VirtualMemory,
}

impl Arena {
    /// The bump pointer: bytes of the reservation handed out so far.
    pub closed spec fn spec_allocated(&self) -> usize {
        self.allocated
    }

    /// Bytes of the reservation currently backed by physical pages.
    pub closed spec fn spec_committed(&self) -> usize {
        self.committed
    }

    /// Total size of the owned reservation.
    pub closed spec fn spec_capacity(&self) -> usize {
        self.vm.spec_size()
    }

    /// The platform page size the arena was created with.
    pub closed spec fn spec_page_size(&self) -> usize {
        self.page_size
    }

    /// Bumped by every reset; leases from older generations are stale.
    pub closed spec fn spec_generation(&self) -> u64 {
        self.generation
    }

    /// The arena's invariant: the bump pointer never passes the committed
    /// prefix, which stays a page multiple and never passes the page-rounded
    /// capacity.
    pub open spec fn wf(&self) -> bool {
        &&& 1 <= self.spec_page_size()
        &&& self.spec_allocated() <= self.spec_committed()
        &&& self.spec_allocated() <= self.spec_capacity()
        &&& self.spec_committed() as int % self.spec_page_size() as int == 0
        &&& self.spec_committed() <= round_up(
            self.spec_capacity() as int,
            self.spec_page_size() as int,
        )
        &&& round_up(self.spec_capacity() as int, self.spec_page_size() as int) <= usize::MAX
    }

    /// Creates an arena over a fresh reservation of `capacity` bytes, with
    /// nothing committed yet.
    ///
    /// Fails only when `page_size` is zero or when the page-rounded capacity
    /// is not representable; the hosting program additionally fails when the
    /// operating system refuses the reservation itself.
    pub fn new(capacity: usize, page_size: usize) -> (r: Option<Arena>)
        ensures
            r is Some <==> (1 <= page_size && round_up(capacity as int, page_size as int)
                <= usize::MAX),
            r matches Some(a) ==> {
                &&& a.wf()
                &&& a.spec_allocated() == 0
                &&& a.spec_committed() == 0
                &&& a.spec_capacity() == capacity
                &&& a.spec_page_size() == page_size
                &&& a.spec_generation() == 0
            },
    {
        if page_size == 0 {
            return None;
        }
        match round_up_checked(capacity, page_size) {
            Some(_) => {
                proof {
                    lemma_round_up_properties(capacity as int, page_size as int);
                    lemma_small_mod(0nat, page_size as nat);
                }
                Some(
                    Arena {
                        allocated: 0,
                        committed: 0,
                        page_size,
                        generation: 0,
                        vm: VirtualMemory::new(capacity),
                    },
                )
            },
            None => None,
        }
    }

    /// Allocates `size` bytes at the next offset aligned to `align`.
    ///
    /// On success the lease covers `[a, a + size)` with `a` the bump pointer
    /// rounded up to `align`, and the returned [`CommitRange`], if any, is
    /// the page span that newly backs the allocation — `None` exactly when
    /// the range already fits in the committed prefix. Fails, leaving the
    /// arena unchanged, exactly when the aligned range would overrun the
    /// reserved capacity.
    pub fn alloc_region(&mut self, size: usize, align: usize) -> (r: Result<
        (ArenaBox, Option<CommitRange>),
        ArenaError,
    >)
        requires
            old(self).wf(),
            1 <= align,
        ensures
            final(self).wf(),
            final(self).spec_capacity() == old(self).spec_capacity(),
            final(self).spec_page_size() == old(self).spec_page_size(),
            final(self).spec_generation() == old(self).spec_generation(),
            old(self).spec_committed() <= final(self).spec_committed(),
            old(self).spec_allocated() <= final(self).spec_allocated(),
            r is Ok <==> round_up(old(self).spec_allocated() as int, align as int) + size <= old(
                self,
            ).spec_capacity(),
            r is Err ==> *final(self) == *old(self),
            r matches Err(e) ==> e == ArenaError::CommitExhaustion,
            r matches Ok((lease, commit)) ==> {
                let aligned = round_up(old(self).spec_allocated() as int, align as int);
                let next = aligned + size;
                let page = old(self).spec_page_size() as int;
                &&& lease.offset == aligned
                &&& lease.len == size
                &&& lease.generation == old(self).spec_generation()
                &&& lease.offset as int % align as int == 0
                &&& final(self).spec_allocated() == next
                &&& final(self).spec_allocated() - old(self).spec_allocated() == (lease.offset
                    - old(self).spec_allocated()) + size
                &&& next > old(self).spec_committed() ==> {
                    &&& final(self).spec_committed() == round_up(next, page)
                    &&& (commit matches Some(cr) && cr.offset == old(self).spec_committed()
                        && cr.offset + cr.len == final(self).spec_committed())
                }
                &&& next <= old(self).spec_committed() ==> {
                    &&& final(self).spec_committed() == old(self).spec_committed()
                    &&& commit is None
                }
            },
    {
        proof {
            lemma_round_up_properties(old(self).spec_allocated() as int, align as int);
        }
        let aligned = match round_up_checked(self.allocated, align) {
            Some(x) => x,
            None => {
                return Err(ArenaError::CommitExhaustion);
            },
        };
        let next = match aligned.checked_add(size) {
            Some(x) => x,
            None => {
                return Err(ArenaError::CommitExhaustion);
            },
        };
        if next > self.vm.size() {
            return Err(ArenaError::CommitExhaustion);
        }
        let commit = if next > self.committed {
            proof {
                let page = self.spec_page_size() as int;
                lemma_round_up_properties(next as int, page);
                lemma_round_up_monotonic(next as int, self.spec_capacity() as int, page);
            }
            let new_committed = round_up_exec(next, self.page_size);
            let range = CommitRange {
                offset: self.committed,
                len: new_committed - self.committed,
            };
            self.committed = new_committed;
            Some(range)
        } else {
            None
        };
        self.allocated = next;
        Ok((ArenaBox { offset: aligned, len: size, generation: self.generation }, commit))
    }

    /// Records the current bump pointer; [`Arena::restore`] brings the arena
    /// back to it.
    pub fn checkpoint(&self) -> (c: ArenaCheckpoint)
        ensures
            c == self.spec_checkpoint(),
            c.offset == self.spec_allocated(),
            c.generation == self.spec_generation(),
    {
        ArenaCheckpoint { offset: self.allocated, generation: self.generation }
    }

    /// The checkpoint [`Arena::checkpoint`] returns on this arena state.
    pub open spec fn spec_checkpoint(self) -> ArenaCheckpoint {
        ArenaCheckpoint { offset: self.spec_allocated(), generation: self.spec_generation() }
    }

    /// Whether [`Arena::restore`] accepts `c` on this arena state: the
    /// checkpoint must come from the current generation and not lie past the
    /// bump pointer.
    pub open spec fn restore_accepts(self, c: ArenaCheckpoint) -> bool {
        c.generation == self.spec_generation() && c.offset <= self.spec_allocated()
    }

    /// The arena state after a successful restore of `c`: only the bump
    /// pointer moves.
    pub closed spec fn spec_restore(self, c: ArenaCheckpoint) -> Arena {
        Arena { allocated: c.offset, ..self }
    }

    /// Moves the bump pointer back to the checkpointed position, reclaiming
    /// the address space allocated since — without uncommitting any pages.
    ///
    /// Returns whether the checkpoint was accepted; a checkpoint from an
    /// older generation or past the bump pointer is refused and the arena is
    /// left unchanged.
    pub fn restore(&mut self, c: &ArenaCheckpoint) -> (ok: bool)
        requires
            old(self).wf(),
        ensures
            final(self).wf(),
            ok <==> old(self).restore_accepts(*c),
            ok ==> *final(self) == old(self).spec_restore(*c),
            ok ==> final(self).spec_allocated() == c.offset,
            !ok ==> *final(self) == *old(self),
            final(self).spec_committed() == old(self).spec_committed(),
            final(self).spec_capacity() == old(self).spec_capacity(),
            final(self).spec_page_size() == old(self).spec_page_size(),
            final(self).spec_generation() == old(self).spec_generation(),
    {
        if c.generation == self.generation && c.offset <= self.allocated {
            self.allocated = c.offset;
            true
        } else {
            false
        }
    }

    /// Law: a checkpoint taken on `pre` is accepted again after any run of
    /// allocations (which keep the generation and only grow the bump
    /// pointer), and restoring it brings the bump pointer back to exactly
    /// its value at checkpoint time while keeping everything committed
    /// meanwhile.
    pub proof fn lemma_checkpoint_roundtrip(pre: Arena, mid: Arena)
        requires
            mid.spec_generation() == pre.spec_generation(),
            pre.spec_allocated() <= mid.spec_allocated(),
        ensures
            mid.restore_accepts(pre.spec_checkpoint()),
            mid.spec_restore(pre.spec_checkpoint()).spec_allocated() == pre.spec_allocated(),
            mid.spec_restore(pre.spec_checkpoint()).spec_committed() == mid.spec_committed(),
    {
    }

    /// Resets the bump pointer to zero and starts a new generation, making
    /// every lease issued so far stale. Committed pages stay committed and
    /// are reused by future allocations.
    pub fn free_all(&mut self)
        requires
            old(self).wf(),
        ensures
            final(self).wf(),
            final(self).spec_allocated() == 0,
            final(self).spec_committed() == old(self).spec_committed(),
            final(self).spec_capacity() == old(self).spec_capacity(),
            final(self).spec_page_size() == old(self).spec_page_size(),
            final(self).spec_generation() == if old(self).spec_generation() == u64::MAX {
                0u64
            } else {
                (old(self).spec_generation() + 1) as u64
            },
            final(self).spec_generation() != old(self).spec_generation(),
    {
        self.allocated = 0;
        self.generation = if self.generation == u64::MAX {
            0
        } else {
            self.generation + 1
        };
    }

    /// Whether `lease` may still be dereferenced through this arena: it was
    /// issued under the current generation and lies inside the allocated
    /// prefix.
    pub fn lease_valid(&self, lease: &ArenaBox) -> (r: bool)
        ensures
            r <==> (lease.generation == self.spec_generation() && lease.offset + lease.len
                <= self.spec_allocated()),
    {
        match lease.offset.checked_add(lease.len) {
            Some(end) => lease.generation == self.generation && end <= self.allocated,
            None => false,
        }
    }

    /// The bump pointer: bytes of the reservation handed out so far.
    pub fn allocated(&self) -> (r: usize)
        ensures
            r == self.spec_allocated(),
    {
        self.allocated
    }

    /// Bytes of the reservation currently backed by physical pages.
    pub fn committed(&self) -> (r: usize)
        ensures
            r == self.spec_committed(),
    {
        self.committed
    }

    /// Total size of the owned reservation.
    pub fn capacity(&self) -> (r: usize)
        ensures
            r == self.spec_capacity(),
    {
        self.vm.size()
    }

    /// The platform page size the arena was created with.
    pub fn page_size(&self) -> (r: usize)
        ensures
            r == self.spec_page_size(),
    {
        self.page_size
    }

    /// The current generation; leases and checkpoints carry the generation
    /// they were issued under.
    pub fn generation(&self) -> (r: u64)
        ensures
            r == self.spec_generation(),
    {
        self.generation
    }
}

} // verus!
