//! A region-based ("arena") memory allocator over virtual-memory
//! reservations.
//!
//! The library is the bookkeeping core: it decides which offsets an
//! allocation gets, which page range must be committed to back it, and how
//! checkpoints and resets move the bump pointer. The operating-system calls
//! that carry those decisions out (reserve, protect, release) live outside
//! the library in the hosting program.

pub mod arena;
pub mod digits;
pub mod os;
