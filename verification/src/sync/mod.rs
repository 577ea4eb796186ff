//! Synchronization primitives: a futex-backed mutual-exclusion lock and a
//! race-safe lazy-initialization cell.

pub mod cell;
pub mod locks;
