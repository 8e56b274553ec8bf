//! Heap-allocation subsystem of a freestanding kernel, modelled over plain
//! addresses: three allocation strategies (bump, free-list, fixed-size block)
//! with machine-checked contracts.
//!
//! Each allocator tracks the heap purely as address arithmetic: a free region
//! is a `(start, size)` record in an explicitly owned list, standing for the
//! intrusive node that a kernel would write into the region's own bytes. The
//! surrounding kernel (locking, page mapping, the global-allocator hook) lives
//! outside this crate and hands in plain `(start, size)` and `Layout` values.

pub mod allocator;
