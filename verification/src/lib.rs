//! Pluggable memory-mapping strategies for a virtual-address-space manager.
//!
//! A memory region is bound to one handler, which decides how the region's
//! pages acquire and release physical frames and how page faults on them are
//! resolved. Four strategies are provided: eager frame-backed, linear
//! (fixed-offset), lazily allocated, and copy-on-write. Every operation
//! states exactly how it changes the page table, the frame allocator's free
//! list, and the shared-frame reference counts.

mod keymap;
pub mod attr;
pub mod error;
pub mod frame_alloc;
pub mod page_table;
pub mod byframe;
pub mod linear;
pub mod lazy;
pub mod cow;
pub mod handler;
