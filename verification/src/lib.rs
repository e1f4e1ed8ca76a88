//! Host-side address-translation and physical-page bookkeeping for a
//! CPU/accelerator full-system emulator.
//!
//! The crate keeps three mutually consistent tables and a page pool:
//! a guest translation registry (packed guest key to host virtual address),
//! a host shadow registry (host virtual address to accelerator physical page),
//! a synonym index (host virtual address to the set of guest keys bound to
//! it), and an allocator over a finite pool of accelerator pages.  Every
//! operation is specified by a contract over a mathematical view of the
//! table it touches, and the whole crate is verified.

pub mod codec;
pub mod context;
pub mod errors;
pub mod pool;
pub mod registry;
mod scan;
pub mod synonym;
