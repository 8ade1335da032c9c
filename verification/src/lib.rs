//! An in-process sandbox for running untrusted interpreter code, split across
//! a trust boundary:
//!
//! * a guest runtime that owns a linear memory, exposes a byte-buffer ABI
//!   over packed records, keeps a registry of named environments whose
//!   locals enforce per-name write protection, and proxies guest-to-host
//!   calls through a numeric handle table;
//! * a host reactor that builds arguments inside the guest memory through
//!   the guest's own allocator, marshals length-prefixed byte buffers in
//!   and out, dispatches upcalls to registered handlers, gates every entry
//!   point on a single owning thread, and snapshots the linear memory.
//!
//! This crate holds the verified core of both sides: the byte-buffer
//! encoding, the guest memory surface and its allocator, the protected
//! mapping, the environment registry, the packet layer of the upcall path,
//! the handler table, the owner latch, the snapshot operations, and the
//! reactor that joins the marshalling to the registry across the boundary.

pub mod assoc;
pub mod bytes_abi;
pub mod gate;
pub mod guest_mem;
pub mod handlers;
pub mod packet;
pub mod protected;
pub mod reactor;
pub mod registry;
pub mod snapshot;
