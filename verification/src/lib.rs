//! Core state of a microkernel: context records and round-robin scheduling,
//! the file-like "scheme" contract, the user-scheme packet bridge with
//! cross-address-space memory capture, and ptrace sessions.
//!
//! Everything here is a machine-checked model of the kernel's bookkeeping:
//! global tables become explicit values threaded through the functions, and
//! the blocking primitives become decision functions whose caller performs
//! the actual sleep, interrupt or register swap.
use vstd::prelude::*;

pub mod context;
pub mod error;
pub mod gdt;
pub mod memory;
pub mod ptrace;
pub mod scheme;
pub mod switch;
pub mod user;

verus! {

/// Size in bytes of one page of virtual memory.
/// Virtual addresses, lengths and physical addresses are modelled as `u64`,
/// the pointer width of the machines this kernel targets.
pub const PAGE_SIZE: u64 = 4096;

/// Exclusive upper bound of the user-accessible virtual address range.
/// All captures and context-memory walks clip to this boundary.
pub const USER_END_OFFSET: u64 = 0x8000_0000_0000;

/// Distinguished non-canonical address handed out for zero-length captures,
/// so that servers can always form a valid (but unreadable) slice.
/// Bit 62 alone: it lies far outside `USER_END_OFFSET`, so no legal mapping
/// contains it.
pub const DANGLING: u64 = 0x4000_0000_0000_0000;

/// Greatest number of slots a context's file table may hold.
pub const CONTEXT_MAX_FILES: usize = 65_536;

} // verus!
