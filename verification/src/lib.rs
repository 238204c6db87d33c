//! Zero-copy packet capture over a kernel/userspace shared ring buffer
//! (the Linux TPACKET_V3 mechanism).
//!
//! The library holds the protocol logic: the binary layout of block and
//! per-packet headers, the block-ownership handoff between kernel and
//! consumer, the walk over the packet records of a ready block, and the
//! ring-geometry and fanout accounting.  The syscall plumbing that opens,
//! maps and binds the capture socket lives outside the library and hands
//! it plain bytes and values.
use vstd::prelude::*;

pub mod rx;
pub mod socket;
pub mod tpacket3;

verus! {

/// Failure taxonomy of the capture engine.
///
/// `ConfigError`, `ResourceError` and `BindError` are fatal at setup;
/// `MalformedHeader` marks a block header too short to decode, which a
/// scan pass treats as not ready.
#[derive(Clone, Copy, Debug, PartialEq, Eq, Structural)]
pub enum RingError {
    /// Inconsistent ring geometry, rejected interface name, or an
    /// unsupported fanout request.
    ConfigError,
    /// The kernel refused the ring allocation or the mapping failed.
    ResourceError,
    /// Binding the capture socket to the interface failed.
    BindError,
    /// A block header was too short to decode.
    MalformedHeader,
}

} // verus!
