//! Guest memory layout and the bounds on one fuzz input.

use vstd::prelude::*;

verus! {

/// Virtqueue size: small enough that the descriptor table is easy to fill.
pub const QUEUE_SIZE: u16 = 16;

/// The same as a count of descriptor slots.
pub const QUEUE_SLOTS: usize = 16;

/// Size of the header at the front of every transmit chain.
pub const NET_HEADER_SIZE: u32 = 12;

/// The same as a length of a byte array.
pub const NET_HEADER_BYTES: usize = 12;

/// Maximum fuzz actions per input.
pub const MAX_ACTIONS: u32 = 256;

/// Executor yields available to one input.
pub const MAX_YIELDS: u32 = 512;

/// Maximum yields of one `Yield` action.
pub const MAX_YIELDS_PER_ACTION: u32 = 8;

/// Times that a started device is asked for its backend handle.
pub const HANDLE_YIELD_BUDGET: u32 = 32;

/// Maximum length of one guest buffer.
pub const MAX_BUF_LEN: u32 = 512;

/// Maximum data segments in a transmit chain, besides the header.
pub const MAX_TX_DATA_SEGMENTS: usize = 4;

/// Maximum segments in a receive chain.
pub const MAX_RX_SEGMENTS: usize = 2;

/// Guest bytes that an input may describe over all posted buffers.
pub const MAX_TOTAL_BYTES: u64 = 0x10_0000;

/// Used-ring entries read by one drain.
pub const MAX_DRAIN: usize = 64;

/// Maximum packets waiting to be received.
pub const MAX_PENDING_INJECT: usize = 64;

/// Maximum transmits released by one action.
pub const MAX_TX_COMPLETE_PER_ACTION: usize = 8;

/// Maximum whole packets that one transmit call may be told to consume. Zero is
/// never chosen: a backend that consumes nothing wedges the transmit side.
pub const MAX_TX_PACKETS_PER_AVAIL: usize = 8;

/// One in this many `FailTxPoll` actions arms a failure.
pub const FAIL_TX_POLL_RATE: u8 = 8;

/// Yields spent on letting the worker see an armed failure.
pub const FAIL_TX_POLL_YIELDS: u32 = 4;

pub const RX_DESC_ADDR: u64 = 0x0000;

pub const RX_AVAIL_ADDR: u64 = 0x1000;

pub const RX_USED_ADDR: u64 = 0x2000;

pub const TX_DESC_ADDR: u64 = 0x10000;

pub const TX_AVAIL_ADDR: u64 = 0x11000;

pub const TX_USED_ADDR: u64 = 0x12000;

/// Start of the buffer arena.
pub const DATA_BASE: u64 = 0x20000;

/// End of guest memory, and of the buffer arena.
pub const TOTAL_MEM_SIZE: u64 = 0x40000;

/// What received packets consist of.
pub const RX_FILL: u8 = 0xa5;

} // verus!
