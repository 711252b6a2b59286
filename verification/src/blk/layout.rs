//! Guest memory layout and the bounds on one fuzz input.

use vstd::prelude::*;

verus! {

/// Queue size: a power of two, kept small so that descriptor slots are reused
/// soon.
pub const QUEUE_SIZE: u16 = 32;

/// Total guest memory. Addresses at or beyond this are out of range.
pub const MEM_SIZE: u64 = 0x40000;

pub const DESC_ADDR: u64 = 0x0000;

pub const AVAIL_ADDR: u64 = 0x1000;

pub const USED_ADDR: u64 = 0x2000;

/// Start of the region for request headers, payloads, and status bytes.
pub const DATA_BASE: u64 = 0x10000;

/// End of that region. The region is smaller than the payload bound of an
/// input, so that later chains alias the buffers of earlier ones.
pub const DATA_END: u64 = DATA_BASE + 0x4000;

/// An address outside guest memory.
pub const BAD_GPA: u64 = MEM_SIZE + 0x1000;

/// Size of the backing disk.
pub const DISK_SIZE: u64 = 0x10000;

pub const SECTOR_SIZE: u64 = 512;

pub const DISK_SECTORS: u64 = DISK_SIZE / SECTOR_SIZE;

/// Maximum payload bytes in one descriptor chain.
pub const MAX_CHAIN_PAYLOAD_BYTES: u32 = 16384;

/// Maximum payload bytes over all chains of one input.
pub const MAX_TOTAL_PAYLOAD_BYTES: u32 = 32768;

/// Maximum descriptors in one chain, header and status included.
pub const MAX_DESCS_PER_CHAIN: usize = 8;

/// Maximum fragments that the payload of a chain is split into.
pub const MAX_PAYLOAD_FRAGS: u8 = 4;

/// Bytes skipped between fragments that must not be contiguous.
pub const FRAG_GAP: u32 = 100;

/// Maximum chains published in one input.
pub const MAX_CHAINS: u32 = 16;

/// Maximum fuzz actions per input.
pub const MAX_ACTIONS: u32 = 32;

/// Maximum executor yields per input.
pub const MAX_YIELDS: u32 = 48;

/// Yields set aside for teardown.
pub const TEARDOWN_YIELDS: u32 = 4;

/// Maximum used-ring entries read by one drain.
pub const MAX_DRAIN_ENTRIES: u32 = 64;

/// What payload buffers are filled with.
pub const PAYLOAD_FILL: u8 = 0xcc;

/// What the status byte holds before the device writes it.
pub const STATUS_FILL: u8 = 0xff;

pub const VIRTIO_BLK_T_IN: u32 = 0;

pub const VIRTIO_BLK_T_OUT: u32 = 1;

pub const VIRTIO_BLK_T_FLUSH: u32 = 4;

pub const VIRTIO_BLK_T_GET_ID: u32 = 8;

pub const VIRTIO_BLK_T_DISCARD: u32 = 11;

/// Length of the identifier that a GET_ID request returns.
pub const VIRTIO_BLK_ID_BYTES: u32 = 20;

} // verus!
