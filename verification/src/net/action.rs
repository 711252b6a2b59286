//! What one fuzz action may ask for, and what it takes to carry it out.

use vstd::prelude::*;

use super::backend::BackendOp;
use super::layout::NET_HEADER_BYTES;
use crate::ring::Descriptor;

verus! {

/// One step of a fuzz input.
#[derive(Debug, Clone, Copy)]
pub enum Action {
    /// Post a writable receive chain and kick the receive queue.
    PostRx { segments: u8, len: u16 },
    /// Post a transmit chain: a header descriptor with the given bytes,
    /// followed by data descriptors.
    PostTx { header: [u8; NET_HEADER_BYTES], header_len: u8, segments: u8, len: u16 },
    /// Signal a queue's kick event without posting anything.
    Kick { rx: bool },
    /// Ask the backend to deliver a received packet.
    InjectRx { len: u16, ip: u8, l4: u8, segmented: bool },
    /// Choose how transmits complete, and how many whole packets one transmit
    /// call consumes.
    SetTxMode { sync: bool, max_packets: u8 },
    /// Release asynchronously consumed transmits.
    CompleteTx { count: u8 },
    /// Make the next poll for finished transmits fail, then recover the device.
    /// `key` rate-limits the action; `features` is for the restart.
    FailTxPoll { fatal: bool, key: u8, features: u64 },
    /// Let the device's tasks run.
    Yield { count: u8 },
    /// Drain the used ring, freeing descriptor slots.
    DrainUsed { rx: bool },
    /// Stop both queues.
    Stop,
    /// Stop both queues and reset the device.
    Reset,
    /// Initialize the rings anew, if the device is stopped.
    RebuildRings,
    /// Start the queues, if stopped, with a fresh feature set.
    Start { features: u64 },
    /// Stop, reset, rebuild the rings and start again.
    Restart { features: u64 },
}

/// Something to do to the device, its queues, its backend, or guest memory.
/// Where `rx` is given it tells the receive queue from the transmit queue.
#[derive(Debug, Clone, Copy)]
pub enum Op {
    /// Write the header of a transmit chain.
    WriteHeader { gpa: u64, header: [u8; NET_HEADER_BYTES] },
    /// Write an entry of a descriptor table.
    WriteDescriptor { rx: bool, descriptor: Descriptor },
    /// Publish a chain in the available ring.
    MakeAvailable { rx: bool, head: u16 },
    /// Signal a queue's kick event.
    Kick { rx: bool },
    /// Hand a request to the backend, and wake the device's task.
    Backend(BackendOp),
    /// Let the device's tasks run `count` times, or until the budget is spent.
    Yield { count: u32 },
    /// Read the used ring, up to `limit` entries, and report the heads found.
    DrainUsed { rx: bool, limit: usize },
    /// Initialize the available and used rings of both queues.
    InitRings,
    /// Start a queue; 0 is receive, 1 is transmit.
    StartQueue { index: u16, features: u64 },
    /// Ask for the backend handle as long as it is due.
    Attach,
    /// Stop a queue.
    StopQueue { index: u16 },
    /// Let go of the backend handle, and of one that has not been taken yet.
    Detach,
    /// Reset the device.
    ResetDevice,
}

} // verus!
