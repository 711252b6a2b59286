//! What one fuzz action may ask for.

use vstd::prelude::*;

use super::layout::DISK_SECTORS;

verus! {

/// One step of a fuzz input.
#[derive(Debug, Clone, Copy, PartialEq, Eq, Structural)]
pub enum Action {
    /// Build a descriptor chain and publish it in the available ring.
    Submit(ChainSpec),
    /// Signal the queue event, as a guest driver's notification would.
    Kick,
    /// Let the device worker task run.
    Yield,
    /// Consume completions from the used ring.
    DrainUsed,
    /// Stop the queue, keeping its returned state for a later restart.
    StopQueue,
    /// Stop the queue, then reset the device and drop any saved queue state.
    Reset,
    /// Restart the queue, either fresh or from the saved state.
    Restart { use_saved_state: bool },
}

/// The request that a chain carries.
#[derive(Debug, Clone, Copy, PartialEq, Eq, Structural)]
pub enum ReqSpec {
    In { sector: u64 },
    Out { sector: u64 },
    Flush,
    GetId,
    Discard { sector: u64, num_sectors: u32, flags: u32 },
    /// A request type the device does not implement.
    Unknown { request_type: u32, sector: u64 },
}

/// A descriptor chain to publish: a well-formed request plus a set of
/// independent mutations.
#[derive(Debug, Clone, Copy, PartialEq, Eq, Structural)]
pub struct ChainSpec {
    pub req: ReqSpec,
    /// Requested payload bytes, before the bounds are applied.
    pub payload_len: u16,
    /// Round the payload up to a whole number of sectors.
    pub sector_aligned: bool,
    /// Selects the number of descriptors the payload is split across.
    pub frags: u8,
    /// Leave a gap between payload fragments.
    pub gap_between_frags: bool,
    /// Mark the payload descriptors device-writable.
    pub writable_payload: bool,
    /// Truncate the header descriptor to half the header.
    pub short_header: bool,
    /// Leave out the trailing status descriptor.
    pub omit_status: bool,
    /// Make the status descriptor device-readable.
    pub readable_status: bool,
    /// Insert a zero-length descriptor into the middle of the chain.
    pub zero_len_desc: bool,
    /// Point the last descriptor outside guest memory.
    pub bad_gpa: bool,
    /// Set the INDIRECT flag on the head descriptor.
    pub indirect_flag: bool,
    /// Kick the device right after publishing the chain.
    pub kick: bool,
}

/// The sector a raw number stands for: an even number gives a sector of the
/// disk, an odd one is taken as it is.
pub open spec fn sector_of(raw: u64) -> u64 {
    if raw % 2 == 0 {
        (raw / 2) % DISK_SECTORS
    } else {
        raw
    }
}

/// Picks a sector number. Even inputs give an in-range sector, so that the real
/// IO path is reachable; odd ones are passed through, covering out-of-range and
/// overflow-prone sectors.
pub fn pick_sector(raw: u64) -> (sector: u64)
    ensures
        sector == sector_of(raw),
{
    if raw & 1 == 0 {
        assert(raw & 1 == 0 ==> raw % 2 == 0) by (bit_vector);
        assert(raw >> 1 == raw / 2) by (bit_vector);
        (raw >> 1) % DISK_SECTORS
    } else {
        assert(raw & 1 != 0 ==> raw % 2 != 0) by (bit_vector);
        raw
    }
}

/// Even inputs address the disk, and every sector of the disk is reachable.
pub proof fn even_inputs_cover_the_disk(raw: u64, sector: u64)
    requires
        sector < DISK_SECTORS,
    ensures
        raw % 2 == 0 ==> sector_of(raw) < DISK_SECTORS,
        raw % 2 == 1 ==> sector_of(raw) == raw,
        sector_of((2 * sector) as u64) == sector,
{
}

} // verus!
