//! Virtqueue descriptors and feature negotiation, shared by both fuzzers.

use vstd::prelude::*;

verus! {

/// `VIRTIO_F_RING_PACKED`, bit 34 of the feature word.
pub const RING_PACKED_BIT: u64 = 0x4_0000_0000;

/// The flags of one descriptor.
#[derive(Debug, Clone, Copy, PartialEq, Eq, Structural)]
pub struct DescriptorFlags {
    /// Another descriptor follows in the chain.
    pub next: bool,
    /// The buffer is device-writable.
    pub write: bool,
    /// The buffer holds an indirect descriptor table.
    pub indirect: bool,
}

/// One entry to write into a descriptor table.
#[derive(Debug, Clone, Copy, PartialEq, Eq, Structural)]
pub struct Descriptor {
    /// Slot in the table.
    pub index: u16,
    /// Guest address of the buffer.
    pub gpa: u64,
    /// Length of the buffer in bytes.
    pub len: u32,
    pub flags: DescriptorFlags,
    /// Slot of the next descriptor of the chain.
    pub next: u16,
}

/// Feature bits a guest may take from those a device offers: never the packed
/// ring, because the rings built here are split rings.
pub fn without_ring_packed(offered: u64) -> (allowed: u64)
    ensures
        allowed == offered & !RING_PACKED_BIT,
{
    offered & !RING_PACKED_BIT
}

/// The feature word that a guest asking for `requested` ends up with.
pub fn negotiate(requested: u64, allowed: u64) -> (features: u64)
    ensures
        features == requested & allowed,
{
    requested & allowed
}

/// Only offered bits are negotiated, and the packed ring is not among them.
pub proof fn negotiation_is_safe(requested: u64, offered: u64)
    ensures
        ({
            let features = requested & (offered & !RING_PACKED_BIT);
            &&& features & !offered == 0
            &&& features & RING_PACKED_BIT == 0
            &&& features & requested == features
        }),
{
    assert(({
        let features = requested & (offered & !0x4_0000_0000u64);
        &&& features & !offered == 0
        &&& features & 0x4_0000_0000u64 == 0
        &&& features & requested == features
    })) by (bit_vector);
}

/// Every bit that is both requested and offered is negotiated, the packed ring
/// apart.
pub proof fn negotiation_keeps_shared_bits(requested: u64, offered: u64, bits: u64)
    requires
        bits & requested == bits,
        bits & offered == bits,
        bits & RING_PACKED_BIT == 0,
    ensures
        bits & (requested & (offered & !RING_PACKED_BIT)) == bits,
        RING_PACKED_BIT == 1u64 << 34u64,
{
    assert(bits & (requested & (offered & !0x4_0000_0000u64)) == bits) by (bit_vector)
        requires
            bits & requested == bits,
            bits & offered == bits,
            bits & 0x4_0000_0000u64 == 0,
    ;
    assert(0x4_0000_0000u64 == 1u64 << 34u64) by (bit_vector);
}

} // verus!
