//! The layout of one descriptor chain in guest memory.

use vstd::prelude::*;

use super::grammar::{pick_sector, sector_of, ChainSpec, ReqSpec};
use super::layout::{
    BAD_GPA, DATA_BASE, DATA_END, FRAG_GAP, MAX_CHAIN_PAYLOAD_BYTES, MAX_PAYLOAD_FRAGS,
    PAYLOAD_FILL, QUEUE_SIZE, SECTOR_SIZE, STATUS_FILL, VIRTIO_BLK_ID_BYTES, VIRTIO_BLK_T_DISCARD,
    VIRTIO_BLK_T_FLUSH, VIRTIO_BLK_T_GET_ID, VIRTIO_BLK_T_IN, VIRTIO_BLK_T_OUT,
};
use crate::ring::{Descriptor, DescriptorFlags};
use crate::wire::{le_bytes, le_bytes_len, u32_bytes, u64_bytes};

verus! {

// ---- The data region ----

/// Where `len` bytes land when the region is filled up to `cursor`: at the
/// cursor, or back at the start of the region if they do not fit.
pub open spec fn data_gpa(cursor: int, len: int) -> int {
    if cursor + len > DATA_END {
        DATA_BASE as int
    } else {
        cursor
    }
}

/// How far the region is filled once those bytes are handed out.
pub open spec fn data_next(cursor: int, len: int) -> int {
    data_gpa(cursor, len) + len
}

// ---- The request header ----

/// The request type field of the header.
pub open spec fn request_type(req: ReqSpec) -> u32 {
    match req {
        ReqSpec::In { .. } => VIRTIO_BLK_T_IN,
        ReqSpec::Out { .. } => VIRTIO_BLK_T_OUT,
        ReqSpec::Flush => VIRTIO_BLK_T_FLUSH,
        ReqSpec::GetId => VIRTIO_BLK_T_GET_ID,
        ReqSpec::Discard { .. } => VIRTIO_BLK_T_DISCARD,
        ReqSpec::Unknown { request_type, .. } => request_type,
    }
}

/// The sector field of the header.
pub open spec fn header_sector(req: ReqSpec) -> u64 {
    match req {
        ReqSpec::In { sector } => sector_of(sector),
        ReqSpec::Out { sector } => sector_of(sector),
        ReqSpec::Unknown { sector, .. } => sector_of(sector),
        _ => 0,
    }
}

/// The discard segment that follows the header of a discard request.
pub open spec fn discard_segment(req: ReqSpec) -> Seq<u8> {
    match req {
        ReqSpec::Discard { sector, num_sectors, flags } => le_bytes(sector_of(sector) as nat, 8)
            + le_bytes(num_sectors as nat, 4) + le_bytes(flags as nat, 4),
        _ => Seq::empty(),
    }
}

/// All bytes of the leading device-readable region: type, a reserved word,
/// sector, and the discard segment of a discard request.
pub open spec fn header_bytes(req: ReqSpec) -> Seq<u8> {
    le_bytes(request_type(req) as nat, 4) + le_bytes(0, 4) + le_bytes(header_sector(req) as nat, 8)
        + discard_segment(req)
}

/// The number of those bytes.
pub open spec fn header_len(req: ReqSpec) -> int {
    if req is Discard {
        32
    } else {
        16
    }
}

/// Encodes the header of a request.
pub fn encode_header(req: ReqSpec) -> (header: Vec<u8>)
    ensures
        header@ == header_bytes(req),
        header@.len() == header_len(req),
{
    let (request_type, sector): (u32, u64) = match req {
        ReqSpec::In { sector } => (VIRTIO_BLK_T_IN, pick_sector(sector)),
        ReqSpec::Out { sector } => (VIRTIO_BLK_T_OUT, pick_sector(sector)),
        ReqSpec::Flush => (VIRTIO_BLK_T_FLUSH, 0),
        ReqSpec::GetId => (VIRTIO_BLK_T_GET_ID, 0),
        ReqSpec::Discard { .. } => (VIRTIO_BLK_T_DISCARD, 0),
        ReqSpec::Unknown { request_type, sector } => (request_type, pick_sector(sector)),
    };
    let mut header: Vec<u8> = u32_bytes(request_type);
    let mut reserved: Vec<u8> = u32_bytes(0);
    let mut position: Vec<u8> = u64_bytes(sector);
    header.append(&mut reserved);
    header.append(&mut position);
    proof {
        le_bytes_len(request_type as nat, 4);
        le_bytes_len(0, 4);
        le_bytes_len(sector as nat, 8);
    }
    if let ReqSpec::Discard { sector, num_sectors, flags } = req {
        let start: u64 = pick_sector(sector);
        let mut position: Vec<u8> = u64_bytes(start);
        let mut count: Vec<u8> = u32_bytes(num_sectors);
        let mut flag_word: Vec<u8> = u32_bytes(flags);
        header.append(&mut position);
        header.append(&mut count);
        header.append(&mut flag_word);
        proof {
            le_bytes_len(start as nat, 8);
            le_bytes_len(num_sectors as nat, 4);
            le_bytes_len(flags as nat, 4);
        }
    }
    assert(header@ =~= header_bytes(req));
    header
}

// ---- The payload ----

/// `len` rounded up to a whole number of sectors.
pub open spec fn whole_sectors(len: int) -> int {
    (len + SECTOR_SIZE - 1) / SECTOR_SIZE as int * SECTOR_SIZE
}

/// The smaller of two numbers.
pub open spec fn at_most(value: int, limit: int) -> int {
    if value <= limit {
        value
    } else {
        limit
    }
}

/// Payload bytes of a chain when `budget` bytes are left for the input: the
/// requested length, held to the bound for a chain, rounded up to sectors if
/// asked for, held to the identifier length for GET_ID, and held to the budget.
pub open spec fn payload_bytes(spec: ChainSpec, budget: int) -> int {
    let capped = at_most(spec.payload_len as int, MAX_CHAIN_PAYLOAD_BYTES as int);
    let aligned = if spec.sector_aligned {
        whole_sectors(capped)
    } else {
        capped
    };
    let fitting = if spec.req is GetId {
        at_most(aligned, VIRTIO_BLK_ID_BYTES as int)
    } else {
        aligned
    };
    at_most(fitting, budget)
}

/// Computes the payload length of a chain.
pub fn payload_len(spec: &ChainSpec, budget: u32) -> (len: u32)
    ensures
        len == payload_bytes(*spec, budget as int),
        len <= budget,
        len <= MAX_CHAIN_PAYLOAD_BYTES,
{
    let mut len: u32 = spec.payload_len as u32;
    if len > MAX_CHAIN_PAYLOAD_BYTES {
        len = MAX_CHAIN_PAYLOAD_BYTES;
    }
    if spec.sector_aligned {
        let sector: u32 = SECTOR_SIZE as u32;
        len = (len + (sector - 1)) / sector * sector;
    }
    if matches!(spec.req, ReqSpec::GetId) && len > VIRTIO_BLK_ID_BYTES {
        len = VIRTIO_BLK_ID_BYTES;
    }
    if len > budget {
        len = budget;
    }
    len
}

/// Number of fragments that a payload is split into.
pub open spec fn frag_count(spec: ChainSpec, payload: int) -> int {
    if payload == 0 {
        0
    } else {
        1 + spec.frags % MAX_PAYLOAD_FRAGS
    }
}

/// Length of fragment `i` of `count`: an equal share, and for the last fragment
/// what is left.
pub open spec fn frag_len(payload: int, count: int, i: int) -> int {
    if i + 1 == count {
        payload - (count - 1) * (payload / count)
    } else {
        payload / count
    }
}

/// How far the data region is filled before fragment `i`, if it was filled up
/// to `cursor` before the first one.
pub open spec fn frag_cursor(cursor: int, payload: int, count: int, gap: bool, i: int) -> int
    decreases i,
{
    if i <= 0 {
        cursor
    } else {
        let before = frag_cursor(cursor, payload, count, gap, i - 1);
        let after = data_next(before, frag_len(payload, count, i - 1));
        if gap {
            data_next(after, FRAG_GAP as int)
        } else {
            after
        }
    }
}

// ---- The chain ----

/// One buffer of a chain.
#[derive(Debug, Clone, Copy, PartialEq, Eq, Structural)]
pub struct Buffer {
    pub gpa: u64,
    pub len: u32,
    /// Device-writable.
    pub writable: bool,
}

/// A run of guest memory to fill with one byte value.
#[derive(Debug, Clone, Copy, PartialEq, Eq, Structural)]
pub struct Fill {
    pub gpa: u64,
    pub len: u32,
    pub byte: u8,
}

/// Where every part of a chain goes, given how far the data region was filled
/// and how many payload bytes were left.
pub struct ChainLayout {
    pub spec: ChainSpec,
    pub cursor: int,
    pub budget: int,
}

impl ChainLayout {
    pub open spec fn payload(self) -> int {
        payload_bytes(self.spec, self.budget)
    }

    pub open spec fn frags(self) -> int {
        frag_count(self.spec, self.payload())
    }

    pub open spec fn header_gpa(self) -> int {
        data_gpa(self.cursor, header_len(self.spec.req))
    }

    /// Length that the header descriptor announces.
    pub open spec fn header_desc_len(self) -> int {
        if self.spec.short_header {
            header_len(self.spec.req) / 2
        } else {
            header_len(self.spec.req)
        }
    }

    pub open spec fn header_buffer(self) -> Buffer {
        Buffer {
            gpa: self.header_gpa() as u64,
            len: self.header_desc_len() as u32,
            writable: false,
        }
    }

    /// How far the region is filled once the header has its place.
    pub open spec fn header_end(self) -> int {
        data_next(self.cursor, header_len(self.spec.req))
    }

    /// The zero-length buffer goes before the payload: without a status buffer
    /// nothing would follow it otherwise.
    pub open spec fn zero_before_payload(self) -> bool {
        self.spec.zero_len_desc && self.spec.omit_status && self.payload() > 0
    }

    /// How far the region is filled before payload fragment `i`.
    pub open spec fn cursor_at(self, i: int) -> int {
        frag_cursor(
            if self.zero_before_payload() {
                data_next(self.header_end(), 0)
            } else {
                self.header_end()
            },
            self.payload(),
            self.frags(),
            self.spec.gap_between_frags,
            i,
        )
    }

    pub open spec fn frag_buffer(self, i: int) -> Buffer {
        Buffer {
            gpa: data_gpa(self.cursor_at(i), frag_len(self.payload(), self.frags(), i)) as u64,
            len: frag_len(self.payload(), self.frags(), i) as u32,
            writable: self.spec.writable_payload,
        }
    }

    pub open spec fn frag_buffers(self, n: int) -> Seq<Buffer> {
        Seq::new(n as nat, |i: int| self.frag_buffer(i))
    }

    /// The fills of the first `n` fragments; empty fragments need none.
    pub open spec fn fills(self, n: int) -> Seq<Fill>
        decreases n,
    {
        if n <= 0 {
            Seq::empty()
        } else {
            let last = self.frag_buffer(n - 1);
            if last.len > 0 {
                self.fills(n - 1).push(
                    Fill { gpa: last.gpa, len: last.len, byte: PAYLOAD_FILL },
                )
            } else {
                self.fills(n - 1)
            }
        }
    }

    /// How far the region is filled before the zero-length buffer.
    pub open spec fn zero_cursor(self) -> int {
        if self.zero_before_payload() {
            self.header_end()
        } else {
            self.cursor_at(self.frags())
        }
    }

    /// The zero-length buffer, if the chain has one.
    pub open spec fn zero_buffers(self) -> Seq<Buffer> {
        if self.spec.zero_len_desc {
            seq![
                Buffer {
                    gpa: data_gpa(self.zero_cursor(), 0) as u64,
                    len: 0,
                    writable: self.spec.writable_payload,
                },
            ]
        } else {
            Seq::empty()
        }
    }

    /// Where in the chain the zero-length buffer stands, if it has one.
    pub open spec fn zero_index(self) -> int {
        if self.zero_before_payload() {
            1
        } else {
            1 + self.frags()
        }
    }

    /// How far the region is filled before the status byte.
    pub open spec fn status_cursor(self) -> int {
        if self.spec.zero_len_desc && !self.zero_before_payload() {
            data_next(self.zero_cursor(), 0)
        } else {
            self.cursor_at(self.frags())
        }
    }

    /// Where the status byte goes, if the chain has one.
    pub open spec fn status_gpa(self) -> Option<u64> {
        if self.spec.omit_status {
            None
        } else {
            Some(data_gpa(self.status_cursor(), 1) as u64)
        }
    }

    /// How the status byte is set before the device writes it.
    pub open spec fn status_fill(self) -> Option<Fill> {
        match self.status_gpa() {
            Some(gpa) => Some(Fill { gpa, len: 1, byte: STATUS_FILL }),
            None => None,
        }
    }

    pub open spec fn status_buffers(self) -> Seq<Buffer> {
        match self.status_gpa() {
            Some(gpa) => seq![Buffer { gpa, len: 1, writable: !self.spec.readable_status }],
            None => Seq::empty(),
        }
    }

    /// How far the region is filled once the whole chain is laid out.
    pub open spec fn end_cursor(self) -> int {
        if self.spec.omit_status {
            self.status_cursor()
        } else {
            data_next(self.status_cursor(), 1)
        }
    }

    /// The buffers of the chain before the bad-address mutation.
    pub open spec fn sound_buffers(self) -> Seq<Buffer> {
        if self.zero_before_payload() {
            seq![self.header_buffer()] + self.zero_buffers() + self.frag_buffers(self.frags())
        } else {
            seq![self.header_buffer()] + self.frag_buffers(self.frags()) + self.zero_buffers()
                + self.status_buffers()
        }
    }

    /// The buffers of the chain, in order.
    pub open spec fn buffers(self) -> Seq<Buffer> {
        let sound = self.sound_buffers();
        if self.spec.bad_gpa {
            sound.update(sound.len() - 1, Buffer { gpa: BAD_GPA, ..sound[sound.len() - 1] })
        } else {
            sound
        }
    }
}

/// The descriptor slot a chain of `n` starts at: the next one, or the first if
/// the table would run out.
pub open spec fn chain_head(next_desc: int, n: int) -> int {
    if next_desc + n > QUEUE_SIZE {
        0
    } else {
        next_desc
    }
}

/// The descriptor for buffer `i` of a chain that starts in slot `head`.
pub open spec fn chain_descriptor(buffers: Seq<Buffer>, head: int, indirect: bool, i: int) -> Descriptor {
    Descriptor {
        index: (head + i) as u16,
        gpa: buffers[i].gpa,
        len: buffers[i].len,
        flags: DescriptorFlags {
            next: i + 1 < buffers.len(),
            write: buffers[i].writable,
            indirect: i == 0 && indirect,
        },
        next: (head + i + 1) as u16,
    }
}

/// The descriptors of a chain, in order.
pub open spec fn chain_descriptors(buffers: Seq<Buffer>, head: int, indirect: bool) -> Seq<Descriptor> {
    Seq::new(buffers.len(), |i: int| chain_descriptor(buffers, head, indirect, i))
}

/// Writes down the descriptors of a chain that starts in slot `head`. All but
/// the last link to the next one.
pub fn link_chain(buffers: &Vec<Buffer>, head: u16, indirect: bool) -> (descriptors: Vec<Descriptor>)
    requires
        head + buffers@.len() <= QUEUE_SIZE,
    ensures
        descriptors@ == chain_descriptors(buffers@, head as int, indirect),
{
    let n: usize = buffers.len();
    let mut descriptors: Vec<Descriptor> = Vec::new();
    let mut i: usize = 0;
    while i < n
        invariant
            0 <= i <= n == buffers@.len(),
            head + n <= QUEUE_SIZE,
            descriptors@ =~= Seq::new(
                i as nat,
                |k: int| chain_descriptor(buffers@, head as int, indirect, k),
            ),
        decreases n - i,
    {
        let buffer: Buffer = buffers[i];
        let index: u16 = head + i as u16;
        descriptors.push(
            Descriptor {
                index,
                gpa: buffer.gpa,
                len: buffer.len,
                flags: DescriptorFlags {
                    next: i + 1 < n,
                    write: buffer.writable,
                    indirect: i == 0 && indirect,
                },
                next: index + 1,
            },
        );
        i = i + 1;
    }
    descriptors
}

} // verus!
