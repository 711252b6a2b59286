//! What a chain consists of, told from what was asked for alone.

use vstd::prelude::*;

use super::chain::{
    chain_descriptors, chain_head, data_gpa, data_next, frag_count, frag_len, header_bytes,
    payload_bytes, Buffer, ChainLayout, Fill,
};
use super::grammar::{sector_of, ChainSpec, ReqSpec};
use super::harness::{Harness, Submission};
use super::laws::{
    chains_are_short, frag_total, fragments_hold_the_payload, headers_read_back, payload_is_bounded,
};
use super::layout::{
    AVAIL_ADDR, BAD_GPA, DATA_BASE, DATA_END, DESC_ADDR, DISK_SECTORS, DISK_SIZE, FRAG_GAP,
    MAX_ACTIONS, MAX_CHAINS, MAX_CHAIN_PAYLOAD_BYTES, MAX_DESCS_PER_CHAIN, MAX_PAYLOAD_FRAGS,
    MAX_TOTAL_PAYLOAD_BYTES, MAX_YIELDS, MEM_SIZE, PAYLOAD_FILL, QUEUE_SIZE, SECTOR_SIZE,
    TEARDOWN_YIELDS, USED_ADDR, VIRTIO_BLK_ID_BYTES,
};

verus! {

/// The bounds fit together: rings, data region and the bad address are apart,
/// the largest payload fits the region, the region is smaller than the payload
/// of a whole input, so that it wraps, and every chain fits the table.
pub proof fn bounds_fit_together()
    ensures
        QUEUE_SIZE == 32,
        DESC_ADDR == 0 && AVAIL_ADDR == 0x1000 && USED_ADDR == 0x2000,
        DATA_BASE == 0x10000 && MEM_SIZE == 0x40000 && BAD_GPA == 0x41000,
        DESC_ADDR + 16 * QUEUE_SIZE <= AVAIL_ADDR,
        AVAIL_ADDR + 6 + 2 * QUEUE_SIZE <= USED_ADDR,
        USED_ADDR + 6 + 8 * QUEUE_SIZE <= DATA_BASE,
        DATA_END <= MEM_SIZE <= BAD_GPA,
        MAX_CHAIN_PAYLOAD_BYTES == 4 * 4096 == DATA_END - DATA_BASE,
        MAX_TOTAL_PAYLOAD_BYTES == 8 * 4096 > DATA_END - DATA_BASE,
        SECTOR_SIZE == 512,
        DISK_SECTORS * SECTOR_SIZE == DISK_SIZE == 64 * 1024,
        1 + MAX_PAYLOAD_FRAGS + 2 <= MAX_DESCS_PER_CHAIN == 8,
        MAX_PAYLOAD_FRAGS == 4,
        MAX_CHAINS == 16,
        MAX_ACTIONS == 32,
        MAX_YIELDS == 48,
        TEARDOWN_YIELDS == 4,
        FRAG_GAP == 100,
        VIRTIO_BLK_ID_BYTES == 20,
{
}

// ---- Requests ----

/// An even number gives a sector of the disk, the one it reaches after going
/// round the disk as often as it takes; an odd number is taken as it is.
pub proof fn sectors_go_round_the_disk(raw: u64)
    ensures
        raw % 2 == 0 ==> sector_of(raw) < DISK_SECTORS && (raw as int / 2 - sector_of(raw))
            % DISK_SECTORS as int == 0,
        raw % 2 == 1 ==> sector_of(raw) == raw,
{
}

/// The header names the request: its type as virtio numbers it, a zero word, and
/// the sector where the type has one. A discard has its sector, number of
/// sectors and flags in a segment of its own behind the header.
pub proof fn headers_name_the_request(req: ReqSpec)
    ensures
        ({
            let bytes = header_bytes(req);
            &&& bytes.len() == (if req is Discard {
                32int
            } else {
                16
            })
            &&& crate::wire::le_value(bytes.subrange(0, 4)) == match req {
                ReqSpec::In { .. } => 0nat,
                ReqSpec::Out { .. } => 1,
                ReqSpec::Flush => 4,
                ReqSpec::GetId => 8,
                ReqSpec::Discard { .. } => 11,
                ReqSpec::Unknown { request_type, .. } => request_type as nat,
            }
            &&& crate::wire::le_value(bytes.subrange(4, 8)) == 0
            &&& crate::wire::le_value(bytes.subrange(8, 16)) == match req {
                ReqSpec::In { sector } => sector_of(sector) as nat,
                ReqSpec::Out { sector } => sector_of(sector) as nat,
                ReqSpec::Flush => 0,
                ReqSpec::GetId => 0,
                ReqSpec::Discard { .. } => 0,
                ReqSpec::Unknown { sector, .. } => sector_of(sector) as nat,
            }
            &&& req matches ReqSpec::Discard { sector, num_sectors, flags } ==> {
                &&& crate::wire::le_value(bytes.subrange(16, 24)) == sector_of(sector)
                &&& crate::wire::le_value(bytes.subrange(24, 28)) == num_sectors
                &&& crate::wire::le_value(bytes.subrange(28, 32)) == flags
            }
        }),
{
    headers_read_back(req);
}

// ---- Payload ----

/// The smaller of two lengths.
pub open spec fn shorter(a: int, b: int) -> int {
    if a < b {
        a
    } else {
        b
    }
}

/// A payload is what was asked for, within what a chain, the request and the
/// budget allow. Unaligned, it is just that. Aligned, it is the least whole
/// number of sectors that covers it, unless the request or the budget allows
/// less; then it is all they allow.
pub proof fn payload_covers_what_was_asked_for(spec: ChainSpec, budget: int)
    requires
        0 <= budget,
    ensures
        ({
            let payload = payload_bytes(spec, budget);
            let asked = shorter(spec.payload_len as int, MAX_CHAIN_PAYLOAD_BYTES as int);
            let allowed = if spec.req is GetId {
                shorter(VIRTIO_BLK_ID_BYTES as int, budget)
            } else {
                budget
            };
            &&& 0 <= payload <= allowed
            &&& !spec.sector_aligned ==> payload == shorter(asked, allowed)
            &&& spec.sector_aligned ==> {
                &&& forall|sectors: int|
                    asked <= #[trigger] (sectors * SECTOR_SIZE) ==> payload <= sectors
                        * SECTOR_SIZE
                &&& payload < allowed ==> payload % SECTOR_SIZE as int == 0 && payload
                    - SECTOR_SIZE < asked <= payload
            }
        }),
{
    let payload = payload_bytes(spec, budget);
    let asked = shorter(spec.payload_len as int, MAX_CHAIN_PAYLOAD_BYTES as int);
    assert forall|sectors: int| spec.sector_aligned && asked <= #[trigger] (sectors * SECTOR_SIZE)
        implies payload <= sectors * SECTOR_SIZE by {
        assert((asked + 511) / 512 <= sectors);
    }
}

/// A payload is split into as many fragments as the fuzz byte selects, one to
/// four, all of the same length but the last: the largest length that as many
/// fragments can have. The last fragment takes what is left.
pub proof fn fragments_are_equal_shares(spec: ChainSpec, payload: int, i: int)
    requires
        0 <= payload,
    ensures
        ({
            let count = frag_count(spec, payload);
            &&& count == 0 <==> payload == 0
            &&& payload > 0 ==> 1 <= count <= 4 && (spec.frags - (count - 1)) % 4 == 0
            &&& 0 <= i < count - 1 ==> count * frag_len(payload, count, i) <= payload < count * (
            frag_len(payload, count, i) + 1)
            &&& payload > 0 ==> frag_len(payload, count, count - 1) + frag_total(
                payload,
                count,
                count - 1,
            ) == payload
        }),
{
    fragments_hold_the_payload(spec, payload);
    let count = frag_count(spec, payload);
    if payload > 0 {
        assert(count == 1 || count == 2 || count == 3 || count == 4);
    }
}

// ---- Places ----

/// Bytes go where the last ones ended if they fit there, and else to the start
/// of the region; the next ones go right behind them.
pub proof fn bytes_follow_each_other(cursor: int, len: int)
    ensures
        data_gpa(cursor, len) == cursor || data_gpa(cursor, len) == DATA_BASE,
        cursor + len <= DATA_END ==> data_gpa(cursor, len) == cursor,
        cursor + len > DATA_END ==> data_gpa(cursor, len) == DATA_BASE,
        data_next(cursor, len) == data_gpa(cursor, len) + len,
{
}

/// Where in a chain the first payload fragment stands: behind the header, and
/// behind the zero-length buffer where no status buffer would follow that one.
pub open spec fn first_fragment(spec: ChainSpec) -> int {
    if spec.zero_len_desc && spec.omit_status {
        2
    } else {
        1
    }
}

/// The parts of a chain: a header that the device reads, announced in full or by
/// half; the payload fragments; a zero-length buffer, before a payload that
/// nothing follows, and else behind the payload; and a status byte at the end.
pub proof fn chains_have_their_parts(layout: ChainLayout)
    requires
        0 <= layout.budget,
    ensures
        ({
            let spec = layout.spec;
            let payload = payload_bytes(spec, layout.budget);
            let count = frag_count(spec, payload);
            let first = first_fragment(spec);
            let bytes = header_bytes(spec.req).len();
            let sound = layout.sound_buffers();
            &&& sound.len() == 1 + count + (if spec.zero_len_desc {
                1int
            } else {
                0
            }) + (if spec.omit_status {
                0int
            } else {
                1
            })
            &&& !sound[0].writable
            &&& sound[0].len == (if spec.short_header {
                bytes / 2
            } else {
                bytes
            })
            &&& forall|i: int|
                0 <= i < count ==> (#[trigger] sound[first + i]).len == frag_len(payload, count, i)
                    && sound[first + i].writable == spec.writable_payload
            &&& spec.zero_len_desc ==> {
                let zero = if spec.omit_status && count > 0 {
                    1
                } else {
                    1 + count
                };
                sound[zero].len == 0 && sound[zero].writable == spec.writable_payload
            }
            &&& !spec.omit_status ==> sound.last().len == 1 && sound.last().writable
                == !spec.readable_status
        }),
{
    let spec = layout.spec;
    let payload = layout.payload();
    let count = layout.frags();
    let first = first_fragment(spec);
    let sound = layout.sound_buffers();
    headers_read_back(spec.req);
    chains_are_short(layout);
    payload_is_bounded(spec, layout.budget);
    fragments_hold_the_payload(spec, payload);
    assert forall|i: int| 0 <= i < count implies (#[trigger] sound[first + i]).len == frag_len(
        payload,
        count,
        i,
    ) && sound[first + i].writable == spec.writable_payload by {
        assert(sound[first + i] == layout.frag_buffer(i));
        assert(0 <= frag_len(payload, count, i) <= payload);
    }
}

/// Where the bytes behind buffer `i` of a chain may start: behind what buffer
/// `i` holds, which for the header is all of it however much is announced, and
/// behind a gap where fragments are kept apart.
pub open spec fn end_of(layout: ChainLayout, i: int) -> int {
    let spec = layout.spec;
    let sound = layout.sound_buffers();
    let first = first_fragment(spec);
    let end = if i == 0 {
        sound[0].gpa + header_bytes(spec.req).len()
    } else {
        sound[i].gpa + sound[i].len
    };
    if spec.gap_between_frags && first <= i < first + frag_count(
        spec,
        payload_bytes(spec, layout.budget),
    ) {
        data_next(end, FRAG_GAP as int)
    } else {
        end
    }
}

/// The parts of a chain lie in the data region in order, each right behind the
/// one before, wrapping where it does not fit.
pub proof fn chains_are_packed(layout: ChainLayout)
    requires
        DATA_BASE <= layout.cursor,
        0 <= layout.budget,
    ensures
        ({
            let sound = layout.sound_buffers();
            let bytes = header_bytes(layout.spec.req).len() as int;
            &&& sound[0].gpa == data_gpa(layout.cursor, bytes) == layout.header_gpa()
            &&& forall|i: int|
                1 <= i < sound.len() ==> (#[trigger] sound[i]).gpa == data_gpa(
                    end_of(layout, i - 1),
                    sound[i].len as int,
                )
            &&& layout.end_cursor() == end_of(layout, sound.len() - 1)
        }),
{
    let sound = layout.sound_buffers();
    header_is_packed(layout);
    chains_are_short(layout);
    assert forall|i: int| 1 <= i < sound.len() implies (#[trigger] sound[i]).gpa == data_gpa(
        end_of(layout, i - 1),
        sound[i].len as int,
    ) by {
        part_is_packed(layout, i);
    }
    end_is_packed(layout);
}

proof fn header_is_packed(layout: ChainLayout)
    requires
        DATA_BASE <= layout.cursor,
        0 <= layout.budget,
    ensures
        layout.sound_buffers()[0].gpa == data_gpa(
            layout.cursor,
            header_bytes(layout.spec.req).len() as int,
        ) == layout.header_gpa(),
        end_of(layout, 0) == layout.header_end(),
        DATA_BASE <= layout.header_end() <= DATA_END,
{
    headers_read_back(layout.spec.req);
    assert(layout.sound_buffers()[0] == layout.header_buffer());
}

proof fn fragment_is_packed(layout: ChainLayout, j: int)
    requires
        DATA_BASE <= layout.cursor,
        0 <= layout.budget,
        0 <= j < layout.frags(),
    ensures
        ({
            let sound = layout.sound_buffers();
            let at = first_fragment(layout.spec) + j;
            &&& at < sound.len()
            &&& sound[at].gpa == data_gpa(layout.cursor_at(j), sound[at].len as int)
            &&& end_of(layout, at) == layout.cursor_at(j + 1)
        }),
{
    let sound = layout.sound_buffers();
    let at = first_fragment(layout.spec) + j;
    let len = frag_len(layout.payload(), layout.frags(), j);
    payload_is_bounded(layout.spec, layout.budget);
    fragments_hold_the_payload(layout.spec, layout.payload());
    cursors_stay_in_region(layout, j);
    assert(0 <= len <= layout.payload());
    assert(layout.frag_buffers(layout.frags()).len() == layout.frags());
    assert(sound[at] == layout.frag_buffer(j));
    assert(sound[at].len == len);
    assert(sound[at].gpa == data_gpa(layout.cursor_at(j), len));
}

proof fn part_is_packed(layout: ChainLayout, i: int)
    requires
        DATA_BASE <= layout.cursor,
        0 <= layout.budget,
        1 <= i < layout.sound_buffers().len(),
    ensures
        layout.sound_buffers()[i].gpa == data_gpa(
            end_of(layout, i - 1),
            layout.sound_buffers()[i].len as int,
        ),
{
    let spec = layout.spec;
    let sound = layout.sound_buffers();
    let first = first_fragment(spec);
    let count = layout.frags();
    header_is_packed(layout);
    payload_is_bounded(spec, layout.budget);
    assert(layout.frag_buffers(count).len() == count);
    assert(layout.cursor_at(0) == layout.header_end());
    cursors_stay_in_region(layout, count);
    if first <= i < first + count {
        fragment_is_packed(layout, i - first);
        if i > first {
            fragment_is_packed(layout, i - first - 1);
        } else if first == 2 {
            assert(sound[1] == layout.zero_buffers()[0]);
        }
    } else if count > 0 {
        fragment_is_packed(layout, count - 1);
        if first == 2 {
            assert(sound[1] == layout.zero_buffers()[0]);
        } else if spec.zero_len_desc {
            assert(sound[1 + count] == layout.zero_buffers()[0]);
        }
    } else if spec.zero_len_desc {
        assert(sound[1] == layout.zero_buffers()[0]);
    }
    if !spec.omit_status && i == sound.len() - 1 {
        assert(sound[i] == layout.status_buffers()[0]);
    }
}

proof fn end_is_packed(layout: ChainLayout)
    requires
        DATA_BASE <= layout.cursor,
        0 <= layout.budget,
    ensures
        layout.end_cursor() == end_of(layout, layout.sound_buffers().len() - 1),
{
    let spec = layout.spec;
    let sound = layout.sound_buffers();
    let count = layout.frags();
    let last = sound.len() - 1;
    header_is_packed(layout);
    payload_is_bounded(spec, layout.budget);
    assert(layout.frag_buffers(count).len() == count);
    assert(layout.cursor_at(0) == layout.header_end());
    cursors_stay_in_region(layout, count);
    if !spec.omit_status {
        assert(sound[last] == layout.status_buffers()[0]);
    } else if count > 0 {
        fragment_is_packed(layout, count - 1);
    } else if spec.zero_len_desc {
        assert(sound[last] == layout.zero_buffers()[0]);
    }
}

proof fn cursors_stay_in_region(layout: ChainLayout, i: int)
    requires
        DATA_BASE <= layout.cursor,
        0 <= layout.budget,
        0 <= i <= layout.frags(),
    ensures
        DATA_BASE <= layout.cursor_at(i) <= DATA_END,
    decreases i,
{
    payload_is_bounded(layout.spec, layout.budget);
    fragments_hold_the_payload(layout.spec, layout.payload());
    if i > 0 {
        cursors_stay_in_region(layout, i - 1);
        let len = frag_len(layout.payload(), layout.frags(), i - 1);
        assert(0 <= len <= layout.payload());
    }
}

/// Without the bad-address mutation a chain is its parts; with it, only the
/// address of the last part differs, and lies outside guest memory.
pub proof fn bad_address_is_the_last_one(layout: ChainLayout)
    requires
        0 <= layout.budget,
    ensures
        ({
            let sound = layout.sound_buffers();
            let buffers = layout.buffers();
            &&& buffers.len() == sound.len()
            &&& forall|i: int|
                0 <= i < buffers.len() && !(layout.spec.bad_gpa && i == buffers.len() - 1)
                    ==> #[trigger] buffers[i] == sound[i]
            &&& layout.spec.bad_gpa ==> {
                &&& buffers.last().gpa == BAD_GPA >= MEM_SIZE
                &&& buffers.last().len == sound.last().len
                &&& buffers.last().writable == sound.last().writable
            }
        }),
{
    chains_are_short(layout);
}

/// Bytes that fills cover together.
pub open spec fn filled_bytes(fills: Seq<Fill>) -> int
    decreases fills.len(),
{
    if fills.len() == 0 {
        0
    } else {
        filled_bytes(fills.drop_last()) + fills.last().len
    }
}

/// The payload is filled, all of it and nothing else: every fragment that holds
/// bytes is filled where it lies, every fill is such a fragment, and together
/// they are as long as the payload. The status byte is set where it lies.
pub proof fn fills_cover_the_payload(layout: ChainLayout)
    requires
        DATA_BASE <= layout.cursor,
        0 <= layout.budget,
    ensures
        ({
            let spec = layout.spec;
            let payload = payload_bytes(spec, layout.budget);
            let count = frag_count(spec, payload);
            let first = first_fragment(spec);
            let sound = layout.sound_buffers();
            let fills = layout.fills(layout.frags());
            &&& forall|i: int|
                0 <= i < count && (#[trigger] sound[first + i]).len > 0 ==> fills.contains(
                    Fill { gpa: sound[first + i].gpa, len: sound[first + i].len, byte: 0xcc },
                )
            &&& forall|j: int|
                0 <= j < fills.len() ==> (#[trigger] fills[j]).len > 0 && fills[j].byte == 0xcc
                    && exists|i: int|
                    0 <= i < count && (#[trigger] sound[first + i]).gpa == fills[j].gpa
                        && sound[first + i].len == fills[j].len
            &&& filled_bytes(fills) == payload
            &&& layout.status_fill() == (if spec.omit_status {
                None
            } else {
                Some(Fill { gpa: sound.last().gpa, len: 1, byte: 0xff })
            })
        }),
{
    let payload = layout.payload();
    let count = layout.frags();
    let first = first_fragment(layout.spec);
    let sound = layout.sound_buffers();
    let fills = layout.fills(count);
    payload_is_bounded(layout.spec, layout.budget);
    chains_are_short(layout);
    fragments_hold_the_payload(layout.spec, payload);
    fills_are_fragments(layout, count);
    assert forall|i: int| 0 <= i < count implies #[trigger] sound[first + i] == layout.frag_buffer(
        i,
    ) by {}
    assert forall|i: int| 0 <= i < count && (#[trigger] sound[first + i]).len > 0 implies
        fills.contains(
        Fill { gpa: sound[first + i].gpa, len: sound[first + i].len, byte: 0xcc },
    ) by {
        assert(sound[first + i] == layout.frag_buffer(i));
    }
    assert forall|j: int| 0 <= j < fills.len() implies (#[trigger] fills[j]).len > 0
        && fills[j].byte == 0xcc && exists|i: int|
        0 <= i < count && (#[trigger] sound[first + i]).gpa == fills[j].gpa && sound[first + i].len
            == fills[j].len by {
        let i = choose|i: int|
            0 <= i < count && (#[trigger] layout.frag_buffer(i)).gpa == fills[j].gpa
                && layout.frag_buffer(i).len == fills[j].len;
        assert(sound[first + i] == layout.frag_buffer(i));
    }
}

proof fn fills_are_fragments(layout: ChainLayout, n: int)
    requires
        0 <= layout.budget,
        0 <= n <= layout.frags(),
    ensures
        ({
            let fills = layout.fills(n);
            &&& forall|i: int|
                0 <= i < n && (#[trigger] layout.frag_buffer(i)).len > 0 ==> fills.contains(
                    Fill {
                        gpa: layout.frag_buffer(i).gpa,
                        len: layout.frag_buffer(i).len,
                        byte: PAYLOAD_FILL,
                    },
                )
            &&& forall|j: int|
                0 <= j < fills.len() ==> (#[trigger] fills[j]).len > 0 && fills[j].byte
                    == PAYLOAD_FILL && exists|i: int|
                    0 <= i < n && (#[trigger] layout.frag_buffer(i)).gpa == fills[j].gpa
                        && layout.frag_buffer(i).len == fills[j].len
            &&& filled_bytes(fills) == frag_total(layout.payload(), layout.frags(), n)
        }),
    decreases n,
{
    payload_is_bounded(layout.spec, layout.budget);
    fragments_hold_the_payload(layout.spec, layout.payload());
    if n > 0 {
        let before = layout.fills(n - 1);
        let fills = layout.fills(n);
        let last = layout.frag_buffer(n - 1);
        let len = frag_len(layout.payload(), layout.frags(), n - 1);
        fills_are_fragments(layout, n - 1);
        assert(0 <= len <= layout.payload());
        assert forall|i: int| 0 <= i < n && (#[trigger] layout.frag_buffer(i)).len > 0 implies
            fills.contains(
            Fill {
                gpa: layout.frag_buffer(i).gpa,
                len: layout.frag_buffer(i).len,
                byte: PAYLOAD_FILL,
            },
        ) by {
            let fill = Fill {
                gpa: layout.frag_buffer(i).gpa,
                len: layout.frag_buffer(i).len,
                byte: PAYLOAD_FILL,
            };
            if i < n - 1 {
                assert(before.contains(fill));
                let j = choose|j: int| 0 <= j < before.len() && before[j] == fill;
                assert(fills[j] == fill);
            } else {
                assert(fills[fills.len() - 1] == fill);
            }
        }
        assert forall|j: int| 0 <= j < fills.len() implies (#[trigger] fills[j]).len > 0
            && fills[j].byte == PAYLOAD_FILL && exists|i: int|
            0 <= i < n && (#[trigger] layout.frag_buffer(i)).gpa == fills[j].gpa
                && layout.frag_buffer(i).len == fills[j].len by {
            if j < before.len() {
                assert(fills[j] == before[j]);
                let i = choose|i: int|
                    0 <= i < n - 1 && (#[trigger] layout.frag_buffer(i)).gpa == before[j].gpa
                        && layout.frag_buffer(i).len == before[j].len;
                assert(layout.frag_buffer(i).gpa == fills[j].gpa);
            } else {
                assert(layout.frag_buffer(n - 1).gpa == fills[j].gpa);
            }
        }
        if last.len > 0 {
            assert(fills.drop_last() =~= before);
        }
    }
}

// ---- Publication ----

/// Chains take descriptor slots in turn: behind the chain before, or from the
/// first slot on where the table has not enough left.
pub proof fn slots_are_taken_in_turn(next_desc: int, n: int)
    requires
        0 <= next_desc,
        0 <= n <= QUEUE_SIZE,
    ensures
        next_desc + n <= QUEUE_SIZE ==> chain_head(next_desc, n) == next_desc,
        next_desc + n > QUEUE_SIZE ==> chain_head(next_desc, n) == 0,
        0 <= chain_head(next_desc, n) <= QUEUE_SIZE - n,
{
}

/// What is published is the chain that was asked for: the header goes where the
/// head descriptor points, descriptor `i` describes buffer `i`, is in slot `i`
/// from the head on and is linked to the slot behind it, the head alone is
/// indirect if asked for, and the device is kicked if asked for.
pub proof fn submissions_are_what_was_asked_for(
    submission: Submission,
    layout: ChainLayout,
    next_desc: int,
)
    requires
        DATA_BASE <= layout.cursor,
        0 <= layout.budget,
        0 <= next_desc <= QUEUE_SIZE,
        submission.follows(layout, next_desc),
    ensures
        ({
            let buffers = layout.buffers();
            let d = submission.descriptors@;
            &&& submission.header@ == header_bytes(layout.spec.req)
            &&& submission.header_gpa == layout.sound_buffers()[0].gpa
            &&& !(layout.spec.bad_gpa && d.len() == 1) ==> d[0].gpa == submission.header_gpa
            &&& submission.fills@ == layout.fills(layout.frags())
            &&& submission.status == layout.status_fill()
            &&& submission.status is Some && !layout.spec.bad_gpa ==> submission.status->Some_0.gpa
                == d.last().gpa
            &&& submission.kick == layout.spec.kick
            &&& submission.head == chain_head(next_desc, buffers.len() as int)
            &&& d.len() == buffers.len()
            &&& forall|i: int|
                0 <= i < d.len() ==> {
                    &&& (#[trigger] d[i]).index == submission.head + i
                    &&& d[i].gpa == buffers[i].gpa
                    &&& d[i].len == buffers[i].len
                    &&& d[i].flags.write == buffers[i].writable
                    &&& d[i].flags.next == (i != d.len() - 1)
                    &&& d[i].flags.indirect == (i == 0 && layout.spec.indirect_flag)
                    &&& d[i].next == submission.head + i + 1
                }
        }),
{
    chains_are_short(layout);
    chains_are_packed(layout);
    bad_address_is_the_last_one(layout);
    fills_cover_the_payload(layout);
    super::laws::chains_stay_in_region(layout);
}

/// The descriptors of a chain describe its buffers one for one.
pub proof fn descriptors_describe_buffers(buffers: Seq<Buffer>, head: int, indirect: bool, i: int)
    requires
        0 <= head,
        head + buffers.len() <= QUEUE_SIZE,
        0 <= i < buffers.len(),
    ensures
        ({
            let d = chain_descriptors(buffers, head, indirect);
            &&& d.len() == buffers.len()
            &&& d[i].index == head + i
            &&& d[i].next == head + i + 1
            &&& d[i].gpa == buffers[i].gpa
            &&& d[i].len == buffers[i].len
            &&& d[i].flags.write == buffers[i].writable
            &&& d[i].flags.next == (i != buffers.len() - 1)
            &&& d[i].flags.indirect == (i == 0 && indirect)
        }),
{
}

/// A published chain moves the books on by what it took: its bytes of the
/// region, its payload of the budget, its slots of the table, one chain. Nothing
/// else moves.
pub proof fn publishing_is_charged<S>(harness: Harness<S>, spec: ChainSpec)
    requires
        harness.wf(),
        harness.chains_submitted < MAX_CHAINS,
    ensures
        ({
            let layout = harness.layout(spec);
            let after = harness.after_submit(spec);
            let n = layout.sound_buffers().len() as int;
            &&& layout.spec == spec
            &&& layout.cursor == harness.next_data
            &&& layout.budget == harness.payload_budget
            &&& after.payload_budget == harness.payload_budget - filled_bytes(
                layout.fills(layout.frags()),
            )
            &&& after.next_data == end_of(layout, n - 1)
            &&& after.next_desc == chain_head(harness.next_desc as int, n) + n
            &&& after.chains_submitted == harness.chains_submitted + 1
            &&& after == (Harness {
                payload_budget: after.payload_budget,
                next_data: after.next_data,
                next_desc: after.next_desc,
                chains_submitted: after.chains_submitted,
                ..harness
            })
        }),
{
    let layout = harness.layout(spec);
    chains_are_short(layout);
    chains_are_packed(layout);
    fills_cover_the_payload(layout);
    bad_address_is_the_last_one(layout);
    super::laws::chains_stay_in_region(layout);
    payload_is_bounded(spec, layout.budget);
}

} // verus!
