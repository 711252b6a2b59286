//! What one action or event does, told from what was asked for and the state
//! before it alone.

use vstd::prelude::*;

use super::action::{Action, Op};
use super::backend::{BackendOp, QueueShared, RxChecksumState};
use super::backend_laws::checksum_states_follow_the_remainder;
use super::data_alloc::{affordable_requests_are_granted, granted_bytes_stay_in_arena, DataAlloc};
use super::guest_queue::{GuestQueue, QueueView};
use super::harness::{
    announced_header_len, buf_len, buffer_descriptor, chain_bytes_are_few, chain_ops, header_room,
    Attach, Harness, HarnessView,
};
use super::laws::each_request_is_paid;
use super::layout::{
    DATA_BASE, MAX_BUF_LEN, MAX_PENDING_INJECT, MAX_RX_SEGMENTS, MAX_TX_COMPLETE_PER_ACTION,
    MAX_TX_DATA_SEGMENTS, MAX_TX_PACKETS_PER_AVAIL, NET_HEADER_BYTES, NET_HEADER_SIZE, QUEUE_SIZE,
    QUEUE_SLOTS, RX_AVAIL_ADDR, RX_DESC_ADDR, RX_USED_ADDR, TOTAL_MEM_SIZE, TX_AVAIL_ADDR,
    TX_DESC_ADDR, TX_USED_ADDR,
};
use super::slot_laws::reserving_takes_free_slots;
use crate::ring::{Descriptor, DescriptorFlags, RING_PACKED_BIT};

verus! {

/// The bounds fit together: the rings of both queues and the arena are apart,
/// every chain fits the table, and every chain fits the arena.
pub proof fn bounds_fit_together()
    ensures
        QUEUE_SIZE == QUEUE_SLOTS == 16,
        DATA_BASE == 0x20000 && TOTAL_MEM_SIZE == 0x40000,
        RX_DESC_ADDR + 16 * QUEUE_SIZE <= RX_AVAIL_ADDR,
        RX_AVAIL_ADDR + 6 + 2 * QUEUE_SIZE <= RX_USED_ADDR,
        RX_USED_ADDR + 6 + 8 * QUEUE_SIZE <= TX_DESC_ADDR,
        TX_DESC_ADDR + 16 * QUEUE_SIZE <= TX_AVAIL_ADDR,
        TX_AVAIL_ADDR + 6 + 2 * QUEUE_SIZE <= TX_USED_ADDR,
        TX_USED_ADDR + 6 + 8 * QUEUE_SIZE <= DATA_BASE,
        NET_HEADER_SIZE == NET_HEADER_BYTES == 12,
        MAX_RX_SEGMENTS == 2,
        MAX_TX_DATA_SEGMENTS == 4,
        MAX_BUF_LEN == 512,
        MAX_PENDING_INJECT == 64,
        MAX_TX_COMPLETE_PER_ACTION == 8,
        MAX_TX_PACKETS_PER_AVAIL == 8,
        DATA_BASE + NET_HEADER_SIZE + 4 + MAX_TX_DATA_SEGMENTS * MAX_BUF_LEN <= TOTAL_MEM_SIZE,
{
}

// ---- What fuzz numbers select ----

/// A fuzz number selects a buffer length from nothing to 512, going round that
/// range as often as it takes.
pub proof fn buffer_lengths_go_round(len: u16)
    ensures
        0 <= buf_len(len) <= 512,
        (len - buf_len(len)) % 513 == 0,
{
}

/// Three of eight fuzz bytes have the header announced wrongly, by nothing, half
/// or four bytes too many; the others have it announced exactly. There is always
/// room for the whole header and for what is announced, and no more.
pub proof fn headers_are_mostly_announced(header_len: u8)
    ensures
        header_len % 8 == 0 ==> announced_header_len(header_len) == 0,
        header_len % 8 == 1 ==> announced_header_len(header_len) == 6,
        header_len % 8 == 2 ==> announced_header_len(header_len) == 16,
        header_len % 8 >= 3 ==> announced_header_len(header_len) == 12,
        header_room(header_len) >= 12,
        header_room(header_len) >= announced_header_len(header_len),
        header_room(header_len) == 12 || header_room(header_len) == announced_header_len(
            header_len,
        ),
{
}

/// Fuzz bytes select numbers of buffers and of packets from one on, going round
/// their ranges as often as it takes.
pub proof fn counts_go_round(byte: u8)
    ensures
        1 <= HarnessView::rx_segments(byte) <= 2,
        (byte - (HarnessView::rx_segments(byte) - 1)) % 2 == 0,
        1 <= HarnessView::tx_segments(byte) <= 4,
        (byte - (HarnessView::tx_segments(byte) - 1)) % 4 == 0,
        1 <= HarnessView::packets_per_avail(byte) <= 8,
        (byte - (HarnessView::packets_per_avail(byte) - 1)) % 8 == 0,
{
}

// ---- Posted chains ----

/// A chain is posted exactly if the table has room for it and the budget pays for
/// all of it, and it goes where the table has room.
pub proof fn chains_that_fit_are_posted(
    harness: HarnessView,
    header_len: u8,
    segments: u8,
    len: u16,
)
    ensures
        ({
            let n = HarnessView::rx_segments(segments);
            harness.rx_head(segments, len) == (if n * buf_len(len) <= harness.data.budget {
                harness.rx.slot_for(n)
            } else {
                None
            })
        }),
        ({
            let n = HarnessView::tx_segments(segments);
            harness.tx_head(header_len, segments, len) == (if header_room(header_len) + n * buf_len(
                len,
            ) <= harness.data.budget {
                harness.tx.slot_for(n + 1)
            } else {
                None
            })
        }),
{
}

/// Where `len` bytes go in the arena behind bytes that ended at `end`.
pub open spec fn place_behind(end: int, len: int) -> int {
    if end + len <= TOTAL_MEM_SIZE {
        end
    } else {
        DATA_BASE as int
    }
}

/// Op `at + i` describes data buffer `i` of `n`, in slot `first + i`, of `len`
/// bytes, right behind the buffer before it, or behind `end` for the first one.
pub open spec fn describes_buffer(
    ops: Seq<Op>,
    at: int,
    rx: bool,
    first: int,
    n: int,
    len: int,
    end: int,
    i: int,
) -> bool {
    &&& ops[at + i] matches Op::WriteDescriptor { rx: queue, descriptor } && {
        &&& queue == rx
        &&& descriptor.index == first + i
        &&& descriptor.len == len
        &&& descriptor.flags.write == rx
        &&& !descriptor.flags.indirect
        &&& descriptor.flags.next == (i != n - 1)
        &&& i != n - 1 ==> descriptor.next == first + i + 1
        &&& i == n - 1 ==> descriptor.next == 0
        &&& descriptor.gpa == place_behind(
            if i == 0 {
                end
            } else {
                ops[at + i - 1]->descriptor.gpa + len
            },
            len,
        )
    }
}

/// The data buffers of a chain are described in order, the chain is published
/// and the queue is kicked, and the allocator stands behind the last buffer.
proof fn chains_are_laid_out(
    ops: Seq<Op>,
    at: int,
    rx: bool,
    data: DataAlloc,
    head: int,
    first: int,
    n: int,
    len: int,
)
    requires
        data.wf(),
        0 <= at,
        0 <= head,
        0 <= first,
        1 <= n,
        head < QUEUE_SLOTS,
        first + n <= QUEUE_SLOTS,
        0 <= len <= MAX_BUF_LEN,
        data.affords(n * len),
        ops.len() == at + n + 2,
        ops.skip(at) == chain_ops(rx, data, head, first, n, len),
    ensures
        forall|i: int|
            0 <= i < n ==> #[trigger] describes_buffer(
                ops,
                at,
                rx,
                first,
                n,
                len,
                data.next as int,
                i,
            ),
        ops[at + n] == (Op::MakeAvailable { rx, head: head as u16 }),
        ops[at + n + 1] == (Op::Kick { rx }),
        data.after_each(len, n).next == ops[at + n - 1]->descriptor.gpa + len,
        data.after_each(len, n).budget == data.budget - n * len,
{
    let chain = chain_ops(rx, data, head, first, n, len);
    assert(ops[at + n] == chain[n] && ops[at + n + 1] == chain[n + 1]);
    affordable_requests_are_granted(data, len, n);
    assert forall|i: int| 0 <= i < n implies #[trigger] describes_buffer(
        ops,
        at,
        rx,
        first,
        n,
        len,
        data.next as int,
        i,
    ) by {
        buffer_is_described(ops, at, rx, data, head, first, n, len, i);
        if i > 0 {
            buffer_is_described(ops, at, rx, data, head, first, n, len, i - 1);
        }
    }
    buffer_is_described(ops, at, rx, data, head, first, n, len, n - 1);
}

proof fn buffer_is_described(
    ops: Seq<Op>,
    at: int,
    rx: bool,
    data: DataAlloc,
    head: int,
    first: int,
    n: int,
    len: int,
    i: int,
)
    requires
        data.wf(),
        0 <= at,
        0 <= first,
        first + n <= QUEUE_SLOTS,
        0 <= len <= MAX_BUF_LEN,
        data.affords(n * len),
        0 <= i < n,
        ops.len() == at + n + 2,
        ops.skip(at) == chain_ops(rx, data, head, first, n, len),
    ensures
        ops[at + i] == (Op::WriteDescriptor {
            rx,
            descriptor: buffer_descriptor(data, first, n, len, rx, i),
        }),
        ops[at + i]->descriptor.gpa == place_behind(data.after_each(len, i).next as int, len),
        data.after_each(len, i + 1).next == ops[at + i]->descriptor.gpa + len,
{
    let chain = chain_ops(rx, data, head, first, n, len);
    assert(ops[at + i] == ops.skip(at)[i]);
    each_request_is_paid(data, len, n, i);
    granted_bytes_stay_in_arena(data.after_each(len, i), len);
    assert(data.after_each(len, i + 1) == data.after_each(len, i).after(len));
}

/// A receive chain is posted as it was asked for: as many writable buffers as
/// selected, of the length selected, in the slots reserved for it, then its
/// publication and a kick. It takes the slots and the bytes, and nothing else.
pub proof fn receive_chains_are_what_was_asked_for(harness: HarnessView, segments: u8, len: u16)
    requires
        harness.wf(),
        harness.rx_head(segments, len) is Some,
    ensures
        ({
            let action = Action::PostRx { segments, len };
            let n = HarnessView::rx_segments(segments);
            let head = harness.rx.slot_for(n)->Some_0;
            let ops = harness.action_ops(action);
            let after = harness.after_action(action);
            &&& ops.len() == n + 2
            &&& forall|i: int|
                0 <= i < n ==> #[trigger] describes_buffer(
                    ops,
                    0,
                    true,
                    head,
                    n,
                    buf_len(len),
                    harness.data.next as int,
                    i,
                )
            &&& ops[n] == (Op::MakeAvailable { rx: true, head: head as u16 })
            &&& ops[n + 1] == (Op::Kick { rx: true })
            &&& after.rx == harness.rx.after_alloc(n)
            &&& after.data.next == ops[n - 1]->descriptor.gpa + buf_len(len)
            &&& after.data.budget == harness.data.budget - n * buf_len(len)
            &&& after == (HarnessView { rx: after.rx, data: after.data, ..harness })
        }),
{
    let n = HarnessView::rx_segments(segments);
    let head = harness.rx.slot_for(n)->Some_0;
    let ops = harness.post_rx_ops(segments, len);
    reserving_takes_free_slots(harness.rx, n);
    assert(ops.skip(0) =~= chain_ops(true, harness.data, head, head, n, buf_len(len)));
    chains_are_laid_out(ops, 0, true, harness.data, head, head, n, buf_len(len));
}

/// A transmit chain is posted as it was asked for: the header bytes are written
/// where the head descriptor points, which announces the length selected; then
/// come as many readable buffers as selected, of the length selected, right
/// behind the room for the header; then its publication and a kick. It takes the
/// slots and the bytes, and nothing else.
pub proof fn transmit_chains_are_what_was_asked_for(
    harness: HarnessView,
    header: [u8; NET_HEADER_BYTES],
    header_len: u8,
    segments: u8,
    len: u16,
)
    requires
        harness.wf(),
        harness.tx_head(header_len, segments, len) is Some,
    ensures
        ({
            let action = Action::PostTx { header, header_len, segments, len };
            let n = HarnessView::tx_segments(segments);
            let room = header_room(header_len);
            let head = harness.tx.slot_for(n + 1)->Some_0;
            let gpa = place_behind(harness.data.next as int, room);
            let ops = harness.action_ops(action);
            let after = harness.after_action(action);
            &&& ops.len() == n + 4
            &&& ops[0] == (Op::WriteHeader { gpa: gpa as u64, header })
            &&& DATA_BASE <= gpa <= TOTAL_MEM_SIZE - room
            &&& ops[1] == (Op::WriteDescriptor {
                rx: false,
                descriptor: Descriptor {
                    index: head as u16,
                    gpa: gpa as u64,
                    len: announced_header_len(header_len) as u32,
                    flags: DescriptorFlags { next: true, write: false, indirect: false },
                    next: (head + 1) as u16,
                },
            })
            &&& forall|i: int|
                0 <= i < n ==> #[trigger] describes_buffer(
                    ops,
                    2,
                    false,
                    head + 1,
                    n,
                    buf_len(len),
                    gpa + room,
                    i,
                )
            &&& ops[n + 2] == (Op::MakeAvailable { rx: false, head: head as u16 })
            &&& ops[n + 3] == (Op::Kick { rx: false })
            &&& after.tx == harness.tx.after_alloc(n + 1)
            &&& after.data.next == ops[n + 1]->descriptor.gpa + buf_len(len)
            &&& after.data.budget == harness.data.budget - room - n * buf_len(len)
            &&& after == (HarnessView { tx: after.tx, data: after.data, ..harness })
        }),
{
    let n = HarnessView::tx_segments(segments);
    let room = header_room(header_len);
    let head = harness.tx.slot_for(n + 1)->Some_0;
    let ops = harness.post_tx_ops(header, header_len, segments, len);
    let data = harness.data.after(room);
    reserving_takes_free_slots(harness.tx, n + 1);
    chain_bytes_are_few(n, buf_len(len));
    granted_bytes_stay_in_arena(harness.data, room);
    assert(ops.skip(2) =~= chain_ops(false, data, head, head + 1, n, buf_len(len)));
    chains_are_laid_out(ops, 2, false, data, head, head + 1, n, buf_len(len));
}

/// In every transmit chain that is posted, the header bytes go into the buffer
/// that the published head describes.
pub proof fn headers_land_where_the_head_points(harness: HarnessView, action: Action)
    requires
        harness.wf(),
        harness.action_ops(action).len() > 0,
    ensures
        action matches Action::PostTx { header, .. } ==> {
            let ops = harness.action_ops(action);
            let published = ops[ops.len() - 2];
            &&& ops[0] is WriteHeader && ops[0]->header == header
            &&& ops[1] is WriteDescriptor && !ops[1]->WriteDescriptor_rx
            &&& published is MakeAvailable && !published->MakeAvailable_rx
            &&& ops[1]->descriptor.index == published->head
            &&& ops[1]->descriptor.gpa == ops[0]->gpa
        },
{
    if let Action::PostTx { header, header_len, segments, len } = action {
        transmit_chains_are_what_was_asked_for(harness, header, header_len, segments, len);
    }
}

// ---- Queue lifecycle ----

/// A start of stopped queues initializes the rings, starts the receive queue and
/// then the transmit queue with the same features, and asks for the handle, up to
/// 32 times. The features are exactly the bits that are asked for and allowed:
/// any set of such bits is among them, and no other bit.
pub proof fn starts_bring_both_queues_up(harness: HarnessView, features: u64, bits: u64)
    ensures
        ({
            let ops = harness.start_ops(features);
            let after = harness.after_start();
            &&& harness.enabled ==> ops.len() == 0 && after == harness
            &&& !harness.enabled ==> {
                &&& ops.len() == 4
                &&& ops[0] == Op::InitRings
                &&& ops[3] == Op::Attach
                &&& ops[1] matches Op::StartQueue { index, features: accepted }
                &&& index == 0
                &&& accepted & !features == 0
                &&& accepted & !harness.allowed_features == 0
                &&& bits & features == bits && bits & harness.allowed_features == bits ==> bits
                    & accepted == bits
                &&& ops[2] == (Op::StartQueue { index: 1, features: accepted })
                &&& after.enabled
                &&& after.tries_left == 32
                &&& after.rx == harness.rx.after_reset()
                &&& after.tx == harness.tx.after_reset()
                &&& after == (HarnessView {
                    rx: after.rx,
                    tx: after.tx,
                    enabled: true,
                    tries_left: after.tries_left,
                    ..harness
                })
            }
        }),
{
    let allowed = harness.allowed_features;
    assert((features & allowed) & !features == 0 && (features & allowed) & !allowed == 0 && (bits
        & features == bits && bits & allowed == bits ==> bits & (features & allowed) == bits))
        by (bit_vector);
}

/// A stop of running queues takes the transmit queue down and then the receive
/// queue, and lets go of the handle; a reset resets the device behind that.
pub proof fn stops_take_both_queues_down(harness: HarnessView)
    ensures
        ({
            let ops = harness.stop_ops();
            let after = harness.after_stop();
            &&& !harness.enabled ==> ops.len() == 0
            &&& harness.enabled ==> {
                &&& ops.len() == 3
                &&& ops[0] == (Op::StopQueue { index: 1 })
                &&& ops[1] == (Op::StopQueue { index: 0 })
                &&& ops[2] == Op::Detach
            }
            &&& harness.reset_ops().len() == ops.len() + 1
            &&& harness.reset_ops().last() == Op::ResetDevice
            &&& harness.reset_ops().drop_last() == ops
            &&& !after.enabled && !after.attached && after.tries_left == 0
            &&& after == (HarnessView { enabled: false, attached: false, tries_left: 0, ..harness })
        }),
{
    assert(harness.reset_ops().drop_last() =~= harness.stop_ops());
}

/// A rebuild leaves both queues idle where they were, and everything else as it
/// was.
pub proof fn rebuilds_touch_the_queues_only(harness: HarnessView)
    ensures
        harness.after_rebuild() == (HarnessView {
            rx: harness.rx.after_reset(),
            tx: harness.tx.after_reset(),
            ..harness
        }),
{
}

/// The lifecycle actions do what their names say. A restart is a reset, a
/// rebuild with the whole budget back, and a start; a rebuild under running
/// queues does nothing.
pub proof fn lifecycle_actions_do_what_they_say(harness: HarnessView, features: u64)
    ensures
        harness.action_ops(Action::Stop) == harness.stop_ops(),
        harness.after_action(Action::Stop) == harness.after_stop(),
        harness.action_ops(Action::Reset) == harness.reset_ops(),
        harness.after_action(Action::Reset) == harness.after_stop(),
        harness.action_ops(Action::Start { features }) == harness.start_ops(features),
        harness.after_action(Action::Start { features }) == harness.after_start(),
        harness.enabled ==> harness.action_ops(Action::RebuildRings).len() == 0
            && harness.after_action(Action::RebuildRings) == harness,
        !harness.enabled ==> harness.action_ops(Action::RebuildRings) == seq![Op::InitRings]
            && harness.after_action(Action::RebuildRings) == harness.after_rebuild(),
        harness.action_ops(Action::Restart { features }) == harness.reset_ops() + seq![
            Op::InitRings,
        ] + harness.after_stop().start_ops(features),
        harness.after_action(Action::Restart { features }) == (HarnessView {
            rx: harness.rx.after_reset(),
            tx: harness.tx.after_reset(),
            data: DataAlloc::fresh(),
            enabled: true,
            attached: false,
            tries_left: 32,
            ..harness
        }),
{
}

/// One in eight keys arms the failure: the backend is told if its handle is held,
/// the device's tasks get four runs, and then the device is reset and started
/// again. The other keys do nothing.
pub proof fn one_failure_in_eight_is_armed(harness: HarnessView, fatal: bool, key: u8, features: u64)
    ensures
        ({
            let action = Action::FailTxPoll { fatal, key, features };
            let ops = harness.action_ops(action);
            let told = if harness.attached {
                1int
            } else {
                0
            };
            &&& key % 8 != 0 ==> ops.len() == 0 && harness.after_action(action) == harness
            &&& key % 8 == 0 ==> {
                &&& harness.attached ==> ops[0] == Op::Backend(BackendOp::FailTxPoll { fatal })
                &&& ops[told] == (Op::Yield { count: 4 })
                &&& ops.skip(told + 1) == harness.reset_ops() + harness.after_stop().start_ops(
                    features,
                )
                &&& harness.after_action(action) == (HarnessView {
                    rx: harness.rx.after_reset(),
                    tx: harness.tx.after_reset(),
                    enabled: true,
                    attached: false,
                    tries_left: 32,
                    ..harness
                })
            }
        }),
{
    let action = Action::FailTxPoll { fatal, key, features };
    let ops = harness.action_ops(action);
    if key % 8 == 0 {
        let told = if harness.attached {
            1int
        } else {
            0
        };
        assert(ops.skip(told + 1) =~= harness.reset_ops() + harness.after_stop().start_ops(
            features,
        ));
    }
}

// ---- Small actions ----

/// A request reaches the backend as it is while its handle is held, and is
/// dropped otherwise.
pub proof fn requests_need_the_handle(harness: HarnessView, op: BackendOp)
    ensures
        harness.attached ==> harness.backend_ops(op) == seq![Op::Backend(op)],
        !harness.attached ==> harness.backend_ops(op).len() == 0,
{
}

/// An injected packet has the length asked for and the checksum states that the
/// fuzz bytes select, and is in two pieces if asked for. Without the handle none
/// is injected. The books stay as they are.
pub proof fn injected_packets_are_what_was_asked_for(
    harness: HarnessView,
    len: u16,
    ip: u8,
    l4: u8,
    segmented: bool,
)
    ensures
        ({
            let action = Action::InjectRx { len, ip, l4, segmented };
            let ops = harness.action_ops(action);
            &&& ops.len() == (if harness.attached {
                1int
            } else {
                0
            })
            &&& harness.attached ==> {
                &&& ops[0] matches Op::Backend(BackendOp::Inject(inject))
                &&& inject.len == len
                &&& inject.segmented == segmented
                &&& inject.ip_checksum == RxChecksumState::Unknown <==> ip % 4 == 0
                &&& inject.ip_checksum == RxChecksumState::Good <==> ip % 4 == 1
                &&& inject.ip_checksum == RxChecksumState::Bad <==> ip % 4 == 2
                &&& inject.l4_checksum == RxChecksumState::Unknown <==> l4 % 4 == 0
                &&& inject.l4_checksum == RxChecksumState::Good <==> l4 % 4 == 1
                &&& inject.l4_checksum == RxChecksumState::Bad <==> l4 % 4 == 2
            }
            &&& harness.after_action(action) == harness
        }),
{
    checksum_states_follow_the_remainder(ip);
    checksum_states_follow_the_remainder(l4);
}

/// The small actions take one op each, and leave the books as they are. A yield
/// lets the tasks run one to eight times, a drain reads 64 entries at most, and a
/// release is handed on as it is. Without the handle nothing is asked of the
/// backend.
pub proof fn small_actions_take_one_op(harness: HarnessView, rx: bool, count: u8)
    ensures
        harness.action_ops(Action::Kick { rx }) == seq![Op::Kick { rx }],
        harness.after_action(Action::Kick { rx }) == harness,
        harness.action_ops(Action::DrainUsed { rx }) == seq![Op::DrainUsed { rx, limit: 64 }],
        harness.after_action(Action::DrainUsed { rx }) == harness,
        ({
            let ops = harness.action_ops(Action::Yield { count });
            &&& ops.len() == 1
            &&& ops[0] matches Op::Yield { count: runs } && 1 <= runs <= 8 && (count - (runs - 1))
                % 8 == 0
        }),
        harness.after_action(Action::Yield { count }) == harness,
        harness.attached ==> harness.action_ops(Action::CompleteTx { count }) == seq![
            Op::Backend(BackendOp::CompleteTx { count }),
        ],
        !harness.attached ==> harness.action_ops(Action::CompleteTx { count }).len() == 0,
        harness.after_action(Action::CompleteTx { count }) == harness,
{
}

/// A mode change sets the mode in the books, handle or not, and hands the same
/// mode to the backend if its handle is held.
pub proof fn mode_changes_are_kept_and_handed_on(harness: HarnessView, sync: bool, max_packets: u8)
    ensures
        ({
            let action = Action::SetTxMode { sync, max_packets };
            let ops = harness.action_ops(action);
            let after = harness.after_action(action);
            &&& after.tx_sync == sync
            &&& 1 <= after.tx_max_packets <= 8
            &&& (max_packets - (after.tx_max_packets - 1)) % 8 == 0
            &&& after == (HarnessView {
                tx_sync: sync,
                tx_max_packets: after.tx_max_packets,
                ..harness
            })
            &&& !harness.attached ==> ops.len() == 0
            &&& harness.attached ==> ops == seq![
                Op::Backend(
                    BackendOp::SetTxMode { sync, max_packets: after.tx_max_packets },
                ),
            ]
        }),
{
}

// ---- Events ----

/// A yield costs one of the budget as long as there is one left, and touches
/// nothing else.
pub proof fn yields_cost_one_each(harness: HarnessView)
    ensures
        harness.yields_left > 0 ==> harness.after_yield().yields_left == harness.yields_left - 1,
        harness.yields_left == 0 ==> harness.after_yield() == harness,
        harness.after_yield() == (HarnessView {
            yields_left: harness.after_yield().yields_left,
            ..harness
        }),
{
}

/// A handle that arrives while it is still asked for is taken, with the mode in
/// the books, and not asked for any more. One that does not costs a try and a
/// yield, or ends the asking if no yield is left. Without tries nothing happens.
pub proof fn handles_are_taken_while_asked_for(harness: HarnessView, arrived: bool)
    ensures
        ({
            let next = harness.attach_outcome(arrived);
            let after = harness.after_attach(arrived);
            &&& harness.tries_left == 0 ==> next == Attach::GiveUp && after == harness
            &&& harness.tries_left > 0 && arrived ==> {
                &&& next == (Attach::Connect {
                    tx_sync: harness.tx_sync,
                    tx_max_packets: harness.tx_max_packets,
                })
                &&& after == (HarnessView { attached: true, tries_left: 0, ..harness })
            }
            &&& harness.tries_left > 0 && !arrived && harness.yields_left > 0 ==> {
                &&& next == Attach::Yield
                &&& after.tries_left == harness.tries_left - 1
                &&& after.yields_left == harness.yields_left - 1
                &&& after == (HarnessView {
                    tries_left: after.tries_left,
                    yields_left: after.yields_left,
                    ..harness
                })
            }
            &&& harness.tries_left > 0 && !arrived && harness.yields_left == 0 ==> {
                &&& next == Attach::GiveUp
                &&& after == (HarnessView { tries_left: 0, ..harness })
            }
        }),
{
}

/// A drain releases chains of the queue that was read, and touches nothing else.
pub proof fn drains_touch_one_queue(harness: HarnessView, heads: Seq<u16>)
    ensures
        harness.after_drain(true, heads) == (HarnessView {
            rx: harness.rx.after_drain(heads),
            ..harness
        }),
        harness.after_drain(false, heads) == (HarnessView {
            tx: harness.tx.after_drain(heads),
            ..harness
        }),
{
}

/// Every action that is due is counted once, and nothing else moves.
pub proof fn due_actions_are_counted(harness: HarnessView)
    requires
        harness.actions_left > 0,
    ensures
        harness.after_action_due().actions_left == harness.actions_left - 1,
        harness.after_action_due() == (HarnessView {
            actions_left: harness.after_action_due().actions_left,
            ..harness
        }),
{
}

/// A fresh run is stopped and has everything before it: both queues idle at
/// their addresses, the whole arena, all yields and actions. It may take every
/// feature that the device offers but the packed ring, and no other.
pub proof fn fresh_runs_have_everything_before_them(device_features: u64, bits: u64)
    ensures
        ({
            let fresh = HarnessView::fresh(device_features);
            &&& fresh.rx == QueueView::idle(0, 0x1000, 0x2000)
            &&& fresh.tx == QueueView::idle(0x10000, 0x11000, 0x12000)
            &&& fresh.data == DataAlloc::fresh()
            &&& !fresh.enabled && !fresh.attached && fresh.tries_left == 0
            &&& fresh.yields_left == 512
            &&& fresh.actions_left == 256
            &&& fresh.tx_sync && fresh.tx_max_packets == usize::MAX
            &&& fresh.allowed_features & !device_features == 0
            &&& fresh.allowed_features & RING_PACKED_BIT == 0
            &&& bits & device_features == bits && bits & RING_PACKED_BIT == 0 ==> bits
                & fresh.allowed_features == bits
        }),
{
    assert((device_features & !0x4_0000_0000u64) & !device_features == 0 && (device_features
        & !0x4_0000_0000u64) & 0x4_0000_0000u64 == 0 && (bits & device_features == bits && bits
        & 0x4_0000_0000u64 == 0 ==> bits & (device_features & !0x4_0000_0000u64) == bits))
        by (bit_vector);
}

// ---- Views ----

/// The contents of a queue, of a backend queue and of the books are all of their
/// fields.
pub proof fn views_show_every_field<W>(
    queue: GuestQueue,
    shared: QueueShared<W>,
    harness: Harness,
)
    ensures
        queue@.desc_addr == queue.desc_addr,
        queue@.avail_addr == queue.avail_addr,
        queue@.used_addr == queue.used_addr,
        queue@.avail_idx == queue.avail_idx,
        queue@.used_idx == queue.used_idx,
        queue@.busy == queue.busy@,
        queue@.chain_len == queue.chain_len@,
        shared@.rx_pending == shared.rx_pending@,
        shared@.rx_inject == shared.rx_inject@,
        shared@.tx_inflight == shared.tx_inflight@,
        shared@.tx_done == shared.tx_done@,
        shared@.tx_sync == shared.tx_sync,
        shared@.tx_max_packets == shared.tx_max_packets,
        shared@.tx_poll_error == shared.tx_poll_error,
        shared@.waker == shared.waker,
        harness@.rx == harness.rx@,
        harness@.tx == harness.tx@,
        harness@.data == harness.data,
        harness@.allowed_features == harness.allowed_features,
        harness@.enabled == harness.enabled,
        harness@.attached == harness.attached,
        harness@.tries_left == harness.tries_left,
        harness@.yields_left == harness.yields_left,
        harness@.actions_left == harness.actions_left,
        harness@.tx_sync == harness.tx_sync,
        harness@.tx_max_packets == harness.tx_max_packets,
{
}

} // verus!
