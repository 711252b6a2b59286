//! What holds of every virtio-net fuzz run.

use vstd::prelude::*;

use super::action::{Action, Op};
use super::backend::{BackendOp, SharedView};
use super::data_alloc::{
    affordable_requests_are_granted, granted_bytes_stay_in_arena, DataAlloc,
};
use super::guest_queue::QueueView;
use super::harness::{
    announced_header_len, buf_len, buffer_descriptor, chain_bytes_are_few, chain_ops, header_room,
    Attach, HarnessView,
};
use super::layout::{
    DATA_BASE, FAIL_TX_POLL_YIELDS, HANDLE_YIELD_BUDGET, MAX_BUF_LEN, MAX_TOTAL_BYTES,
    MAX_TX_DATA_SEGMENTS, MAX_YIELDS_PER_ACTION, NET_HEADER_SIZE, QUEUE_SIZE, QUEUE_SLOTS,
    TOTAL_MEM_SIZE,
};
use super::slot_laws::{
    chains_completed, chains_in_flight, draining_counts_completions, draining_keeps_accounts_sound,
    idle_queue_has_no_chains, idle_queue_is_well_formed, reserving_never_overruns_the_ring,
    reserving_takes_free_slots,
};
use crate::ring::RING_PACKED_BIT;

verus! {

// ---- Ops ----

/// An op stays in bounds: what it writes lies in the buffer arena and in the
/// descriptor table, what it starts or stops exists, only features that the
/// device offers are negotiated, never the packed ring, and the backend is
/// never told to consume nothing.
pub open spec fn op_in_bounds(op: Op, allowed_features: u64) -> bool {
    match op {
        Op::WriteHeader { gpa, .. } => DATA_BASE <= gpa && gpa + NET_HEADER_SIZE <= TOTAL_MEM_SIZE,
        Op::WriteDescriptor { descriptor, .. } => {
            &&& descriptor.index < QUEUE_SLOTS
            &&& DATA_BASE <= descriptor.gpa
            &&& descriptor.gpa + descriptor.len <= TOTAL_MEM_SIZE
        },
        Op::MakeAvailable { head, .. } => head < QUEUE_SLOTS,
        Op::Backend(BackendOp::SetTxMode { max_packets, .. }) => max_packets >= 1,
        Op::Yield { count } => 1 <= count <= MAX_YIELDS_PER_ACTION,
        Op::StartQueue { index, features } => {
            &&& index <= 1
            &&& features & !allowed_features == 0
            &&& features & RING_PACKED_BIT == 0
        },
        Op::StopQueue { index } => index <= 1,
        _ => true,
    }
}

/// Where the budget pays for `n` equal requests, request `i` finds it large
/// enough.
pub proof fn each_request_is_paid(data: DataAlloc, len: int, n: int, i: int)
    requires
        data.wf(),
        0 <= len,
        0 <= i < n,
        data.affords(n * len),
    ensures
        data.after_each(len, i).wf(),
        data.after_each(len, i).affords(len),
{
    assert(i * len <= (i + 1) * len <= n * len) by (nonlinear_arith)
        requires
            0 <= len,
            i + 1 <= n,
    ;
    affordable_requests_are_granted(data, len, i);
    affordable_requests_are_granted(data, len, i + 1);
}

/// The writes of a chain stay in bounds.
proof fn chain_stays_in_bounds(
    rx: bool,
    data: DataAlloc,
    head: int,
    first: int,
    n: int,
    len: int,
    allowed_features: u64,
    k: int,
)
    requires
        data.wf(),
        0 <= head < QUEUE_SLOTS,
        0 <= first,
        0 <= n,
        first + n <= QUEUE_SLOTS,
        0 <= len <= TOTAL_MEM_SIZE - DATA_BASE,
        data.affords(n * len),
        0 <= k < chain_ops(rx, data, head, first, n, len).len(),
    ensures
        op_in_bounds(chain_ops(rx, data, head, first, n, len)[k], allowed_features),
{
    if k < n {
        each_request_is_paid(data, len, n, k);
        granted_bytes_stay_in_arena(data.after_each(len, k), len);
        assert(chain_ops(rx, data, head, first, n, len)[k] == Op::WriteDescriptor {
            rx,
            descriptor: buffer_descriptor(data, first, n, len, rx, k),
        });
    }
}

proof fn posting_stays_in_bounds(harness: HarnessView, action: Action, k: int)
    requires
        harness.wf(),
        action is PostRx || action is PostTx,
        0 <= k < harness.action_ops(action).len(),
    ensures
        op_in_bounds(harness.action_ops(action)[k], harness.allowed_features),
{
    let allowed = harness.allowed_features;
    match action {
        Action::PostRx { segments, len } => {
            let n = HarnessView::rx_segments(segments);
            reserving_takes_free_slots(harness.rx, n);
            let head = harness.rx_head(segments, len)->Some_0;
            chain_stays_in_bounds(true, harness.data, head, head, n, buf_len(len), allowed, k);
        },
        Action::PostTx { header, header_len, segments, len } => {
            let n = HarnessView::tx_segments(segments);
            let room = header_room(header_len);
            reserving_takes_free_slots(harness.tx, n + 1);
            chain_bytes_are_few(n, buf_len(len));
            let head = harness.tx_head(header_len, segments, len)->Some_0;
            granted_bytes_stay_in_arena(harness.data, room);
            if k >= 2 {
                let data = harness.data.after(room);
                chain_stays_in_bounds(
                    false,
                    data,
                    head,
                    head + 1,
                    n,
                    buf_len(len),
                    allowed,
                    k - 2,
                );
            }
        },
        _ => {},
    }
}

/// Every op of every action stays in bounds.
pub proof fn every_op_stays_in_bounds(harness: HarnessView, action: Action, k: int)
    requires
        harness.wf(),
        0 <= k < harness.action_ops(action).len(),
    ensures
        op_in_bounds(harness.action_ops(action)[k], harness.allowed_features),
{
    let allowed = harness.allowed_features;
    match action {
        Action::PostRx { .. } | Action::PostTx { .. } => posting_stays_in_bounds(
            harness,
            action,
            k,
        ),
        Action::FailTxPoll { features, .. } | Action::Start { features } | Action::Restart {
            features,
        } => {
            assert((features & allowed) & !allowed == 0 && (features & allowed) & 0x4_0000_0000u64
                == 0) by (bit_vector)
                requires
                    allowed & 0x4_0000_0000u64 == 0,
            ;
        },
        _ => {},
    }
}

/// The queue that an op speaks of.
pub open spec fn queue_of(harness: HarnessView, rx: bool) -> QueueView {
    if rx {
        harness.rx
    } else {
        harness.tx
    }
}

/// A descriptor that the device may still own is never rewritten: an action
/// writes only slots that no chain in flight owned before it, and that are busy
/// after it.
pub proof fn descriptors_in_flight_are_left_alone(harness: HarnessView, action: Action, k: int)
    requires
        harness.wf(),
        0 <= k < harness.action_ops(action).len(),
        harness.action_ops(action)[k] is WriteDescriptor,
    ensures
        ({
            let op = harness.action_ops(action)[k];
            let queue = queue_of(harness, op->WriteDescriptor_rx);
            let after = queue_of(harness.after_action(action), op->WriteDescriptor_rx);
            let index = op->descriptor.index as int;
            &&& forall|head: int| !#[trigger] queue.owns(head, index)
            &&& after.busy[index]
        }),
{
    let ops = harness.action_ops(action);
    let index = ops[k]->descriptor.index as int;
    match action {
        Action::PostRx { segments, len } => {
            let n = HarnessView::rx_segments(segments);
            reserving_takes_free_slots(harness.rx, n);
            let head = harness.rx_head(segments, len)->Some_0;
            assert(ops[k]->WriteDescriptor_rx);
            assert(index == head + k);
            assert(!harness.rx.busy[index]);
        },
        Action::PostTx { header, header_len, segments, len } => {
            let n = HarnessView::tx_segments(segments);
            reserving_takes_free_slots(harness.tx, n + 1);
            let head = harness.tx_head(header_len, segments, len)->Some_0;
            assert(index == head + k - 1);
        },
        _ => only_posting_writes(harness, action, k),
    }
}

/// Descriptor `j` of a chain of `n` that starts at `head`: it leads on to the
/// next slot, or ends the chain, and the device writes it exactly in the
/// receive queue.
pub open spec fn links_on(op: Op, rx: bool, head: int, n: int, j: int) -> bool {
    &&& op matches Op::WriteDescriptor { rx: queue, descriptor } && {
        &&& queue == rx
        &&& descriptor.index == head + j
        &&& descriptor.flags.next == (j != n - 1)
        &&& descriptor.next == (if j != n - 1 {
            head + j + 1
        } else {
            0
        })
        &&& descriptor.flags.write == rx
        &&& !descriptor.flags.indirect
    }
}

/// Op `k` publishes a chain that is complete: just before it, every slot
/// reserved for the chain was written, in order, each linked to the next.
pub open spec fn publishes_complete_chain(harness: HarnessView, action: Action, k: int) -> bool {
    let ops = harness.action_ops(action);
    let rx = ops[k]->MakeAvailable_rx;
    let head = ops[k]->head as int;
    let n = queue_of(harness.after_action(action), rx).chain_len[head] as int;
    &&& 1 <= n <= k
    &&& forall|j: int| 0 <= j < n ==> links_on(#[trigger] ops[k - n + j], rx, head, n, j)
}

proof fn rx_chains_are_complete(harness: HarnessView, segments: u8, len: u16, k: int)
    requires
        harness.wf(),
        0 <= k < harness.post_rx_ops(segments, len).len(),
        harness.post_rx_ops(segments, len)[k] is MakeAvailable,
    ensures
        publishes_complete_chain(harness, Action::PostRx { segments, len }, k),
{
    let ops = harness.post_rx_ops(segments, len);
    let n = HarnessView::rx_segments(segments);
    reserving_takes_free_slots(harness.rx, n);
    let head = harness.rx_head(segments, len)->Some_0;
    assert(k == n);
    assert forall|j: int| 0 <= j < n implies links_on(#[trigger] ops[k - n + j], true, head, n, j) by {
        assert(ops[j] == Op::WriteDescriptor {
            rx: true,
            descriptor: buffer_descriptor(harness.data, head, n, buf_len(len), true, j),
        });
    }
}

proof fn tx_chains_are_complete(harness: HarnessView, action: Action, k: int)
    requires
        harness.wf(),
        action is PostTx,
        0 <= k < harness.action_ops(action).len(),
        harness.action_ops(action)[k] is MakeAvailable,
    ensures
        publishes_complete_chain(harness, action, k),
{
    if let Action::PostTx { header, header_len, segments, len } = action {
        let ops = harness.post_tx_ops(header, header_len, segments, len);
        let n = HarnessView::tx_segments(segments);
        let room = header_room(header_len);
        let data = harness.data.after(room);
        reserving_takes_free_slots(harness.tx, n + 1);
        let head = harness.tx_head(header_len, segments, len)->Some_0;
        let chain = chain_ops(false, data, head, head + 1, n, buf_len(len));
        assert(k >= 2 && ops[k] == chain[k - 2]);
        assert(k == n + 2);
        assert forall|j: int| 0 <= j < n + 1 implies links_on(
            #[trigger] ops[k - (n + 1) + j],
            false,
            head,
            n + 1,
            j,
        ) by {
            if j > 0 {
                assert(ops[j + 1] == chain[j - 1]);
                assert(chain[j - 1] == Op::WriteDescriptor {
                    rx: false,
                    descriptor: buffer_descriptor(data, head + 1, n, buf_len(len), false, j - 1),
                });
            }
        }
    }
}

/// Chains are published only once they are complete.
pub proof fn published_chains_are_complete(harness: HarnessView, action: Action, k: int)
    requires
        harness.wf(),
        0 <= k < harness.action_ops(action).len(),
        harness.action_ops(action)[k] is MakeAvailable,
    ensures
        publishes_complete_chain(harness, action, k),
{
    match action {
        Action::PostRx { segments, len } => rx_chains_are_complete(harness, segments, len, k),
        Action::PostTx { .. } => tx_chains_are_complete(harness, action, k),
        _ => only_posting_writes(harness, action, k),
    }
}

proof fn only_posting_writes(harness: HarnessView, action: Action, k: int)
    requires
        !(action is PostRx),
        !(action is PostTx),
        0 <= k < harness.action_ops(action).len(),
    ensures
        ({
            let op = harness.action_ops(action)[k];
            !(op is WriteHeader) && !(op is WriteDescriptor) && !(op is MakeAvailable)
        }),
{
    let ops = harness.action_ops(action);
    let stops = harness.reset_ops();
    match action {
        Action::FailTxPoll { fatal, key, features } => {
            let request = harness.backend_ops(BackendOp::FailTxPoll { fatal });
            let starts = harness.after_stop().start_ops(features);
            let stopped = request.len() + 1;
            let reset = stopped + stops.len();
            if k < stopped {
                assert(k < request.len() ==> ops[k] == request[k]);
            } else if k < reset {
                assert(ops[k] == stops[k - stopped]);
            } else {
                assert(ops[k] == starts[k - reset]);
            }
        },
        Action::Restart { features } => {
            let starts = harness.after_stop().start_ops(features);
            if k < stops.len() {
                assert(ops[k] == stops[k]);
            } else if k > stops.len() {
                assert(ops[k] == starts[k - stops.len() - 1]);
            }
        },
        _ => {},
    }
}

proof fn posting_only_writes_and_kicks(harness: HarnessView, action: Action, k: int)
    requires
        harness.wf(),
        action is PostRx || action is PostTx,
        0 <= k < harness.action_ops(action).len(),
    ensures
        ({
            let op = harness.action_ops(action)[k];
            op is WriteHeader || op is WriteDescriptor || op is MakeAvailable || op is Kick
        }),
{
}

// ---- The byte budget ----

/// Bytes that the descriptors among the first `k` ops describe.
pub open spec fn described_bytes(ops: Seq<Op>, k: int) -> int
    decreases k,
{
    if k <= 0 {
        0
    } else {
        described_bytes(ops, k - 1) + match ops[k - 1] {
            Op::WriteDescriptor { descriptor, .. } => descriptor.len as int,
            _ => 0,
        }
    }
}

proof fn nothing_described(ops: Seq<Op>, k: int)
    requires
        k <= ops.len(),
        forall|i: int| 0 <= i < k ==> !((#[trigger] ops[i]) is WriteDescriptor),
    ensures
        described_bytes(ops, k) == 0,
    decreases k,
{
    if k > 0 {
        nothing_described(ops, k - 1);
    }
}

/// A run of descriptor writes with the same length describes that length as
/// often as there are writes.
proof fn run_describes(ops: Seq<Op>, from: int, count: int, len: int)
    requires
        0 <= from,
        0 <= count,
        from + count <= ops.len(),
        forall|i: int|
            from <= i < from + count ==> (#[trigger] ops[i]) is WriteDescriptor
                && ops[i]->descriptor.len == len,
    ensures
        described_bytes(ops, from + count) == described_bytes(ops, from) + count * len,
    decreases count,
{
    if count > 0 {
        run_describes(ops, from, count - 1, len);
        assert(ops[from + count - 1] is WriteDescriptor);
        assert((count - 1) * len + len == count * len) by (nonlinear_arith);
    } else {
        assert(0 * len == 0) by (nonlinear_arith);
    }
}

proof fn tail_describes_nothing(ops: Seq<Op>, from: int, k: int)
    requires
        0 <= from <= k <= ops.len(),
        forall|i: int| from <= i < k ==> !((#[trigger] ops[i]) is WriteDescriptor),
    ensures
        described_bytes(ops, k) == described_bytes(ops, from),
    decreases k,
{
    if k > from {
        tail_describes_nothing(ops, from, k - 1);
    }
}

/// Bytes that all descriptors of an action describe.
pub open spec fn action_bytes(harness: HarnessView, action: Action) -> int {
    described_bytes(harness.action_ops(action), harness.action_ops(action).len() as int)
}

proof fn rx_chain_describes(harness: HarnessView, segments: u8, len: u16)
    requires
        harness.rx_head(segments, len) is Some,
    ensures
        action_bytes(harness, Action::PostRx { segments, len }) == HarnessView::rx_segments(
            segments,
        ) * buf_len(len),
{
    let ops = harness.post_rx_ops(segments, len);
    let n = HarnessView::rx_segments(segments);
    assert(ops.len() == n + 2);
    run_describes(ops, 0, n, buf_len(len));
    tail_describes_nothing(ops, n, n + 2);
}

proof fn tx_chain_describes(harness: HarnessView, action: Action)
    requires
        action matches Action::PostTx { header, header_len, segments, len } && harness.tx_head(
            header_len,
            segments,
            len,
        ) is Some,
    ensures
        action matches Action::PostTx { header, header_len, segments, len } && action_bytes(
            harness,
            action,
        ) == announced_header_len(header_len) + HarnessView::tx_segments(segments) * buf_len(len),
{
    if let Action::PostTx { header, header_len, segments, len } = action {
        let ops = harness.post_tx_ops(header, header_len, segments, len);
        let n = HarnessView::tx_segments(segments);
        assert(ops.len() == n + 4);
        nothing_described(ops, 1);
        run_describes(ops, 1, 1, announced_header_len(header_len));
        run_describes(ops, 2, n, buf_len(len));
        tail_describes_nothing(ops, 2 + n, n + 4);
    }
}

/// What an action describes: nothing unless it posts a chain, then what the
/// header announces and all data buffers.
proof fn posted_bytes(harness: HarnessView, action: Action)
    requires
        harness.wf(),
    ensures
        action_bytes(harness, action) == match action {
            Action::PostRx { segments, len } => if harness.rx_head(segments, len) is Some {
                HarnessView::rx_segments(segments) * buf_len(len)
            } else {
                0
            },
            Action::PostTx { header, header_len, segments, len } => if harness.tx_head(
                header_len,
                segments,
                len,
            ) is Some {
                announced_header_len(header_len) + HarnessView::tx_segments(segments) * buf_len(len)
            } else {
                0
            },
            _ => 0,
        },
{
    let ops = harness.action_ops(action);
    match action {
        Action::PostRx { segments, len } => if harness.rx_head(segments, len) is Some {
            rx_chain_describes(harness, segments, len);
        },
        Action::PostTx { header, header_len, segments, len } => if harness.tx_head(
            header_len,
            segments,
            len,
        ) is Some {
            tx_chain_describes(harness, action);
        },
        _ => {
            assert forall|k: int| 0 <= k < ops.len() implies !((#[trigger] ops[k]) is WriteDescriptor) by {
                only_posting_writes(harness, action, k);
            }
            nothing_described(ops, ops.len() as int);
        },
    }
}

/// The byte budget pays for every byte described: an action other than a
/// restart, which starts the budget over, takes at least as much from the
/// budget as its descriptors describe.
pub proof fn described_bytes_are_paid_for(harness: HarnessView, action: Action)
    requires
        harness.wf(),
        !(action is Restart),
    ensures
        action_bytes(harness, action) + harness.after_action(action).data.budget
            <= harness.data.budget,
{
    posted_bytes(harness, action);
    match action {
        Action::PostRx { segments, len } => {
            if harness.rx_head(segments, len) is Some {
                affordable_requests_are_granted(
                    harness.data,
                    buf_len(len),
                    HarnessView::rx_segments(segments),
                );
            }
        },
        Action::PostTx { header, header_len, segments, len } => {
            let n = HarnessView::tx_segments(segments);
            let room = header_room(header_len);
            if harness.tx_head(header_len, segments, len) is Some {
                chain_bytes_are_few(n, buf_len(len));
                granted_bytes_stay_in_arena(harness.data, room);
                affordable_requests_are_granted(harness.data.after(room), buf_len(len), n);
            }
        },
        _ => {},
    }
}

/// No action describes more bytes than a long header and a transmit chain with
/// as many data buffers as there may be, all of full length.
pub proof fn actions_describe_few_bytes(harness: HarnessView, action: Action)
    requires
        harness.wf(),
    ensures
        0 <= action_bytes(harness, action) <= NET_HEADER_SIZE + 4 + MAX_TX_DATA_SEGMENTS
            * MAX_BUF_LEN,
{
    posted_bytes(harness, action);
    match action {
        Action::PostRx { segments, len } => chain_bytes_are_few(
            HarnessView::rx_segments(segments),
            buf_len(len),
        ),
        Action::PostTx { header, header_len, segments, len } => chain_bytes_are_few(
            HarnessView::tx_segments(segments),
            buf_len(len),
        ),
        _ => {},
    }
}

/// Hitting a bound makes an action a no-op: where the table is too full for a
/// chain, or the budget does not pay for all of it, nothing is written,
/// published or kicked, and no slot and no byte is lost.
pub proof fn hitting_a_bound_is_a_no_op(harness: HarnessView, action: Action)
    requires
        match action {
            Action::PostRx { segments, len } => {
                let n = HarnessView::rx_segments(segments);
                harness.rx.slot_for(n) is None || n * buf_len(len) > harness.data.budget
            },
            Action::PostTx { header, header_len, segments, len } => {
                let n = HarnessView::tx_segments(segments);
                harness.tx.slot_for(n + 1) is None || header_room(header_len) + n * buf_len(len)
                    > harness.data.budget
            },
            _ => false,
        },
    ensures
        harness.action_ops(action) == Seq::<Op>::empty(),
        harness.after_action(action) == harness,
{
}

// ---- Queue lifecycle ----

/// Whether the queues run after the first `k` ops, if they did before.
pub open spec fn running_after(before: bool, ops: Seq<Op>, k: int) -> bool
    decreases k,
{
    if k <= 0 {
        before
    } else {
        match ops[k - 1] {
            Op::StartQueue { .. } => true,
            Op::StopQueue { index } => if index == 0 {
                false
            } else {
                running_after(before, ops, k - 1)
            },
            _ => running_after(before, ops, k - 1),
        }
    }
}

proof fn still_running(before: bool, ops: Seq<Op>, k: int)
    requires
        k <= ops.len(),
        forall|i: int|
            0 <= i < k ==> !((#[trigger] ops[i]) is StartQueue) && !(ops[i] is StopQueue),
    ensures
        running_after(before, ops, k) == before,
    decreases k,
{
    if k > 0 {
        still_running(before, ops, k - 1);
    }
}

/// The ops keep the order of the queue lifecycle: the device is reset and its
/// rings are initialized only while no queue runs, and the rings are initialized
/// just before the queues start.
pub open spec fn orderly(before: bool, ops: Seq<Op>) -> bool {
    &&& forall|k: int|
        0 <= k < ops.len() && ((#[trigger] ops[k]) is ResetDevice || ops[k] is InitRings)
            ==> !running_after(before, ops, k)
    &&& forall|k: int|
        0 <= k < ops.len() && (#[trigger] ops[k]) is StartQueue && ops[k]->StartQueue_index == 0
            ==> k > 0 && ops[k - 1] is InitRings
}

proof fn running_after_both(before: bool, a: Seq<Op>, b: Seq<Op>, k: int)
    requires
        0 <= k <= a.len() + b.len(),
    ensures
        running_after(before, a + b, k) == (if k <= a.len() {
            running_after(before, a, k)
        } else {
            running_after(running_after(before, a, a.len() as int), b, k - a.len())
        }),
    decreases k,
{
    if k > 0 {
        running_after_both(before, a, b, k - 1);
        assert(running_after(running_after(before, a, a.len() as int), b, 0) == running_after(
            before,
            a,
            a.len() as int,
        ));
        if k <= a.len() {
            assert((a + b)[k - 1] == a[k - 1]);
        } else {
            assert((a + b)[k - 1] == b[k - 1 - a.len()]);
        }
    }
}

proof fn orderly_both(before: bool, a: Seq<Op>, b: Seq<Op>)
    requires
        orderly(before, a),
        orderly(running_after(before, a, a.len() as int), b),
    ensures
        orderly(before, a + b),
        running_after(before, a + b, (a + b).len() as int) == running_after(
            running_after(before, a, a.len() as int),
            b,
            b.len() as int,
        ),
{
    let ops = a + b;
    let between = running_after(before, a, a.len() as int);
    running_after_both(before, a, b, ops.len() as int);
    assert forall|k: int|
        0 <= k < ops.len() && ((#[trigger] ops[k]) is ResetDevice || ops[k] is InitRings) implies
        !running_after(before, ops, k) by {
        running_after_both(before, a, b, k);
        if k < a.len() {
            assert(ops[k] == a[k]);
        } else {
            assert(ops[k] == b[k - a.len()]);
        }
    }
    assert forall|k: int|
        0 <= k < ops.len() && (#[trigger] ops[k]) is StartQueue && ops[k]->StartQueue_index == 0
        implies k > 0 && ops[k - 1] is InitRings by {
        if k < a.len() {
            assert(ops[k] == a[k]);
        } else {
            assert(ops[k] == b[k - a.len()]);
            assert(b[k - a.len() - 1] is InitRings);
        }
    }
}

proof fn stop_is_orderly(harness: HarnessView)
    ensures
        orderly(harness.enabled, harness.stop_ops()),
        !running_after(harness.enabled, harness.stop_ops(), harness.stop_ops().len() as int),
        orderly(harness.enabled, harness.reset_ops()),
        !running_after(harness.enabled, harness.reset_ops(), harness.reset_ops().len() as int),
{
    reveal_with_fuel(running_after, 4);
    orderly_both(harness.enabled, harness.stop_ops(), seq![Op::ResetDevice]);
}

proof fn start_is_orderly(harness: HarnessView, features: u64)
    ensures
        orderly(harness.enabled, harness.start_ops(features)),
        running_after(
            harness.enabled,
            harness.start_ops(features),
            harness.start_ops(features).len() as int,
        ),
{
    reveal_with_fuel(running_after, 5);
}

/// Every action keeps the order of the queue lifecycle, and the books agree on
/// whether the queues run afterwards.
pub proof fn lifecycle_is_orderly(harness: HarnessView, action: Action)
    requires
        harness.wf(),
    ensures
        orderly(harness.enabled, harness.action_ops(action)),
        running_after(
            harness.enabled,
            harness.action_ops(action),
            harness.action_ops(action).len() as int,
        ) == harness.after_action(action).enabled,
{
    let ops = harness.action_ops(action);
    stop_is_orderly(harness);
    match action {
        Action::FailTxPoll { fatal, key, features } => {
            let request = harness.backend_ops(BackendOp::FailTxPoll { fatal });
            let wait = seq![Op::Yield { count: FAIL_TX_POLL_YIELDS }];
            reveal_with_fuel(running_after, 2);
            orderly_both(harness.enabled, request, wait);
            orderly_both(harness.enabled, request + wait, harness.reset_ops());
            start_is_orderly(harness.after_stop(), features);
            orderly_both(
                harness.enabled,
                request + wait + harness.reset_ops(),
                harness.after_stop().start_ops(features),
            );
        },
        Action::Restart { features } => {
            let init = seq![Op::InitRings];
            reveal_with_fuel(running_after, 2);
            orderly_both(harness.enabled, harness.reset_ops(), init);
            start_is_orderly(harness.after_stop(), features);
            orderly_both(
                harness.enabled,
                harness.reset_ops() + init,
                harness.after_stop().start_ops(features),
            );
        },
        Action::Start { features } => start_is_orderly(harness, features),
        Action::Stop | Action::Reset => {},
        Action::PostRx { .. } | Action::PostTx { .. } => {
            assert forall|k: int| 0 <= k < ops.len() implies {
                ||| (#[trigger] ops[k]) is WriteHeader
                ||| ops[k] is WriteDescriptor
                ||| ops[k] is MakeAvailable
                ||| ops[k] is Kick
            } by {
                posting_only_writes_and_kicks(harness, action, k);
            }
            still_running(harness.enabled, ops, ops.len() as int);
        },
        _ => {
            reveal_with_fuel(running_after, 2);
        },
    }
}

/// A running device is not started again, and starting twice is starting once.
pub proof fn start_is_idempotent(harness: HarnessView, features: u64)
    ensures
        harness.after_start().start_ops(features) == Seq::<Op>::empty(),
        harness.after_start().after_start() == harness.after_start(),
{
}

/// A stopped device is not stopped again, and stopping twice is stopping once.
pub proof fn stop_is_idempotent(harness: HarnessView)
    ensures
        harness.after_stop().stop_ops() == Seq::<Op>::empty(),
        harness.after_stop().after_stop() == harness.after_stop(),
{
}

/// Whenever an action starts the queues, both begin empty: no slot in flight,
/// and both ring indices at zero. The backend handle is yet to arrive, and all
/// tries to get it are there.
pub proof fn started_queues_begin_empty(harness: HarnessView, action: Action, k: int)
    requires
        harness.wf(),
        0 <= k < harness.action_ops(action).len(),
        harness.action_ops(action)[k] is StartQueue,
    ensures
        ({
            let after = harness.after_action(action);
            &&& after.enabled && !after.attached && after.tries_left == HANDLE_YIELD_BUDGET
            &&& after.rx == QueueView::idle(
                harness.rx.desc_addr,
                harness.rx.avail_addr,
                harness.rx.used_addr,
            )
            &&& after.tx == QueueView::idle(
                harness.tx.desc_addr,
                harness.tx.avail_addr,
                harness.tx.used_addr,
            )
        }),
{
}

/// A restart gives the whole byte budget back.
pub proof fn restart_refills_the_budget(harness: HarnessView, features: u64)
    ensures
        harness.after_action(Action::Restart { features }).data == DataAlloc::fresh(),
{
}

// ---- The backend ----

/// The state of a queue that the device dropped is never touched: the backend is
/// asked for something only while its handle is held, before anything else an
/// action takes, and a stop lets go of the handle.
pub proof fn dropped_backend_is_left_alone(harness: HarnessView, action: Action, k: int)
    requires
        harness.wf(),
        0 <= k < harness.action_ops(action).len(),
        harness.action_ops(action)[k] is Backend,
    ensures
        harness.attached,
        k == 0,
        !harness.after_stop().attached,
{
    if action is PostRx || action is PostTx {
        posting_only_writes_and_kicks(harness, action, k);
    }
}

/// The transmit mode of a backend is the mode in the books.
pub open spec fn modes_agree<W>(harness: HarnessView, shared: SharedView<W>) -> bool {
    &&& shared.tx_sync == harness.tx_sync
    &&& shared.tx_max_packets == harness.tx_max_packets
}

/// State of a backend after the requests among the first `k` ops.
pub open spec fn backend_after<W>(shared: SharedView<W>, ops: Seq<Op>, k: int) -> SharedView<W>
    decreases k,
{
    if k <= 0 {
        shared
    } else {
        let before = backend_after(shared, ops, k - 1);
        match ops[k - 1] {
            Op::Backend(op) => before.after_op(op),
            _ => before,
        }
    }
}

proof fn backend_untouched<W>(shared: SharedView<W>, ops: Seq<Op>, k: int)
    requires
        k <= ops.len(),
        forall|i: int| 0 <= i < k ==> !((#[trigger] ops[i]) is Backend),
    ensures
        backend_after(shared, ops, k) == shared,
    decreases k,
{
    if k > 0 {
        backend_untouched(shared, ops, k - 1);
    }
}

/// The transmit mode survives a restart: only `SetTxMode` changes it in the
/// books, the backend of a restarted device gets it with its handle, and as long
/// as the handle is held, the backend's mode is the one in the books.
pub proof fn transmit_mode_survives<W>(
    harness: HarnessView,
    action: Action,
    shared: SharedView<W>,
)
    requires
        harness.wf(),
        harness.attached,
        modes_agree(harness, shared),
    ensures
        !(action is SetTxMode) ==> {
            &&& harness.after_action(action).tx_sync == harness.tx_sync
            &&& harness.after_action(action).tx_max_packets == harness.tx_max_packets
        },
        harness.after_action(action).tries_left > 0 ==> harness.after_action(action).attach_outcome(
            true,
        ) == (Attach::Connect {
            tx_sync: harness.after_action(action).tx_sync,
            tx_max_packets: harness.after_action(action).tx_max_packets,
        }),
        modes_agree(
            harness.after_action(action),
            backend_after(
                shared,
                harness.action_ops(action),
                harness.action_ops(action).len() as int,
            ),
        ),
{
    let ops = harness.action_ops(action);
    let len = ops.len() as int;
    match action {
        Action::InjectRx { .. } | Action::SetTxMode { .. } | Action::CompleteTx { .. } => {
            reveal_with_fuel(backend_after, 3);
        },
        Action::FailTxPoll { .. } => {
            reveal_with_fuel(backend_after, 12);
        },
        _ => backend_untouched(shared, ops, len),
    }
}

/// No action breaks the bounds of the backend.
pub proof fn actions_keep_backend_bounded<W>(
    harness: HarnessView,
    action: Action,
    shared: SharedView<W>,
    k: int,
)
    requires
        harness.wf(),
        shared.wf(),
        0 <= k <= harness.action_ops(action).len(),
    ensures
        backend_after(shared, harness.action_ops(action), k).wf(),
    decreases k,
{
    if k > 0 {
        actions_keep_backend_bounded(harness, action, shared, k - 1);
        every_op_stays_in_bounds(harness, action, k - 1);
    }
}

// ---- Runs ----

/// Everything that moves a run on.
pub enum Move {
    /// The run begins, with the transmit mode and the features that were drawn.
    Begin { tx_sync: bool, features: u64 },
    /// An action is decided on.
    Act(Action),
    /// The device's tasks are to run once.
    Yield,
    /// The backend handle was asked for, and had arrived or not.
    Attach(bool),
    /// A drain of the receive or transmit queue found these heads.
    Drain { rx: bool, heads: Seq<u16> },
    /// A chain was published, which moves the available index.
    Published { rx: bool, avail_idx: u16 },
    /// Used entries were read, which moves the used index.
    Read { rx: bool, used_idx: u16 },
    /// One more action is drawn from the input.
    ActionDue,
    /// The rings are rebuilt.
    Rebuild,
    /// The device is reset, as at the end of a run.
    Reset,
}

/// A move that can happen in this state.
pub open spec fn possible(harness: HarnessView, step: Move) -> bool {
    match step {
        Move::ActionDue => harness.actions_left > 0,
        _ => true,
    }
}

/// State after one move.
pub open spec fn after_move(harness: HarnessView, step: Move) -> HarnessView {
    match step {
        Move::Begin { tx_sync, .. } => (HarnessView { tx_sync, ..harness }).after_start(),
        Move::Act(action) => harness.after_action(action),
        Move::Yield => harness.after_yield(),
        Move::Attach(arrived) => harness.after_attach(arrived),
        Move::Drain { rx, heads } => harness.after_drain(rx, heads),
        Move::Published { rx, avail_idx } => if rx {
            HarnessView { rx: QueueView { avail_idx, ..harness.rx }, ..harness }
        } else {
            HarnessView { tx: QueueView { avail_idx, ..harness.tx }, ..harness }
        },
        Move::Read { rx, used_idx } => if rx {
            HarnessView { rx: QueueView { used_idx, ..harness.rx }, ..harness }
        } else {
            HarnessView { tx: QueueView { used_idx, ..harness.tx }, ..harness }
        },
        Move::ActionDue => harness.after_action_due(),
        Move::Rebuild => harness.after_rebuild(),
        Move::Reset => harness.after_stop(),
    }
}

/// State after a series of moves.
pub open spec fn after_moves(harness: HarnessView, moves: Seq<Move>) -> HarnessView
    decreases moves.len(),
{
    if moves.len() == 0 {
        harness
    } else {
        after_move(after_moves(harness, moves.drop_last()), moves.last())
    }
}

/// Every move of a series can happen when it is its turn.
pub open spec fn all_possible(harness: HarnessView, moves: Seq<Move>) -> bool
    decreases moves.len(),
{
    moves.len() == 0 || all_possible(harness, moves.drop_last()) && possible(
        after_moves(harness, moves.drop_last()),
        moves.last(),
    )
}

/// How often a series of moves lets the device's tasks run.
pub open spec fn yields_granted(harness: HarnessView, moves: Seq<Move>) -> int
    decreases moves.len(),
{
    if moves.len() == 0 {
        0
    } else {
        let before = after_moves(harness, moves.drop_last());
        yields_granted(harness, moves.drop_last()) + match moves.last() {
            Move::Yield => if before.yields_left > 0 {
                1int
            } else {
                0
            },
            Move::Attach(arrived) => if before.attach_outcome(arrived) is Yield {
                1int
            } else {
                0
            },
            _ => 0,
        }
    }
}

/// How many actions a series of moves draws.
pub open spec fn actions_drawn(moves: Seq<Move>) -> int
    decreases moves.len(),
{
    if moves.len() == 0 {
        0
    } else {
        actions_drawn(moves.drop_last()) + if moves.last() is ActionDue {
            1int
        } else {
            0
        }
    }
}

/// Where the indices of a ring stand does not matter to slot accounting.
proof fn indices_do_not_matter(queue: QueueView, avail_idx: u16, used_idx: u16)
    requires
        queue.wf(),
    ensures
        (QueueView { avail_idx, used_idx, ..queue }).wf(),
{
    let moved = QueueView { avail_idx, used_idx, ..queue };
    assert forall|h: int, i: int| #[trigger] moved.owns(h, i) == queue.owns(h, i) by {}
    assert forall|h: int, g: int, i: int| #[trigger] moved.owns(h, i) && #[trigger] moved.owns(
        g,
        i,
    ) implies h == g by {
        assert(queue.owns(h, i) && queue.owns(g, i));
    }
    assert forall|i: int| 0 <= i < QUEUE_SLOTS && #[trigger] moved.busy[i] implies exists|h: int|
        moved.owns(h, i) by {
        assert(queue.busy[i]);
        let h = choose|h: int| queue.owns(h, i);
        assert(moved.owns(h, i));
    }
}

proof fn moves_keep_bounds(harness: HarnessView, step: Move)
    requires
        harness.wf(),
        possible(harness, step),
    ensures
        after_move(harness, step).wf(),
        after_move(harness, step).allowed_features == harness.allowed_features,
{
    idle_queue_is_well_formed(harness.rx.desc_addr, harness.rx.avail_addr, harness.rx.used_addr);
    idle_queue_is_well_formed(harness.tx.desc_addr, harness.tx.avail_addr, harness.tx.used_addr);
    match step {
        Move::Act(action) => match action {
            Action::PostRx { segments, len } => {
                let n = HarnessView::rx_segments(segments);
                reserving_takes_free_slots(harness.rx, n);
                if harness.rx_head(segments, len) is Some {
                    affordable_requests_are_granted(harness.data, buf_len(len), n);
                }
            },
            Action::PostTx { header, header_len, segments, len } => {
                let n = HarnessView::tx_segments(segments);
                let room = header_room(header_len);
                reserving_takes_free_slots(harness.tx, n + 1);
                chain_bytes_are_few(n, buf_len(len));
                if harness.tx_head(header_len, segments, len) is Some {
                    granted_bytes_stay_in_arena(harness.data, room);
                    affordable_requests_are_granted(harness.data.after(room), buf_len(len), n);
                }
            },
            _ => {},
        },
        Move::Drain { rx, heads } => {
            draining_keeps_accounts_sound(harness.rx, heads);
            draining_keeps_accounts_sound(harness.tx, heads);
        },
        Move::Published { rx, avail_idx } => {
            indices_do_not_matter(harness.rx, avail_idx, harness.rx.used_idx);
            indices_do_not_matter(harness.tx, avail_idx, harness.tx.used_idx);
        },
        Move::Read { rx, used_idx } => {
            indices_do_not_matter(harness.rx, harness.rx.avail_idx, used_idx);
            indices_do_not_matter(harness.tx, harness.tx.avail_idx, used_idx);
        },
        _ => {},
    }
}

/// Whatever the input and the device do, a run stays in bounds: slot accounting
/// stays sound, the allowed features never change, and the yield and action
/// budgets pay for every yield and every action.
pub proof fn runs_stay_in_bounds(harness: HarnessView, moves: Seq<Move>)
    requires
        harness.wf(),
        all_possible(harness, moves),
    ensures
        after_moves(harness, moves).wf(),
        after_moves(harness, moves).allowed_features == harness.allowed_features,
        yields_granted(harness, moves) + after_moves(harness, moves).yields_left
            == harness.yields_left,
        actions_drawn(moves) + after_moves(harness, moves).actions_left == harness.actions_left,
    decreases moves.len(),
{
    if moves.len() > 0 {
        runs_stay_in_bounds(harness, moves.drop_last());
        moves_keep_bounds(after_moves(harness, moves.drop_last()), moves.last());
    }
}

/// Actions that a series of moves decides on.
pub open spec fn actions_decided(moves: Seq<Move>) -> int
    decreases moves.len(),
{
    if moves.len() == 0 {
        0
    } else {
        actions_decided(moves.drop_last()) + if moves.last() is Act {
            1int
        } else {
            0
        }
    }
}

/// Bytes that all descriptors of a series of moves describe.
pub open spec fn run_bytes(harness: HarnessView, moves: Seq<Move>) -> int
    decreases moves.len(),
{
    if moves.len() == 0 {
        0
    } else {
        run_bytes(harness, moves.drop_last()) + match moves.last() {
            Move::Act(action) => action_bytes(after_moves(harness, moves.drop_last()), action),
            _ => 0,
        }
    }
}

proof fn run_bytes_are_few(harness: HarnessView, moves: Seq<Move>)
    requires
        harness.wf(),
        all_possible(harness, moves),
    ensures
        0 <= actions_decided(moves),
        0 <= run_bytes(harness, moves) <= actions_decided(moves) * 2064,
    decreases moves.len(),
{
    if moves.len() > 0 {
        run_bytes_are_few(harness, moves.drop_last());
        runs_stay_in_bounds(harness, moves.drop_last());
        if let Move::Act(action) = moves.last() {
            actions_describe_few_bytes(after_moves(harness, moves.drop_last()), action);
        }
    }
}

/// One input describes no more bytes than the bound over all posted buffers,
/// restarts included, although each gives the whole budget back: every action
/// was drawn from the input, and so many actions cannot describe more.
pub proof fn inputs_describe_bounded_bytes(harness: HarnessView, moves: Seq<Move>)
    requires
        harness.wf(),
        all_possible(harness, moves),
        actions_decided(moves) <= actions_drawn(moves),
    ensures
        0 <= run_bytes(harness, moves) <= MAX_TOTAL_BYTES,
{
    run_bytes_are_few(harness, moves);
    runs_stay_in_bounds(harness, moves);
}

/// State after the backend handle was asked for `n` times and had not arrived.
pub open spec fn after_refusals(harness: HarnessView, n: int) -> HarnessView
    decreases n,
{
    if n <= 0 {
        harness
    } else {
        after_refusals(harness, n - 1).after_attach(false)
    }
}

/// A start waits for the backend handle a bounded number of times: each refusal
/// costs one try and one yield as long as both last, and once the tries are used
/// up, asking again changes nothing, whether the handle arrived or not.
pub proof fn waiting_for_the_handle_ends(harness: HarnessView, n: int, arrived: bool)
    requires
        harness.wf(),
        0 <= n,
    ensures
        ({
            let after = after_refusals(harness, n);
            &&& harness.yields_left - after.yields_left <= harness.tries_left
                <= HANDLE_YIELD_BUDGET
            &&& n <= harness.tries_left && n <= harness.yields_left ==> after.tries_left
                == harness.tries_left - n && after.yields_left == harness.yields_left - n
            &&& n >= harness.tries_left || n > harness.yields_left ==> {
                &&& after.attach_outcome(arrived) == Attach::GiveUp
                &&& after.after_attach(arrived) == after
            }
        }),
{
    refusals_cost_tries(harness, n);
}

proof fn refusals_cost_tries(harness: HarnessView, n: int)
    requires
        harness.wf(),
        0 <= n,
    ensures
        ({
            let after = after_refusals(harness, n);
            if n <= harness.tries_left && n <= harness.yields_left {
                &&& after.tries_left == harness.tries_left - n
                &&& after.yields_left == harness.yields_left - n
            } else {
                &&& after.tries_left == 0
                &&& after.yields_left <= harness.yields_left
                &&& harness.yields_left - after.yields_left <= harness.tries_left
            }
        }),
    decreases n,
{
    if n > 0 {
        refusals_cost_tries(harness, n - 1);
    }
}

// ---- The available ring ----

/// Chains published in a ring since it was last initialized, after the first `k`
/// ops, if there were `before`.
pub open spec fn published_after(before: int, rx: bool, ops: Seq<Op>, k: int) -> int
    decreases k,
{
    if k <= 0 {
        before
    } else {
        let earlier = published_after(before, rx, ops, k - 1);
        match ops[k - 1] {
            Op::InitRings => 0,
            Op::MakeAvailable { rx: queue, .. } => if queue == rx {
                earlier + 1
            } else {
                earlier
            },
            _ => earlier,
        }
    }
}

/// Chains published in a ring since it was last initialized and not yet seen
/// used, after a series of moves. Those in flight at first count as published.
pub open spec fn unseen_chains(harness: HarnessView, moves: Seq<Move>, rx: bool) -> int
    decreases moves.len(),
{
    if moves.len() == 0 {
        chains_in_flight(queue_of(harness, rx))
    } else {
        let before = after_moves(harness, moves.drop_last());
        let unseen = unseen_chains(harness, moves.drop_last(), rx);
        match moves.last() {
            Move::Begin { tx_sync, features } => {
                let ops = (HarnessView { tx_sync, ..before }).start_ops(features);
                published_after(unseen, rx, ops, ops.len() as int)
            },
            Move::Act(action) => {
                let ops = before.action_ops(action);
                published_after(unseen, rx, ops, ops.len() as int)
            },
            Move::Drain { rx: queue, heads } => if queue == rx {
                unseen - chains_completed(queue_of(before, rx), heads)
            } else {
                unseen
            },
            Move::Rebuild => 0,
            _ => unseen,
        }
    }
}

proof fn nothing_published(before: int, rx: bool, ops: Seq<Op>, from: int, k: int)
    requires
        0 <= from <= k <= ops.len(),
        forall|i: int|
            from <= i < k ==> !((#[trigger] ops[i]) is MakeAvailable) && !(ops[i] is InitRings),
    ensures
        published_after(before, rx, ops, k) == published_after(before, rx, ops, from),
    decreases k,
{
    if k > from {
        nothing_published(before, rx, ops, from, k - 1);
    }
}

proof fn nothing_published_since_init(before: int, rx: bool, ops: Seq<Op>, init: int, k: int)
    requires
        0 <= init < k <= ops.len(),
        ops[init] is InitRings,
        forall|i: int| init <= i < k ==> !((#[trigger] ops[i]) is MakeAvailable),
    ensures
        published_after(before, rx, ops, k) == 0,
    decreases k,
{
    if k - 1 > init {
        nothing_published_since_init(before, rx, ops, init, k - 1);
    }
}

proof fn posting_publishes_once(harness: HarnessView, action: Action, rx: bool, before: int)
    requires
        harness.wf(),
        action is PostRx || action is PostTx,
        before == chains_in_flight(queue_of(harness, rx)),
    ensures
        ({
            let ops = harness.action_ops(action);
            published_after(before, rx, ops, ops.len() as int) == chains_in_flight(
                queue_of(harness.after_action(action), rx),
            )
        }),
{
    let ops = harness.action_ops(action);
    match action {
        Action::PostRx { segments, len } => {
            let n = HarnessView::rx_segments(segments);
            reserving_never_overruns_the_ring(harness.rx, n);
            if harness.rx_head(segments, len) is Some {
                assert(ops.len() == n + 2);
                nothing_published(before, rx, ops, 0, n);
                nothing_published(before, rx, ops, n + 1, n + 2);
            }
        },
        Action::PostTx { header, header_len, segments, len } => {
            let n = HarnessView::tx_segments(segments);
            reserving_never_overruns_the_ring(harness.tx, n + 1);
            if harness.tx_head(header_len, segments, len) is Some {
                assert(ops.len() == n + 4);
                nothing_published(before, rx, ops, 0, n + 2);
                nothing_published(before, rx, ops, n + 3, n + 4);
            }
        },
        _ => {},
    }
}

proof fn other_actions_publish_nothing(harness: HarnessView, action: Action, rx: bool, before: int)
    requires
        harness.wf(),
        !(action is PostRx),
        !(action is PostTx),
        before == chains_in_flight(queue_of(harness, rx)),
    ensures
        ({
            let ops = harness.action_ops(action);
            published_after(before, rx, ops, ops.len() as int) == chains_in_flight(
                queue_of(harness.after_action(action), rx),
            )
        }),
{
    let ops = harness.action_ops(action);
    let len = ops.len() as int;
    let queue = queue_of(harness, rx);
    idle_queue_has_no_chains(queue.desc_addr, queue.avail_addr, queue.used_addr);
    assert forall|k: int| 0 <= k < len implies !((#[trigger] ops[k]) is MakeAvailable) by {
        only_posting_writes(harness, action, k);
    }
    match action {
        Action::FailTxPoll { fatal, key, features } => if ops.len() > 0 {
            let request = harness.backend_ops(BackendOp::FailTxPoll { fatal });
            let init = request.len() + 1 + harness.reset_ops().len();
            let starts = harness.after_stop().start_ops(features);
            assert(ops[init as int] == starts[0]);
            nothing_published_since_init(before, rx, ops, init as int, len);
        },
        Action::Restart { features } => {
            let init = harness.reset_ops().len() as int;
            assert(ops[init] is InitRings);
            nothing_published_since_init(before, rx, ops, init, len);
        },
        Action::Start { .. } | Action::RebuildRings => if ops.len() > 0 {
            nothing_published_since_init(before, rx, ops, 0, len);
        },
        _ => nothing_published(before, rx, ops, 0, len),
    }
}

/// The available ring is never overrun: in every state of a run, the chains that
/// were published since the ring was initialized and not yet seen used are
/// exactly the chains in flight, and there are never more of them than the ring
/// has entries.
pub proof fn ring_is_never_overrun(harness: HarnessView, moves: Seq<Move>, rx: bool)
    requires
        harness.wf(),
        all_possible(harness, moves),
    ensures
        unseen_chains(harness, moves, rx) == chains_in_flight(
            queue_of(after_moves(harness, moves), rx),
        ),
        0 <= unseen_chains(harness, moves, rx) <= QUEUE_SIZE,
    decreases moves.len(),
{
    runs_stay_in_bounds(harness, moves);
    reserving_never_overruns_the_ring(queue_of(after_moves(harness, moves), rx), 0);
    if moves.len() > 0 {
        let before = after_moves(harness, moves.drop_last());
        let queue = queue_of(before, rx);
        let unseen = unseen_chains(harness, moves.drop_last(), rx);
        ring_is_never_overrun(harness, moves.drop_last(), rx);
        runs_stay_in_bounds(harness, moves.drop_last());
        idle_queue_has_no_chains(queue.desc_addr, queue.avail_addr, queue.used_addr);
        match moves.last() {
            Move::Begin { tx_sync, features } => {
                let ops = (HarnessView { tx_sync, ..before }).start_ops(features);
                if ops.len() > 0 {
                    nothing_published_since_init(unseen, rx, ops, 0, ops.len() as int);
                }
            },
            Move::Act(action) => if action is PostRx || action is PostTx {
                posting_publishes_once(before, action, rx, unseen);
            } else {
                other_actions_publish_nothing(before, action, rx, unseen);
            },
            Move::Drain { rx: drained, heads } => draining_counts_completions(queue, heads),
            _ => {},
        }
    }
}

} // verus!
