//! What holds of every virtio-blk fuzz run.

use vstd::prelude::*;

use super::chain::{
    at_most, chain_descriptors, chain_head, data_gpa, data_next, frag_count, frag_cursor, frag_len,
    header_bytes, header_len, header_sector, payload_bytes, request_type, Buffer, ChainLayout,
};
use super::grammar::{sector_of, Action, ChainSpec, ReqSpec};
use super::harness::{Harness, Step};
use super::layout::{
    BAD_GPA, DATA_BASE, DATA_END, MAX_ACTIONS, MAX_CHAINS, MAX_CHAIN_PAYLOAD_BYTES,
    MAX_DESCS_PER_CHAIN, MAX_TOTAL_PAYLOAD_BYTES, MAX_YIELDS, MEM_SIZE, QUEUE_SIZE, SECTOR_SIZE,
    TEARDOWN_YIELDS, VIRTIO_BLK_ID_BYTES,
};
use crate::wire::{byte_range, le_bytes, le_round_trip, le_value};

verus! {

// ---- Data region ----

/// `len` bytes at `gpa` lie within the data region.
pub open spec fn in_region(gpa: int, len: int) -> bool {
    DATA_BASE <= gpa && 0 <= len && gpa + len <= DATA_END
}

/// Any allocation that is no larger than the data region lands inside it, from
/// wherever the cursor stands, and so inside guest memory and clear of the
/// rings.
pub proof fn allocations_stay_in_region(cursor: int, len: int)
    requires
        DATA_BASE <= cursor,
        0 <= len <= DATA_END - DATA_BASE,
    ensures
        in_region(data_gpa(cursor, len), len),
        DATA_BASE <= data_next(cursor, len) <= DATA_END < MEM_SIZE,
{
}

/// The number of bytes in a series of allocations.
pub open spec fn total(lens: Seq<nat>) -> nat
    decreases lens.len(),
{
    if lens.len() == 0 {
        0
    } else {
        total(lens.drop_last()) + lens.last()
    }
}

/// Where the cursor stands after a series of allocations.
pub open spec fn cursor_after(cursor: int, lens: Seq<nat>) -> int
    decreases lens.len(),
{
    if lens.len() == 0 {
        cursor
    } else {
        data_next(cursor_after(cursor, lens.drop_last()), lens.last() as int)
    }
}

/// Allocation `i` of a series goes back to the start of the region.
pub open spec fn wraps_at(cursor: int, lens: Seq<nat>, i: int) -> bool {
    cursor_after(cursor, lens.take(i)) + lens[i] > DATA_END
}

/// A series of allocations that asks for more than the room left in the region
/// wraps, so that later buffers alias earlier ones.
pub proof fn exhausting_the_region_wraps(cursor: int, lens: Seq<nat>)
    requires
        cursor <= DATA_END,
        total(lens) > DATA_END - cursor,
    ensures
        exists|i: int| 0 <= i < lens.len() && #[trigger] wraps_at(cursor, lens, i),
{
    if forall|i: int| 0 <= i < lens.len() ==> !#[trigger] wraps_at(cursor, lens, i) {
        without_wrap_cursor_is_total(cursor, lens);
    }
}

proof fn without_wrap_cursor_is_total(cursor: int, lens: Seq<nat>)
    requires
        cursor <= DATA_END,
        forall|i: int| 0 <= i < lens.len() ==> !#[trigger] wraps_at(cursor, lens, i),
    ensures
        cursor_after(cursor, lens) == cursor + total(lens),
        cursor_after(cursor, lens) <= DATA_END,
    decreases lens.len(),
{
    if lens.len() > 0 {
        let front = lens.drop_last();
        assert forall|i: int| 0 <= i < front.len() implies !#[trigger] wraps_at(cursor, front, i) by {
            assert(front.take(i) =~= lens.take(i));
            assert(!wraps_at(cursor, lens, i));
        }
        without_wrap_cursor_is_total(cursor, front);
        assert(lens.take(lens.len() - 1) =~= front);
        assert(!wraps_at(cursor, lens, lens.len() - 1));
    }
}

// ---- Payload ----

/// What a chain may carry: no more than the bound for a chain, no more than the
/// budget, and for GET_ID no more than the identifier. A sector-aligned payload
/// that is not held down by the identifier length or the budget is a whole
/// number of sectors, at least as long as asked for within the chain bound.
pub proof fn payload_is_bounded(spec: ChainSpec, budget: int)
    requires
        0 <= budget,
    ensures
        0 <= payload_bytes(spec, budget) <= MAX_CHAIN_PAYLOAD_BYTES,
        payload_bytes(spec, budget) <= budget,
        spec.req is GetId ==> payload_bytes(spec, budget) <= VIRTIO_BLK_ID_BYTES,
        spec.sector_aligned && !(spec.req is GetId) && payload_bytes(spec, budget) < budget ==> {
            &&& payload_bytes(spec, budget) % SECTOR_SIZE as int == 0
            &&& payload_bytes(spec, budget) >= at_most(
                spec.payload_len as int,
                MAX_CHAIN_PAYLOAD_BYTES as int,
            )
        },
{
}

/// The number of bytes that the first `n` fragments of a payload hold.
pub open spec fn frag_total(payload: int, count: int, n: int) -> int
    decreases n,
{
    if n <= 0 {
        0
    } else {
        frag_total(payload, count, n - 1) + frag_len(payload, count, n - 1)
    }
}

/// The fragments of a payload hold it exactly, however it is split.
pub proof fn fragments_hold_the_payload(spec: ChainSpec, payload: int)
    requires
        0 <= payload,
    ensures
        frag_total(payload, frag_count(spec, payload), frag_count(spec, payload)) == payload,
        forall|i: int|
            0 <= i < frag_count(spec, payload) ==> 0 <= #[trigger] frag_len(
                payload,
                frag_count(spec, payload),
                i,
            ) <= payload,
{
    let count = frag_count(spec, payload);
    reveal_with_fuel(frag_total, 5);
    assert(count == 0 || count == 1 || count == 2 || count == 3 || count == 4);
    if count > 0 {
        assert forall|i: int| 0 <= i < count implies 0 <= #[trigger] frag_len(payload, count, i)
            <= payload by {
            frag_len_bounds(payload, count, i);
        }
    }
}

proof fn frag_len_bounds(payload: int, count: int, i: int)
    requires
        0 <= payload,
        1 <= count <= 4,
        0 <= i < count,
    ensures
        0 <= frag_len(payload, count, i) <= payload,
{
    assert(count == 1 || count == 2 || count == 3 || count == 4);
}

// ---- Chain ----

/// The data cursor stays inside the region while a payload is laid out.
proof fn frag_cursor_stays_in_region(cursor: int, payload: int, count: int, gap: bool, i: int)
    requires
        DATA_BASE <= cursor <= DATA_END,
        0 <= payload <= MAX_CHAIN_PAYLOAD_BYTES,
        0 <= i <= count <= 4,
    ensures
        DATA_BASE <= frag_cursor(cursor, payload, count, gap, i) <= DATA_END,
    decreases i,
{
    if i > 0 {
        frag_cursor_stays_in_region(cursor, payload, count, gap, i - 1);
        frag_len_bounds(payload, count, i - 1);
    }
}

/// Every byte of guest memory that a chain has written, and every buffer it
/// hands to the device, lies in the data region. The one exception is the last
/// buffer of a chain with the bad-address mutation, which starts outside guest
/// memory.
pub proof fn chains_stay_in_region(layout: ChainLayout)
    requires
        DATA_BASE <= layout.cursor,
        0 <= layout.budget,
    ensures
        in_region(layout.header_gpa(), header_len(layout.spec.req)),
        forall|i: int|
            0 <= i < layout.fills(layout.frags()).len() ==> in_region(
                (#[trigger] layout.fills(layout.frags())[i]).gpa as int,
                layout.fills(layout.frags())[i].len as int,
            ),
        layout.status_gpa() is Some ==> in_region(layout.status_gpa()->Some_0 as int, 1),
        DATA_BASE <= layout.end_cursor() <= DATA_END,
        forall|i: int|
            0 <= i < layout.buffers().len() && !(layout.spec.bad_gpa && i + 1
                == layout.buffers().len()) ==> in_region(
                (#[trigger] layout.buffers()[i]).gpa as int,
                layout.buffers()[i].len as int,
            ),
        layout.spec.bad_gpa ==> layout.buffers().last().gpa == BAD_GPA >= MEM_SIZE,
{
    let payload = layout.payload();
    let count = layout.frags();
    let after_header = layout.header_end();
    payload_is_bounded(layout.spec, layout.budget);
    allocations_stay_in_region(layout.cursor, header_len(layout.spec.req));
    assert forall|i: int| 0 <= i <= count implies DATA_BASE <= #[trigger] layout.cursor_at(i)
        <= DATA_END by {
        frag_cursor_stays_in_region(after_header, payload, count, layout.spec.gap_between_frags, i);
    }
    assert forall|i: int| 0 <= i < count implies in_region(
        (#[trigger] layout.frag_buffer(i)).gpa as int,
        layout.frag_buffer(i).len as int,
    ) by {
        assert(DATA_BASE <= layout.cursor_at(i) <= DATA_END);
        frag_len_bounds(payload, count, i);
    }
    assert(DATA_BASE <= layout.cursor_at(count) <= DATA_END);
    fills_stay_in_region(layout, count);
    let sound = layout.sound_buffers();
    assert(sound.len() >= 1);
    assert forall|i: int| 0 <= i < sound.len() implies in_region(
        (#[trigger] sound[i]).gpa as int,
        sound[i].len as int,
    ) by {
        if layout.zero_before_payload() {
            if i >= 2 {
                assert(sound[i] == layout.frag_buffer(i - 2));
            }
        } else if 1 <= i <= count {
            assert(sound[i] == layout.frag_buffer(i - 1));
        }
    }
}

/// The inserted zero-length buffer is in the middle of the chain, neither first
/// nor last, whenever the chain has a payload or a status buffer. Only a chain
/// that is nothing but a header has no middle to insert it into.
pub proof fn zero_length_buffer_is_in_the_middle(layout: ChainLayout)
    requires
        0 <= layout.budget,
        layout.spec.zero_len_desc,
        layout.payload() > 0 || !layout.spec.omit_status,
    ensures
        0 < layout.zero_index() < layout.buffers().len() - 1,
        layout.buffers()[layout.zero_index()] == layout.zero_buffers()[0],
        layout.buffers()[layout.zero_index()].len == 0,
{
}

proof fn fills_stay_in_region(layout: ChainLayout, n: int)
    requires
        forall|i: int|
            0 <= i < n ==> in_region(
                (#[trigger] layout.frag_buffer(i)).gpa as int,
                layout.frag_buffer(i).len as int,
            ),
    ensures
        forall|i: int|
            0 <= i < layout.fills(n).len() ==> in_region(
                (#[trigger] layout.fills(n)[i]).gpa as int,
                layout.fills(n)[i].len as int,
            ),
    decreases n,
{
    if n > 0 {
        fills_stay_in_region(layout, n - 1);
        assert(in_region(
            layout.frag_buffer(n - 1).gpa as int,
            layout.frag_buffer(n - 1).len as int,
        ));
        let before = layout.fills(n - 1);
        assert forall|i: int| 0 <= i < layout.fills(n).len() implies in_region(
            (#[trigger] layout.fills(n)[i]).gpa as int,
            layout.fills(n)[i].len as int,
        ) by {
            if i < before.len() {
                assert(layout.fills(n)[i] == before[i]);
            }
        }
    }
}

/// A chain has a header, its fragments, and what the mutations leave of the
/// zero-length and status buffers: never more than the bound.
pub proof fn chains_are_short(layout: ChainLayout)
    requires
        0 <= layout.budget,
    ensures
        layout.buffers().len() == 1 + layout.frags() + (if layout.spec.zero_len_desc {
            1int
        } else {
            0
        }) + (if layout.spec.omit_status {
            0int
        } else {
            1
        }),
        1 <= layout.buffers().len() <= MAX_DESCS_PER_CHAIN,
{
    let count = layout.frags();
    assert(0 <= count <= 4);
    assert(layout.frag_buffers(count).len() == count);
    assert(layout.buffers().len() == layout.sound_buffers().len());
}

/// The descriptors of a chain fill consecutive slots of the table. Each one but
/// the last is flagged as linked and names the slot of the one after it; the
/// last is not flagged; only the first may be indirect.
pub proof fn chains_are_linked(buffers: Seq<Buffer>, next_desc: int, indirect: bool)
    requires
        0 <= next_desc <= QUEUE_SIZE,
        1 <= buffers.len() <= MAX_DESCS_PER_CHAIN,
    ensures
        ({
            let head = chain_head(next_desc, buffers.len() as int);
            let descriptors = chain_descriptors(buffers, head, indirect);
            &&& descriptors.len() == buffers.len()
            &&& descriptors[0].index == head
            &&& descriptors[0].flags.indirect == indirect
            &&& forall|i: int|
                0 <= i < descriptors.len() ==> {
                    &&& (#[trigger] descriptors[i]).index < QUEUE_SIZE
                    &&& descriptors[i].index == head + i
                    &&& descriptors[i].flags.next == (i + 1 < descriptors.len())
                    &&& descriptors[i].flags.next ==> descriptors[i].next == descriptors[i + 1].index
                    &&& i > 0 ==> !descriptors[i].flags.indirect
                    &&& descriptors[i].gpa == buffers[i].gpa
                    &&& descriptors[i].len == buffers[i].len
                    &&& descriptors[i].flags.write == buffers[i].writable
                }
        }),
{
}

/// What a device reads from a header is the request: its type, its sector, and
/// for a discard the segment to discard.
pub proof fn headers_read_back(req: ReqSpec)
    ensures
        header_bytes(req).len() == header_len(req),
        le_value(header_bytes(req).subrange(0, 4)) == request_type(req),
        le_value(header_bytes(req).subrange(4, 8)) == 0,
        le_value(header_bytes(req).subrange(8, 16)) == header_sector(req),
        req matches ReqSpec::Discard { sector, num_sectors, flags } ==> {
            &&& le_value(header_bytes(req).subrange(16, 24)) == sector_of(sector)
            &&& le_value(header_bytes(req).subrange(24, 28)) == num_sectors
            &&& le_value(header_bytes(req).subrange(28, 32)) == flags
        },
{
    reveal_with_fuel(byte_range, 9);
    let bytes = header_bytes(req);
    let kind = le_bytes(request_type(req) as nat, 4);
    let reserved = le_bytes(0, 4);
    let position = le_bytes(header_sector(req) as nat, 8);
    le_round_trip(request_type(req) as nat, 4);
    le_round_trip(0, 4);
    le_round_trip(header_sector(req) as nat, 8);
    assert(bytes.subrange(0, 4) =~= kind);
    assert(bytes.subrange(4, 8) =~= reserved);
    assert(bytes.subrange(8, 16) =~= position);
    if let ReqSpec::Discard { sector, num_sectors, flags } = req {
        le_round_trip(sector_of(sector) as nat, 8);
        le_round_trip(num_sectors as nat, 4);
        le_round_trip(flags as nat, 4);
        assert(bytes.subrange(16, 24) =~= le_bytes(sector_of(sector) as nat, 8));
        assert(bytes.subrange(24, 28) =~= le_bytes(num_sectors as nat, 4));
        assert(bytes.subrange(28, 32) =~= le_bytes(flags as nat, 4));
    }
}

// ---- Run ----

/// Everything that moves a run on.
pub enum Move<S> {
    /// Another action is due.
    ActionDue,
    /// An action is decided on.
    Apply(Action),
    /// The device is let run.
    Yield,
    /// The used ring held this many completions.
    Drain(nat),
    /// A stopped queue handed back its state.
    QueueStopped(Option<S>),
    /// A chain was made available, which moved the available-ring index.
    Published(u16),
    /// The used ring was read, which moved the used-ring index.
    Read(u16),
    /// Teardown is decided on.
    Teardown,
}

/// State after one move.
pub open spec fn after_move<S>(harness: Harness<S>, step: Move<S>) -> Harness<S> {
    match step {
        Move::ActionDue => if harness.actions_taken < MAX_ACTIONS {
            harness.after_action_due()
        } else {
            harness
        },
        Move::Apply(action) => harness.after_action(action),
        Move::Yield => harness.after_yield(),
        Move::Drain(entries) => harness.after_drain(entries),
        Move::QueueStopped(state) => harness.after_queue_stopped(state),
        Move::Published(avail_idx) => Harness { avail_idx, ..harness },
        Move::Read(used_idx) => Harness { used_idx, ..harness },
        Move::Teardown => harness.after_teardown(),
    }
}

/// State after a series of moves.
pub open spec fn after_moves<S>(harness: Harness<S>, moves: Seq<Move<S>>) -> Harness<S>
    decreases moves.len(),
{
    if moves.len() == 0 {
        harness
    } else {
        after_move(after_moves(harness, moves.drop_last()), moves.last())
    }
}

/// Payload bytes that one move describes.
pub open spec fn move_payload<S>(harness: Harness<S>, step: Move<S>) -> int {
    match step {
        Move::Apply(Action::Submit(spec)) => if harness.chains_submitted >= MAX_CHAINS {
            0
        } else {
            harness.layout(spec).payload()
        },
        _ => 0,
    }
}

/// Payload bytes that a series of moves describes.
pub open spec fn moves_payload<S>(harness: Harness<S>, moves: Seq<Move<S>>) -> int
    decreases moves.len(),
{
    if moves.len() == 0 {
        0
    } else {
        moves_payload(harness, moves.drop_last()) + move_payload(
            after_moves(harness, moves.drop_last()),
            moves.last(),
        )
    }
}

proof fn moves_keep_bounds<S>(harness: Harness<S>, step: Move<S>)
    requires
        harness.wf(),
    ensures
        after_move(harness, step).wf(),
        after_move(harness, step).features == harness.features,
        after_move(harness, step).payload_budget + move_payload(harness, step)
            == harness.payload_budget,
{
    if let Move::Apply(Action::Submit(spec)) = step {
        let layout = harness.layout(spec);
        payload_is_bounded(spec, harness.payload_budget as int);
        chains_are_short(layout);
        chains_stay_in_region(layout);
    }
}

/// Whatever an input does, and whatever the device answers, the bounds of a run
/// hold: on chains, completions, yields, actions, descriptor slots and payload.
/// The negotiated features stay what they were. The payload bytes described by
/// all chains together are exactly what the budget lost, so never more than it
/// started with.
pub proof fn runs_stay_in_bounds<S>(harness: Harness<S>, moves: Seq<Move<S>>)
    requires
        harness.wf(),
    ensures
        after_moves(harness, moves).wf(),
        after_moves(harness, moves).features == harness.features,
        moves_payload(harness, moves) + after_moves(harness, moves).payload_budget
            == harness.payload_budget,
        moves_payload(harness, moves) <= MAX_TOTAL_PAYLOAD_BYTES,
    decreases moves.len(),
{
    if moves.len() > 0 {
        runs_stay_in_bounds(harness, moves.drop_last());
        moves_keep_bounds(after_moves(harness, moves.drop_last()), moves.last());
    }
}

/// Actions that a series of moves decides on.
pub open spec fn actions_applied<S>(moves: Seq<Move<S>>) -> int
    decreases moves.len(),
{
    if moves.len() == 0 {
        0
    } else {
        actions_applied(moves.drop_last()) + if moves.last() is Apply {
            1int
        } else {
            0
        }
    }
}

/// Teardowns that a series of moves decides on.
pub open spec fn teardowns<S>(moves: Seq<Move<S>>) -> int
    decreases moves.len(),
{
    if moves.len() == 0 {
        0
    } else {
        teardowns(moves.drop_last()) + if moves.last() is Teardown {
            1int
        } else {
            0
        }
    }
}

/// Yield steps that a series of moves asks for: one per `Yield` action, and
/// those of teardown.
pub open spec fn yields_asked<S>(moves: Seq<Move<S>>) -> int
    decreases moves.len(),
{
    if moves.len() == 0 {
        0
    } else {
        yields_asked(moves.drop_last()) + match moves.last() {
            Move::Apply(Action::Yield) => 1int,
            Move::Teardown => TEARDOWN_YIELDS as int,
            _ => 0,
        }
    }
}

/// Yield steps that a series of moves carries out.
pub open spec fn yields_tried<S>(moves: Seq<Move<S>>) -> int
    decreases moves.len(),
{
    if moves.len() == 0 {
        0
    } else {
        yields_tried(moves.drop_last()) + if moves.last() is Yield {
            1int
        } else {
            0
        }
    }
}

/// How often a series of moves lets the device run.
pub open spec fn yields_granted<S>(harness: Harness<S>, moves: Seq<Move<S>>) -> int
    decreases moves.len(),
{
    if moves.len() == 0 {
        0
    } else {
        let before = after_moves(harness, moves.drop_last());
        yields_granted(harness, moves.drop_last()) + if moves.last() is Yield && before.yields_used
            < MAX_YIELDS {
            1int
        } else {
            0
        }
    }
}

proof fn yields_are_counted<S>(harness: Harness<S>, moves: Seq<Move<S>>)
    requires
        harness.wf(),
    ensures
        0 <= yields_granted(harness, moves) <= yields_tried(moves),
        yields_asked(moves) <= actions_applied(moves) + TEARDOWN_YIELDS * teardowns(moves),
    decreases moves.len(),
{
    if moves.len() > 0 {
        yields_are_counted(harness, moves.drop_last());
    }
}

/// One input lets the device run at most once per action and, at teardown, as
/// often as set aside for it: fewer times than the bound on yields, although
/// teardown gives some of them back. In such a run every action was due before
/// it was decided on, every yield carries out a step that asked for one, and
/// teardown comes once.
pub proof fn yields_stay_in_bounds<S>(harness: Harness<S>, moves: Seq<Move<S>>)
    requires
        harness.wf(),
        actions_applied(moves) <= after_moves(harness, moves).actions_taken - harness.actions_taken,
        yields_tried(moves) <= yields_asked(moves),
        teardowns(moves) <= 1,
    ensures
        yields_granted(harness, moves) <= MAX_ACTIONS + TEARDOWN_YIELDS,
        yields_granted(harness, moves) <= MAX_YIELDS,
{
    yields_are_counted(harness, moves);
    runs_stay_in_bounds(harness, moves);
}

/// Teardown gets all the yields set aside for it, even if the actions used up
/// the whole budget.
pub proof fn teardown_can_always_yield<S>(harness: Harness<S>)
    requires
        harness.wf(),
    ensures
        harness.after_teardown().yields_used + TEARDOWN_YIELDS <= MAX_YIELDS,
{
}

/// A queue that is stopped with a state and restarted from it is handed that
/// state back, with the rings left alone. The state is used up.
pub proof fn saved_state_comes_back<S>(harness: Harness<S>, state: S)
    requires
        harness.wf(),
        harness.started,
    ensures
        ({
            let stopped = harness.after_action(Action::StopQueue).after_queue_stopped(Some(state));
            let restart = Action::Restart { use_saved_state: true };
            &&& stopped.action_steps(restart) == seq![Step::StartQueue { initial: Some(state) }]
            &&& stopped.after_action(restart) == (Harness { saved_state: None, ..harness })
        }),
{
}

/// A reset forgets the saved state: the restart that follows is a fresh one,
/// with both ring indices at zero, whatever it asks for.
pub proof fn reset_forgets_saved_state<S>(harness: Harness<S>, use_saved_state: bool)
    requires
        harness.wf(),
    ensures
        ({
            let reset = harness.after_action(Action::Reset);
            let restart = Action::Restart { use_saved_state };
            &&& !reset.started
            &&& reset.action_steps(restart) == seq![
                Step::InitRings,
                Step::StartQueue { initial: None::<S> },
            ]
            &&& reset.after_action(restart) == (Harness {
                started: true,
                saved_state: None,
                avail_idx: 0,
                used_idx: 0,
                ..harness
            })
        }),
{
}

/// Every action that resets the device stops a running queue first.
pub proof fn queues_stop_before_reset<S>(harness: Harness<S>)
    requires
        harness.wf(),
    ensures
        harness.action_steps(Action::Reset).last() == Step::<S>::ResetDevice,
        harness.started ==> harness.action_steps(Action::Reset)[0] == (Step::<S>::StopQueue {
            keep_state: false,
        }),
{
}

/// A running queue is not started a second time.
pub proof fn running_queue_is_not_restarted<S>(harness: Harness<S>, initial: Option<S>)
    requires
        harness.wf(),
    ensures
        harness.after_start(initial).start_steps(initial).len() == 0,
        harness.after_start(initial).after_start(initial) == harness.after_start(initial),
{
}

} // verus!
