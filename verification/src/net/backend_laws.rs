//! What holds of the network backend, whatever the device and the fuzzer do.

use vstd::prelude::*;

use super::backend::{
    checksum_of, delivery, packet_at, packet_ids, packets_end, released, usable_ends_at_first_gap,
    BackendOp, RxChecksumState, RxDelivery, RxId, RxInject, SharedView, TxId, TxPollError,
    TxSegment,
};

verus! {

// ---- Readiness ----

/// A ready queue gives a poll something to consume: the transmit poll reports
/// the armed error or at least one id, or the receive poll takes at least one
/// packet off the queue.
pub proof fn ready_queue_makes_progress<W>(
    shared: SharedView<W>,
    slots: nat,
    capacities: Seq<u32>,
)
    requires
        shared.is_ready(),
        slots >= 1,
        shared.rx_pending.len() > 0 ==> 1 <= capacities.len() <= shared.rx_pending.len(),
    ensures
        ({
            ||| shared.tx_outcome(slots) is Err && shared.after_tx_poll(slots).tx_poll_error is None
            ||| shared.tx_outcome(slots) matches Ok(ids) && ids.len() >= 1 && shared.after_tx_poll(
                slots,
            ).tx_done.len() == shared.tx_done.len() - ids.len()
            ||| shared.after_rx_poll(capacities).rx_inject.len() < shared.rx_inject.len()
        }),
{
    usable_ends_at_first_gap(capacities);
}

/// A queue that is not ready has nothing to consume: neither poll gives
/// anything, and neither changes it.
pub proof fn idle_queue_gives_nothing<W>(
    shared: SharedView<W>,
    slots: nat,
    capacities: Seq<u32>,
)
    requires
        !shared.is_ready(),
        capacities.len() <= shared.rx_pending.len(),
    ensures
        shared.tx_outcome(slots) == Ok::<Seq<TxId>, TxPollError>(Seq::empty()),
        shared.after_tx_poll(slots) == shared,
        shared.rx_packets(capacities) == Seq::<RxDelivery>::empty(),
        shared.after_rx_poll(capacities) == shared,
{
    usable_ends_at_first_gap(capacities);
    assert(shared.tx_done =~= Seq::empty());
    assert(shared.tx_done.take(0) =~= Seq::empty());
    assert(shared.after_tx_poll(slots) =~= shared);
    assert(shared.after_rx_poll(capacities) =~= shared);
}

/// A failure is reported by the poll after it is armed, in the kind asked for,
/// and only by that one. No finished transmit is lost to it.
pub proof fn failure_is_reported_once<W>(shared: SharedView<W>, fatal: bool, slots: nat, next: nat)
    ensures
        ({
            let armed = shared.after_op(BackendOp::FailTxPoll { fatal });
            &&& armed.tx_outcome(slots) == Err::<Seq<TxId>, TxPollError>(
                if fatal {
                    TxPollError::Fatal
                } else {
                    TxPollError::TryRestart
                },
            )
            &&& armed.after_tx_poll(slots).tx_outcome(next) is Ok
            &&& armed.after_tx_poll(slots).tx_done == shared.tx_done
        }),
{
}

// ---- Whole packets ----

/// A transmit call consumes whole packets: it ends where some number of packets
/// ends, no more than the limit, and it stops short of the limit only where no
/// whole packet follows.
pub proof fn only_whole_packets_are_consumed(segments: Seq<TxSegment>, from: int, limit: int)
    requires
        0 <= from <= segments.len(),
        0 <= limit,
    ensures
        ({
            let taken = packet_ids(segments, from, limit).len() as int;
            let end = packets_end(segments, from, limit);
            &&& taken <= limit
            &&& from <= end <= segments.len()
            &&& packets_end(segments, from, taken) == end
            &&& packet_ids(segments, from, taken) == packet_ids(segments, from, limit)
            &&& taken < limit ==> packet_at(segments, end) is None
        }),
    decreases limit,
{
    if limit > 0 {
        if let Some((id, count)) = packet_at(segments, from) {
            only_whole_packets_are_consumed(segments, from + count, limit - 1);
        }
    }
}

/// A backend that may consume a packet consumes one whenever a whole packet is
/// offered, so that transmission is never wedged.
pub proof fn transmission_is_never_wedged<W>(shared: SharedView<W>, segments: Seq<TxSegment>)
    requires
        shared.wf(),
        packet_at(segments, 0) is Some,
    ensures
        packets_end(segments, 0, shared.tx_max_packets as int) > 0,
        packet_ids(segments, 0, shared.tx_max_packets as int).len() > 0,
{
    let (id, count) = packet_at(segments, 0)->Some_0;
    only_whole_packets_are_consumed(segments, count, shared.tx_max_packets - 1);
}

/// A whole packet starts at segment `i`, as the segments themselves tell: a head
/// whose packet has segments, all of which are there.
pub open spec fn starts_whole_packet(segments: Seq<TxSegment>, i: int) -> bool {
    &&& 0 <= i < segments.len()
    &&& segments[i] matches TxSegment::Head { segment_count, .. } && 1 <= segment_count
        <= segments.len() - i
}

/// Whole packets are recognized where they start, with the id and the number of
/// segments that the head names, however many they are; nothing else is.
pub proof fn whole_packets_are_recognized(segments: Seq<TxSegment>, i: int)
    ensures
        match packet_at(segments, i) {
            Some((id, count)) => {
                &&& starts_whole_packet(segments, i)
                &&& segments[i]->id == id
                &&& segments[i]->segment_count == count
            },
            None => !starts_whole_packet(segments, i),
        },
{
}

/// Segments `bounds[0]`, `bounds[1]` and so on each start a whole packet that
/// ends where the next one starts.
pub open spec fn packets_in_a_row(segments: Seq<TxSegment>, bounds: Seq<int>) -> bool {
    forall|k: int|
        0 <= k < bounds.len() - 1 ==> starts_whole_packet(segments, #[trigger] bounds[k])
            && bounds[k + 1] == bounds[k] + segments[bounds[k]]->segment_count
}

/// Packets in a row are consumed up to the limit, all of them, and their ids
/// recorded in order: consumption ends at the limit, or where no whole packet
/// starts.
pub proof fn packets_in_a_row_are_consumed(segments: Seq<TxSegment>, bounds: Seq<int>, limit: int)
    requires
        bounds.len() >= 1,
        packets_in_a_row(segments, bounds),
        bounds.len() - 1 <= limit,
        bounds.len() - 1 == limit || !starts_whole_packet(segments, bounds.last()),
    ensures
        packets_end(segments, bounds[0], limit) == bounds.last(),
        packet_ids(segments, bounds[0], limit).len() == bounds.len() - 1,
        forall|k: int|
            0 <= k < bounds.len() - 1 ==> #[trigger] packet_ids(segments, bounds[0], limit)[k]
                == segments[bounds[k]]->id,
    decreases bounds.len(),
{
    whole_packets_are_recognized(segments, bounds[0]);
    if bounds.len() > 1 {
        let rest = bounds.skip(1);
        assert(starts_whole_packet(segments, bounds[0]));
        assert forall|k: int| 0 <= k < rest.len() - 1 implies starts_whole_packet(
            segments,
            #[trigger] rest[k],
        ) && rest[k + 1] == rest[k] + segments[rest[k]]->segment_count by {
            assert(rest[k] == bounds[k + 1]);
        }
        packets_in_a_row_are_consumed(segments, rest, limit - 1);
        assert(rest[0] == bounds[1]);
        let ids = packet_ids(segments, bounds[0], limit);
        let others = packet_ids(segments, rest[0], limit - 1);
        assert(ids =~= seq![segments[bounds[0]]->id] + others);
        assert forall|k: int| 0 <= k < bounds.len() - 1 implies #[trigger] ids[k]
            == segments[bounds[k]]->id by {
            if k > 0 {
                assert(ids[k] == others[k - 1]);
                assert(rest[k - 1] == bounds[k]);
            }
        }
    }
}

/// A transmit call takes at least the first packet offered, if that is whole and
/// the backend takes packets at all.
pub proof fn first_whole_packet_is_taken<W>(shared: SharedView<W>, segments: Seq<TxSegment>)
    requires
        shared.tx_max_packets >= 1,
        starts_whole_packet(segments, 0),
    ensures
        packets_end(segments, 0, shared.tx_max_packets as int) >= segments[0]->segment_count,
        packet_ids(segments, 0, shared.tx_max_packets as int)[0] == segments[0]->id,
{
    whole_packets_are_recognized(segments, 0);
    only_whole_packets_are_consumed(
        segments,
        segments[0]->segment_count as int,
        shared.tx_max_packets - 1,
    );
}

/// Taking packets records their ids behind those in flight if they complete
/// later, and records nothing if they complete on the spot. Nothing else
/// changes.
pub proof fn taken_packets_are_recorded<W>(shared: SharedView<W>, segments: Seq<TxSegment>)
    ensures
        shared.tx_sync ==> shared.after_tx_avail(segments) == shared,
        !shared.tx_sync ==> shared.after_tx_avail(segments) == (SharedView {
            tx_inflight: shared.tx_inflight + packet_ids(
                segments,
                0,
                shared.tx_max_packets as int,
            ),
            ..shared
        }),
{
}

/// A poll without an armed failure hands out transmits from the front of those
/// finished, as many as there is room for and are there, and keeps the rest. A
/// poll with one hands out the failure, and disarms it.
pub proof fn finished_transmits_are_handed_out<W>(shared: SharedView<W>, slots: nat)
    ensures
        ({
            let after = shared.after_tx_poll(slots);
            match shared.tx_poll_error {
                None => {
                    &&& shared.tx_outcome(slots) matches Ok(ids) && {
                        &&& ids + after.tx_done == shared.tx_done
                        &&& ids.len() <= slots
                        &&& ids.len() < slots ==> after.tx_done.len() == 0
                    }
                    &&& after == (SharedView { tx_done: after.tx_done, ..shared })
                },
                Some(fatal) => {
                    &&& shared.tx_outcome(slots) matches Err(error) && (error == TxPollError::Fatal
                        <==> fatal)
                    &&& after == (SharedView { tx_poll_error: None, ..shared })
                },
            }
        }),
{
    if shared.tx_poll_error is None {
        let after = shared.after_tx_poll(slots);
        assert(shared.tx_outcome(slots)->Ok_0 + after.tx_done =~= shared.tx_done);
    }
}

// ---- Requests ----

/// A packet request is queued behind the others, unless 64 are waiting; then it
/// is dropped.
pub proof fn packet_requests_are_queued<W>(shared: SharedView<W>, inject: RxInject)
    ensures
        shared.rx_inject.len() < 64 ==> shared.after_op(BackendOp::Inject(inject)) == (SharedView {
            rx_inject: shared.rx_inject.push(inject),
            ..shared
        }),
        shared.rx_inject.len() >= 64 ==> shared.after_op(BackendOp::Inject(inject)) == shared,
{
}

/// A release moves transmits from the front of those in flight behind those
/// finished, in order: as many as asked for, which is at most eight and what the
/// count leaves when taken by nines, or all if fewer are in flight.
pub proof fn releases_move_transmits<W>(shared: SharedView<W>, count: u8)
    ensures
        ({
            let after = shared.after_op(BackendOp::CompleteTx { count });
            let moved = shared.tx_inflight.len() - after.tx_inflight.len();
            &&& 0 <= moved <= 8
            &&& moved == count % 9 || moved == shared.tx_inflight.len() < count % 9
            &&& after.tx_inflight == shared.tx_inflight.skip(moved)
            &&& after.tx_done == shared.tx_done + shared.tx_inflight.take(moved)
            &&& after == (SharedView {
                tx_inflight: after.tx_inflight,
                tx_done: after.tx_done,
                ..shared
            })
        }),
{
}

/// A mode request sets the mode, and a failure request arms the failure; both
/// leave everything else as it was.
pub proof fn modes_and_failures_are_set<W>(
    shared: SharedView<W>,
    sync: bool,
    max_packets: usize,
    fatal: bool,
)
    ensures
        shared.after_op(BackendOp::SetTxMode { sync, max_packets }) == (SharedView {
            tx_sync: sync,
            tx_max_packets: max_packets,
            ..shared
        }),
        shared.after_op(BackendOp::FailTxPoll { fatal }) == (SharedView {
            tx_poll_error: Some(fatal),
            ..shared
        }),
{
}

/// A fresh queue has nothing waiting, completes on the spot, takes any number of
/// packets, and has no failure armed and no task asleep.
pub proof fn fresh_queues_are_empty<W>()
    ensures
        ({
            let fresh = SharedView::<W>::fresh();
            &&& fresh.rx_pending.len() == 0 && fresh.rx_inject.len() == 0
            &&& fresh.tx_inflight.len() == 0 && fresh.tx_done.len() == 0
            &&& fresh.tx_sync && fresh.tx_max_packets == usize::MAX
            &&& fresh.tx_poll_error is None && fresh.waker is None
        }),
{
}

/// A queue is ready exactly if a failure is armed, a transmit is finished, or
/// there are both a packet and a buffer.
pub proof fn readiness_is_exact<W>(shared: SharedView<W>)
    ensures
        shared.is_ready() <==> {
            ||| shared.tx_poll_error is Some
            ||| shared.tx_done.len() > 0
            ||| shared.rx_inject.len() > 0 && shared.rx_pending.len() > 0
        },
{
}

/// Fuzz bytes that leave the same remainder by four give the same checksum
/// state, and the four remainders give the four states.
pub proof fn checksum_states_follow_the_remainder(v: u8)
    ensures
        checksum_of(v) == RxChecksumState::Unknown <==> v % 4 == 0,
        checksum_of(v) == RxChecksumState::Good <==> v % 4 == 1,
        checksum_of(v) == RxChecksumState::Bad <==> v % 4 == 2,
        checksum_of(v) == RxChecksumState::ValidatedButWrong <==> v % 4 == 3,
{
}

// ---- Received packets ----

/// Posted buffers queue up behind those waiting, and nothing else changes.
pub proof fn posted_buffers_queue_up<W>(shared: SharedView<W>, done: Seq<RxId>)
    ensures
        shared.after_rx_avail(done) == (SharedView {
            rx_pending: shared.rx_pending + done,
            ..shared
        }),
{
}

/// A packet is delivered as it was asked for: into the buffer given, at the
/// length asked for if the buffer has room for it, cut to the buffer if not, and
/// with one byte if none was asked for. It carries the checksum states asked
/// for, consists of the fill byte, and is cut in the middle if it is to go in
/// two pieces and has two bytes.
pub proof fn packets_are_delivered_as_asked_for(inject: RxInject, id: RxId, capacity: u32)
    requires
        capacity > 0,
    ensures
        ({
            let packet = delivery(inject, id, capacity);
            &&& packet.id == id
            &&& 1 <= inject.len <= capacity ==> packet.len == inject.len
            &&& inject.len > capacity ==> packet.len == capacity
            &&& inject.len == 0 ==> packet.len == 1
            &&& packet.fill == 0xa5
            &&& packet.ip_checksum == inject.ip_checksum
            &&& packet.l4_checksum == inject.l4_checksum
            &&& match packet.split {
                Some(cut) => inject.segmented && 1 <= cut && (packet.len == 2 * cut || packet.len
                    == 2 * cut + 1),
                None => !inject.segmented || packet.len == 1,
            }
        }),
{
}

/// A receive poll delivers packet `i` into buffer `i` as it was asked for, for
/// all buffers up to the first without room and as long as there are packets. It
/// takes those buffers and packets off their queues, and all other packets too if
/// a buffer without room is in their way. Nothing else changes.
pub proof fn rx_poll_delivers_what_was_asked_for<W>(shared: SharedView<W>, capacities: Seq<u32>)
    requires
        capacities.len() <= shared.rx_pending.len(),
    ensures
        ({
            let packets = shared.rx_packets(capacities);
            let after = shared.after_rx_poll(capacities);
            let n = packets.len() as int;
            &&& n <= capacities.len() && n <= shared.rx_inject.len()
            &&& n < capacities.len() && n < shared.rx_inject.len() ==> capacities[n] == 0
            &&& forall|i: int|
                0 <= i < n ==> {
                    let asked = shared.rx_inject[i];
                    &&& capacities[i] > 0
                    &&& (#[trigger] packets[i]).id == shared.rx_pending[i]
                    &&& 1 <= asked.len <= capacities[i] ==> packets[i].len == asked.len
                    &&& asked.len > capacities[i] ==> packets[i].len == capacities[i]
                    &&& asked.len == 0 ==> packets[i].len == 1
                    &&& packets[i] == delivery(asked, shared.rx_pending[i], capacities[i])
                }
            &&& after.rx_pending == shared.rx_pending.skip(n)
            &&& n == capacities.len() ==> after.rx_inject == shared.rx_inject.skip(n)
            &&& n < capacities.len() ==> after.rx_inject.len() == 0
            &&& after == (SharedView {
                rx_pending: after.rx_pending,
                rx_inject: after.rx_inject,
                ..shared
            })
        }),
{
    usable_ends_at_first_gap(capacities);
    let packets = shared.rx_packets(capacities);
    assert forall|i: int| 0 <= i < packets.len() implies {
        let asked = shared.rx_inject[i];
        &&& capacities[i] > 0
        &&& (#[trigger] packets[i]).id == shared.rx_pending[i]
        &&& 1 <= asked.len <= capacities[i] ==> packets[i].len == asked.len
        &&& asked.len > capacities[i] ==> packets[i].len == capacities[i]
        &&& asked.len == 0 ==> packets[i].len == 1
        &&& packets[i] == delivery(asked, shared.rx_pending[i], capacities[i])
    } by {
        packets_are_delivered_as_asked_for(
            shared.rx_inject[i],
            shared.rx_pending[i],
            capacities[i],
        );
    }
}

/// A delivered packet has at least one byte and fits its buffer, and a packet
/// in two pieces has two non-empty ones.
pub proof fn delivered_packets_fit(inject: RxInject, id: RxId, capacity: u32)
    requires
        capacity > 0,
    ensures
        1 <= delivery(inject, id, capacity).len <= capacity,
        inject.len > capacity ==> delivery(inject, id, capacity).len == capacity,
        delivery(inject, id, capacity).split matches Some(cut) ==> 0 < cut < delivery(
            inject,
            id,
            capacity,
        ).len,
        delivery(inject, id, capacity).split is Some <==> inject.segmented && delivery(
            inject,
            id,
            capacity,
        ).len >= 2,
{
}

/// A receive poll fills posted buffers in order, each with the packet at the
/// same place in the queue of packets, and never with more than it holds. It
/// stops only for want of buffers or packets, or at a buffer without room, which
/// stays posted.
pub proof fn rx_poll_fills_buffers_in_order<W>(shared: SharedView<W>, capacities: Seq<u32>)
    requires
        capacities.len() <= shared.rx_pending.len(),
    ensures
        ({
            let packets = shared.rx_packets(capacities);
            let after = shared.after_rx_poll(capacities);
            let filled = packets.len() as int;
            &&& filled <= capacities.len() && filled <= shared.rx_inject.len()
            &&& forall|i: int|
                0 <= i < filled ==> (#[trigger] packets[i]).id == shared.rx_pending[i] && 1
                    <= packets[i].len <= capacities[i]
            &&& after.rx_pending == shared.rx_pending.skip(filled)
            &&& filled == capacities.len() || filled == shared.rx_inject.len() || capacities[filled]
                == 0
            &&& filled < capacities.len() ==> after.rx_inject.len() == 0
        }),
{
    usable_ends_at_first_gap(capacities);
}

// ---- Conservation ----

/// Everything that moves a backend queue on.
pub enum BackendMove<W> {
    /// The device posts receive buffers.
    RxAvail(Seq<RxId>),
    /// The device polls for packets; the buffers at the front hold these many
    /// bytes.
    RxPoll(Seq<u32>),
    /// The device offers segments for transmission.
    TxAvail(Seq<TxSegment>),
    /// The device polls for finished transmits, with room for this many.
    TxPoll(nat),
    /// The fuzzer asks for something.
    Request(BackendOp),
    /// The device's task goes to sleep, leaving a waker, or is woken.
    Park(Option<W>),
}

/// A move that can happen in this state.
pub open spec fn possible<W>(shared: SharedView<W>, step: BackendMove<W>) -> bool {
    match step {
        BackendMove::RxPoll(capacities) => capacities.len() <= shared.rx_pending.len(),
        BackendMove::Request(BackendOp::SetTxMode { max_packets, .. }) => max_packets >= 1,
        _ => true,
    }
}

/// State after one move.
pub open spec fn after_move<W>(shared: SharedView<W>, step: BackendMove<W>) -> SharedView<W> {
    match step {
        BackendMove::RxAvail(done) => shared.after_rx_avail(done),
        BackendMove::RxPoll(capacities) => shared.after_rx_poll(capacities),
        BackendMove::TxAvail(segments) => shared.after_tx_avail(segments),
        BackendMove::TxPoll(slots) => shared.after_tx_poll(slots),
        BackendMove::Request(op) => SharedView { waker: None, ..shared.after_op(op) },
        BackendMove::Park(waker) => SharedView { waker, ..shared },
    }
}

/// State after a series of moves.
pub open spec fn after_moves<W>(shared: SharedView<W>, moves: Seq<BackendMove<W>>) -> SharedView<W>
    decreases moves.len(),
{
    if moves.len() == 0 {
        shared
    } else {
        after_move(after_moves(shared, moves.drop_last()), moves.last())
    }
}

/// Every move of a series can happen when it is its turn.
pub open spec fn all_possible<W>(shared: SharedView<W>, moves: Seq<BackendMove<W>>) -> bool
    decreases moves.len(),
{
    moves.len() == 0 || all_possible(shared, moves.drop_last()) && possible(
        after_moves(shared, moves.drop_last()),
        moves.last(),
    )
}

/// Packets that a move takes over for asynchronous transmission.
pub open spec fn consumed<W>(shared: SharedView<W>, step: BackendMove<W>) -> Seq<TxId> {
    match step {
        BackendMove::TxAvail(segments) => if shared.tx_sync {
            Seq::empty()
        } else {
            packet_ids(segments, 0, shared.tx_max_packets as int)
        },
        _ => Seq::empty(),
    }
}

/// Packets that a move reports as transmitted.
pub open spec fn completed<W>(shared: SharedView<W>, step: BackendMove<W>) -> Seq<TxId> {
    match step {
        BackendMove::TxPoll(slots) => match shared.tx_outcome(slots) {
            Ok(ids) => ids,
            Err(_) => Seq::empty(),
        },
        _ => Seq::empty(),
    }
}

/// Receive buffers that a move posts.
pub open spec fn posted<W>(step: BackendMove<W>) -> Seq<RxId> {
    match step {
        BackendMove::RxAvail(done) => done,
        _ => Seq::empty(),
    }
}

/// Receive buffers that a move fills.
pub open spec fn filled<W>(shared: SharedView<W>, step: BackendMove<W>) -> Seq<RxId> {
    match step {
        BackendMove::RxPoll(capacities) => shared.rx_packets(capacities).map_values(
            |packet: RxDelivery| packet.id,
        ),
        _ => Seq::empty(),
    }
}

/// Packets taken over for asynchronous transmission by a series of moves.
pub open spec fn all_consumed<W>(shared: SharedView<W>, moves: Seq<BackendMove<W>>) -> Seq<TxId>
    decreases moves.len(),
{
    if moves.len() == 0 {
        Seq::empty()
    } else {
        all_consumed(shared, moves.drop_last()) + consumed(
            after_moves(shared, moves.drop_last()),
            moves.last(),
        )
    }
}

/// Packets reported as transmitted by a series of moves.
pub open spec fn all_completed<W>(shared: SharedView<W>, moves: Seq<BackendMove<W>>) -> Seq<TxId>
    decreases moves.len(),
{
    if moves.len() == 0 {
        Seq::empty()
    } else {
        all_completed(shared, moves.drop_last()) + completed(
            after_moves(shared, moves.drop_last()),
            moves.last(),
        )
    }
}

/// Receive buffers posted by a series of moves.
pub open spec fn all_posted<W>(moves: Seq<BackendMove<W>>) -> Seq<RxId>
    decreases moves.len(),
{
    if moves.len() == 0 {
        Seq::empty()
    } else {
        all_posted(moves.drop_last()) + posted(moves.last())
    }
}

/// Receive buffers filled by a series of moves.
pub open spec fn all_filled<W>(shared: SharedView<W>, moves: Seq<BackendMove<W>>) -> Seq<RxId>
    decreases moves.len(),
{
    if moves.len() == 0 {
        Seq::empty()
    } else {
        all_filled(shared, moves.drop_last()) + filled(
            after_moves(shared, moves.drop_last()),
            moves.last(),
        )
    }
}

/// Transmits waiting to be reported, oldest first.
pub open spec fn outstanding<W>(shared: SharedView<W>) -> Seq<TxId> {
    shared.tx_done + shared.tx_inflight
}

proof fn moves_conserve_packets<W>(shared: SharedView<W>, step: BackendMove<W>)
    requires
        possible(shared, step),
    ensures
        completed(shared, step) + outstanding(after_move(shared, step)) == outstanding(shared)
            + consumed(shared, step),
        filled(shared, step) + after_move(shared, step).rx_pending == shared.rx_pending + posted(
            step,
        ),
        shared.wf() ==> after_move(shared, step).wf(),
{
    let after = after_move(shared, step);
    match step {
        BackendMove::TxPoll(slots) => {
            if slots <= shared.tx_done.len() {
                assert(shared.tx_done.take(slots as int) + shared.tx_done.skip(slots as int)
                    =~= shared.tx_done);
            }
        },
        BackendMove::RxPoll(capacities) => {
            usable_ends_at_first_gap(capacities);
            assert(filled(shared, step) =~= shared.rx_pending.take(shared.rx_filled(capacities)));
        },
        BackendMove::Request(BackendOp::CompleteTx { count }) => {
            let n = released(count, shared.tx_inflight.len() as int);
            assert(shared.tx_inflight.take(n) + shared.tx_inflight.skip(n) =~= shared.tx_inflight);
        },
        _ => {},
    }
    assert(completed(shared, step) + outstanding(after) =~= outstanding(shared) + consumed(
        shared,
        step,
    ));
    assert(filled(shared, step) + after.rx_pending =~= shared.rx_pending + posted(step));
}

/// The backend is honest, whatever the device and the fuzzer do, in whatever
/// order. Every packet it takes over asynchronously is reported as transmitted
/// exactly once, oldest first, and nothing else is. Every receive buffer is
/// filled at most once, in the order posted, and only buffers that were posted.
/// Its bounds hold throughout.
pub proof fn backend_is_honest<W>(shared: SharedView<W>, moves: Seq<BackendMove<W>>)
    requires
        shared.wf(),
        all_possible(shared, moves),
    ensures
        all_completed(shared, moves) + outstanding(after_moves(shared, moves)) == outstanding(shared)
            + all_consumed(shared, moves),
        all_filled(shared, moves) + after_moves(shared, moves).rx_pending == shared.rx_pending
            + all_posted(moves),
        after_moves(shared, moves).wf(),
    decreases moves.len(),
{
    if moves.len() == 0 {
        assert(all_completed(shared, moves) + outstanding(shared) =~= outstanding(shared)
            + all_consumed(shared, moves));
        assert(all_filled(shared, moves) + shared.rx_pending =~= shared.rx_pending + all_posted(
            moves,
        ));
    } else {
        let front = moves.drop_last();
        let before = after_moves(shared, front);
        let after = after_moves(shared, moves);
        backend_is_honest(shared, front);
        moves_conserve_packets(before, moves.last());
        assert(all_completed(shared, moves) + outstanding(after) =~= all_completed(shared, front)
            + (completed(before, moves.last()) + outstanding(after)));
        assert(all_completed(shared, front) + (outstanding(before) + consumed(
            before,
            moves.last(),
        )) =~= (all_completed(shared, front) + outstanding(before)) + consumed(before, moves.last()));
        assert((outstanding(shared) + all_consumed(shared, front)) + consumed(before, moves.last())
            =~= outstanding(shared) + all_consumed(shared, moves));
        assert(all_filled(shared, moves) + after.rx_pending =~= all_filled(shared, front) + (filled(
            before,
            moves.last(),
        ) + after.rx_pending));
        assert(all_filled(shared, front) + (before.rx_pending + posted(moves.last()))
            =~= (all_filled(shared, front) + before.rx_pending) + posted(moves.last()));
        assert((shared.rx_pending + all_posted(front)) + posted(moves.last()) =~= shared.rx_pending
            + all_posted(moves));
    }
}

} // verus!
