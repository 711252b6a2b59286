//! The network backend that the device is given.
//!
//! It is well-behaved on purpose: it completes only buffers the device handed
//! it, exactly once, on whole packet boundaries. What the fuzzer controls is
//! when that happens.

use std::collections::VecDeque;

use vstd::prelude::*;

use super::layout::{MAX_PENDING_INJECT, MAX_TX_COMPLETE_PER_ACTION, RX_FILL};

verus! {

/// A receive buffer of the device.
#[derive(Debug, Clone, Copy, PartialEq, Eq, Structural)]
pub struct RxId(pub u32);

/// A packet that the device transmits.
#[derive(Debug, Clone, Copy, PartialEq, Eq, Structural)]
pub struct TxId(pub u32);

/// What a backend knows about a checksum of a received packet.
#[derive(Debug, Clone, Copy, PartialEq, Eq, Structural)]
pub enum RxChecksumState {
    Unknown,
    Good,
    Bad,
    ValidatedButWrong,
}

/// A request to deliver a packet into whichever receive buffer comes next.
#[derive(Debug, Clone, Copy, PartialEq, Eq, Structural)]
pub struct RxInject {
    pub len: u32,
    pub ip_checksum: RxChecksumState,
    pub l4_checksum: RxChecksumState,
    /// Deliver the packet in two pieces.
    pub segmented: bool,
}

/// A packet to write into a receive buffer.
#[derive(Debug, Clone, Copy, PartialEq, Eq, Structural)]
pub struct RxDelivery {
    pub id: RxId,
    pub len: u32,
    /// What every byte of the packet is.
    pub fill: u8,
    pub ip_checksum: RxChecksumState,
    pub l4_checksum: RxChecksumState,
    /// Where to cut the packet, if it goes in two pieces.
    pub split: Option<u32>,
}

/// One segment that the device offers for transmission.
#[derive(Debug, Clone, Copy, PartialEq, Eq, Structural)]
pub enum TxSegment {
    /// The first segment of a packet of `segment_count` segments.
    Head { id: TxId, segment_count: usize },
    /// A later segment.
    Tail,
}

/// Why a poll for finished transmits failed.
#[derive(Debug, Clone, Copy, PartialEq, Eq, Structural)]
pub enum TxPollError {
    Fatal,
    TryRestart,
}

/// Something the fuzzer asks of the backend.
#[derive(Debug, Clone, Copy, PartialEq, Eq, Structural)]
pub enum BackendOp {
    /// Queue a packet for reception.
    Inject(RxInject),
    /// Choose how transmits complete.
    SetTxMode { sync: bool, max_packets: usize },
    /// Release transmits that were consumed asynchronously.
    CompleteTx { count: u8 },
    /// Make the next poll for finished transmits fail.
    FailTxPoll { fatal: bool },
}

/// Which parts of transmission the backend takes over.
#[derive(Debug, Clone, Copy, PartialEq, Eq, Structural)]
pub struct TxOffloadSupport {
    pub ipv4_header: bool,
    pub tcp: bool,
    pub udp: bool,
    pub tso: bool,
    pub uso: bool,
}

/// State of one backend queue, shared by the device and the fuzzer. `W` is what
/// wakes the device's task.
pub struct QueueShared<W> {
    /// Receive buffers handed over and not yet filled.
    pub rx_pending: VecDeque<RxId>,
    /// Packets waiting to be received.
    pub rx_inject: VecDeque<RxInject>,
    /// Transmits consumed asynchronously and not yet released.
    pub tx_inflight: VecDeque<TxId>,
    /// Transmits released and not yet polled for.
    pub tx_done: VecDeque<TxId>,
    /// Whether transmits complete on the spot.
    pub tx_sync: bool,
    /// Whole packets that one transmit call consumes.
    pub tx_max_packets: usize,
    /// A one-time error for the next poll; `true` for a fatal one.
    pub tx_poll_error: Option<bool>,
    pub waker: Option<W>,
}

/// The contents of a `QueueShared`.
#[verifier::ext_equal]
pub struct SharedView<W> {
    pub rx_pending: Seq<RxId>,
    pub rx_inject: Seq<RxInject>,
    pub tx_inflight: Seq<TxId>,
    pub tx_done: Seq<TxId>,
    pub tx_sync: bool,
    pub tx_max_packets: usize,
    pub tx_poll_error: Option<bool>,
    pub waker: Option<W>,
}

impl<W> View for QueueShared<W> {
    type V = SharedView<W>;

    open spec fn view(&self) -> SharedView<W> {
        SharedView {
            rx_pending: self.rx_pending@,
            rx_inject: self.rx_inject@,
            tx_inflight: self.tx_inflight@,
            tx_done: self.tx_done@,
            tx_sync: self.tx_sync,
            tx_max_packets: self.tx_max_packets,
            tx_poll_error: self.tx_poll_error,
            waker: self.waker,
        }
    }
}

/// The state that a fuzz byte selects.
pub open spec fn checksum_of(v: u8) -> RxChecksumState {
    if v % 4 == 0 {
        RxChecksumState::Unknown
    } else if v % 4 == 1 {
        RxChecksumState::Good
    } else if v % 4 == 2 {
        RxChecksumState::Bad
    } else {
        RxChecksumState::ValidatedButWrong
    }
}

/// Maps a fuzz byte to a checksum state.
pub fn checksum_state(v: u8) -> (state: RxChecksumState)
    ensures
        state == checksum_of(v),
{
    match v % 4 {
        0 => RxChecksumState::Unknown,
        1 => RxChecksumState::Good,
        2 => RxChecksumState::Bad,
        _ => RxChecksumState::ValidatedButWrong,
    }
}

/// What the backend advertises: everything, so that the device offers the
/// widest feature set to choose from.
pub fn tx_offload_support() -> (support: TxOffloadSupport)
    ensures
        support.ipv4_header && support.tcp && support.udp && support.tso && support.uso,
{
    TxOffloadSupport { ipv4_header: true, tcp: true, udp: true, tso: true, uso: true }
}

/// A packet length held to what a buffer of `capacity` bytes can take, and to
/// at least one byte.
pub open spec fn fitted_len(len: u32, capacity: u32) -> u32 {
    if len < 1 {
        1
    } else if len > capacity {
        capacity
    } else {
        len
    }
}

/// The delivery that a packet request gives in buffer `id` of `capacity` bytes.
pub open spec fn delivery(inject: RxInject, id: RxId, capacity: u32) -> RxDelivery {
    let len = fitted_len(inject.len, capacity);
    RxDelivery {
        id,
        len,
        fill: RX_FILL,
        ip_checksum: inject.ip_checksum,
        l4_checksum: inject.l4_checksum,
        split: if inject.segmented && len >= 2 {
            Some((len / 2) as u32)
        } else {
            None
        },
    }
}

/// Fits a packet into buffer `id` of `capacity` bytes.
pub fn fit_packet(inject: RxInject, id: RxId, capacity: u32) -> (packet: RxDelivery)
    requires
        capacity > 0,
    ensures
        packet == delivery(inject, id, capacity),
{
    let mut len: u32 = inject.len;
    if len < 1 {
        len = 1;
    } else if len > capacity {
        len = capacity;
    }
    let split: Option<u32> = if inject.segmented && len >= 2 {
        Some(len / 2)
    } else {
        None
    };
    RxDelivery {
        id,
        len,
        fill: RX_FILL,
        ip_checksum: inject.ip_checksum,
        l4_checksum: inject.l4_checksum,
        split,
    }
}

/// The number of buffers before the first one without room for data.
pub open spec fn usable(capacities: Seq<u32>) -> int
    decreases capacities.len(),
{
    if capacities.len() == 0 || capacities[0] == 0 {
        0
    } else {
        1 + usable(capacities.skip(1))
    }
}

/// The usable buffers all have room, and they end at the first buffer without,
/// or where the buffers end.
pub proof fn usable_ends_at_first_gap(capacities: Seq<u32>)
    ensures
        0 <= usable(capacities) <= capacities.len(),
        usable(capacities) < capacities.len() ==> capacities[usable(capacities)] == 0,
        forall|i: int| 0 <= i < usable(capacities) ==> #[trigger] capacities[i] > 0,
    decreases capacities.len(),
{
    if capacities.len() > 0 && capacities[0] != 0 {
        let rest = capacities.skip(1);
        usable_ends_at_first_gap(rest);
        assert forall|i: int| 0 <= i < usable(capacities) implies #[trigger] capacities[i] > 0 by {
            if i > 0 {
                assert(rest[i - 1] == capacities[i]);
            }
        }
    }
}

/// A whole packet starts at segment `i`: its id and number of segments.
pub open spec fn packet_at(segments: Seq<TxSegment>, i: int) -> Option<(TxId, int)> {
    if 0 <= i < segments.len() {
        match segments[i] {
            TxSegment::Head { id, segment_count } => if segment_count > 0 && i + segment_count
                <= segments.len() {
                Some((id, segment_count as int))
            } else {
                None
            },
            TxSegment::Tail => None,
        }
    } else {
        None
    }
}

/// The segment at which consuming whole packets from `from` on ends, after
/// `limit` packets at most.
pub open spec fn packets_end(segments: Seq<TxSegment>, from: int, limit: int) -> int
    decreases limit,
{
    if limit <= 0 {
        from
    } else {
        match packet_at(segments, from) {
            Some((_, count)) => packets_end(segments, from + count, limit - 1),
            None => from,
        }
    }
}

/// The ids of those packets.
pub open spec fn packet_ids(segments: Seq<TxSegment>, from: int, limit: int) -> Seq<TxId>
    decreases limit,
{
    if limit <= 0 {
        Seq::empty()
    } else {
        match packet_at(segments, from) {
            Some((id, count)) => seq![id] + packet_ids(segments, from + count, limit - 1),
            None => Seq::empty(),
        }
    }
}

/// How many transmits a release of `count` moves when `inflight` are waiting.
pub open spec fn released(count: u8, inflight: int) -> int {
    let asked = count as int % (MAX_TX_COMPLETE_PER_ACTION + 1);
    if asked <= inflight {
        asked
    } else {
        inflight
    }
}

impl<W> SharedView<W> {
    /// The state of a queue that was just handed out.
    pub open spec fn fresh() -> Self {
        SharedView {
            rx_pending: Seq::empty(),
            rx_inject: Seq::empty(),
            tx_inflight: Seq::empty(),
            tx_done: Seq::empty(),
            tx_sync: true,
            tx_max_packets: usize::MAX,
            tx_poll_error: None,
            waker: None,
        }
    }

    /// Packet requests are bounded, and transmission is never wedged.
    pub open spec fn wf(self) -> bool {
        &&& self.rx_inject.len() <= MAX_PENDING_INJECT
        &&& self.tx_max_packets >= 1
    }

    /// There is something for a poll to consume.
    pub open spec fn is_ready(self) -> bool {
        ||| self.tx_poll_error is Some
        ||| self.tx_done.len() > 0
        ||| self.rx_inject.len() > 0 && self.rx_pending.len() > 0
    }

    /// State after the device posts receive buffers.
    pub open spec fn after_rx_avail(self, done: Seq<RxId>) -> Self {
        SharedView { rx_pending: self.rx_pending + done, ..self }
    }

    /// How many packets a receive poll delivers into the buffers at the front,
    /// which hold `capacities` bytes: one per buffer, up to the first buffer
    /// without room, as long as there are packets.
    pub open spec fn rx_filled(self, capacities: Seq<u32>) -> int {
        if self.rx_inject.len() <= usable(capacities) {
            self.rx_inject.len() as int
        } else {
            usable(capacities)
        }
    }

    /// The packets that it delivers.
    pub open spec fn rx_packets(self, capacities: Seq<u32>) -> Seq<RxDelivery> {
        Seq::new(
            self.rx_filled(capacities) as nat,
            |i: int| delivery(self.rx_inject[i], self.rx_pending[i], capacities[i]),
        )
    }

    /// State after that poll. A buffer without room cannot be completed with
    /// data, so it stays posted, and the packets that are left are lost on it.
    pub open spec fn after_rx_poll(self, capacities: Seq<u32>) -> Self {
        SharedView {
            rx_pending: self.rx_pending.skip(self.rx_filled(capacities)),
            rx_inject: if self.rx_filled(capacities) == usable(capacities) < capacities.len() {
                Seq::empty()
            } else {
                self.rx_inject.skip(self.rx_filled(capacities))
            },
            ..self
        }
    }

    /// State after the device offers segments for transmission.
    pub open spec fn after_tx_avail(self, segments: Seq<TxSegment>) -> Self {
        if self.tx_sync {
            self
        } else {
            SharedView {
                tx_inflight: self.tx_inflight + packet_ids(
                    segments,
                    0,
                    self.tx_max_packets as int,
                ),
                ..self
            }
        }
    }

    /// What a poll with room for `slots` ids gives.
    pub open spec fn tx_outcome(self, slots: nat) -> Result<Seq<TxId>, TxPollError> {
        match self.tx_poll_error {
            Some(true) => Err(TxPollError::Fatal),
            Some(false) => Err(TxPollError::TryRestart),
            None => if slots <= self.tx_done.len() {
                Ok(self.tx_done.take(slots as int))
            } else {
                Ok(self.tx_done)
            },
        }
    }

    /// State after that poll. An error is reported once.
    pub open spec fn after_tx_poll(self, slots: nat) -> Self {
        match self.tx_poll_error {
            Some(_) => SharedView { tx_poll_error: None, ..self },
            None => SharedView {
                tx_done: if slots <= self.tx_done.len() {
                    self.tx_done.skip(slots as int)
                } else {
                    Seq::empty()
                },
                ..self
            },
        }
    }

    /// State after a request of the fuzzer.
    pub open spec fn after_op(self, op: BackendOp) -> Self {
        match op {
            BackendOp::Inject(inject) => if self.rx_inject.len() < MAX_PENDING_INJECT {
                SharedView { rx_inject: self.rx_inject.push(inject), ..self }
            } else {
                self
            },
            BackendOp::SetTxMode { sync, max_packets } => SharedView {
                tx_sync: sync,
                tx_max_packets: max_packets,
                ..self
            },
            BackendOp::CompleteTx { count } => {
                let n = released(count, self.tx_inflight.len() as int);
                SharedView {
                    tx_inflight: self.tx_inflight.skip(n),
                    tx_done: self.tx_done + self.tx_inflight.take(n),
                    ..self
                }
            },
            BackendOp::FailTxPoll { fatal } => SharedView { tx_poll_error: Some(fatal), ..self },
        }
    }
}

impl<W> QueueShared<W> {
    /// Creates the state of a queue that is about to be handed out.
    pub fn new() -> (shared: Self)
        ensures
            shared@ == SharedView::<W>::fresh(),
            shared@.wf(),
    {
        QueueShared {
            rx_pending: VecDeque::new(),
            rx_inject: VecDeque::new(),
            tx_inflight: VecDeque::new(),
            tx_done: VecDeque::new(),
            tx_sync: true,
            tx_max_packets: usize::MAX,
            tx_poll_error: None,
            waker: None,
        }
    }

    /// Whether a poll would consume something. The device runs its whole work
    /// cycle each time the queue is ready, so readiness without anything to
    /// consume would make it spin.
    pub fn ready(&self) -> (ready: bool)
        ensures
            ready == self@.is_ready(),
    {
        self.tx_poll_error.is_some() || self.tx_done.len() > 0 || (self.rx_inject.len() > 0
            && self.rx_pending.len() > 0)
    }

    /// Hands out what wakes the device's task, if it waits.
    pub fn wake(&mut self) -> (waker: Option<W>)
        ensures
            waker == old(self)@.waker,
            final(self)@ == (SharedView { waker: None, ..old(self)@ }),
    {
        self.waker.take()
    }

    /// Whether the queue is ready. If it is not, the waker is kept.
    pub fn poll_ready(&mut self, waker: W) -> (ready: bool)
        ensures
            ready == old(self)@.is_ready(),
            final(self)@ == (if ready {
                old(self)@
            } else {
                SharedView { waker: Some(waker), ..old(self)@ }
            }),
    {
        if self.ready() {
            return true;
        }
        self.waker = Some(waker);
        false
    }

    /// Takes over receive buffers.
    pub fn rx_avail(&mut self, done: &Vec<RxId>)
        ensures
            final(self)@ == old(self)@.after_rx_avail(done@),
    {
        let mut i: usize = 0;
        while i < done.len()
            invariant
                i <= done@.len(),
                self@ == old(self)@.after_rx_avail(done@.take(i as int)),
            decreases done@.len() - i,
        {
            self.rx_pending.push_back(done[i]);
            i = i + 1;
        }
        assert(done@.take(done@.len() as int) =~= done@);
    }

    /// The receive buffers that a poll with `room` for results may fill.
    pub fn rx_buffers(&self, room: usize) -> (ids: Vec<RxId>)
        ensures
            ids@ == (if room <= self@.rx_pending.len() {
                self@.rx_pending.take(room as int)
            } else {
                self@.rx_pending
            }),
    {
        let mut ids: Vec<RxId> = Vec::new();
        while ids.len() < room && ids.len() < self.rx_pending.len()
            invariant
                ids@.len() <= room,
                ids@.len() <= self@.rx_pending.len(),
                ids@ == self@.rx_pending.take(ids@.len() as int),
            decreases room - ids@.len(),
        {
            ids.push(self.rx_pending[ids.len()]);
        }
        ids
    }

    /// Delivers packets into the buffers at the front of the queue, given how
    /// many bytes each of them holds. Without a buffer, packets stay queued: the
    /// device polls before it posts buffers, so dropping them here would lose
    /// the first ones of every start.
    pub fn rx_poll(&mut self, capacities: &Vec<u32>) -> (packets: Vec<RxDelivery>)
        requires
            capacities@.len() <= old(self)@.rx_pending.len(),
        ensures
            packets@ == old(self)@.rx_packets(capacities@),
            final(self)@ == old(self)@.after_rx_poll(capacities@),
    {
        let mut packets: Vec<RxDelivery> = Vec::new();
        let ghost mut lost: int = 0;
        while packets.len() < capacities.len()
            invariant
                packets@.len() <= capacities@.len() <= old(self)@.rx_pending.len(),
                0 <= lost,
                packets@.len() + lost <= old(self)@.rx_inject.len(),
                lost > 0 ==> packets@.len() < capacities@.len() && capacities@[packets@.len() as int]
                    == 0,
                forall|i: int| 0 <= i < packets@.len() ==> #[trigger] capacities@[i] != 0,
                forall|i: int|
                    0 <= i < packets@.len() ==> #[trigger] packets@[i] == delivery(
                        old(self)@.rx_inject[i],
                        old(self)@.rx_pending[i],
                        capacities@[i],
                    ),
                self@ == (SharedView {
                    rx_pending: old(self)@.rx_pending.skip(packets@.len() as int),
                    rx_inject: old(self)@.rx_inject.skip(packets@.len() + lost),
                    ..old(self)@
                }),
            ensures
                packets@.len() == capacities@.len() || self@.rx_inject.len() == 0,
            decreases self@.rx_inject.len(),
        {
            let inject: RxInject = match self.rx_inject.pop_front() {
                Some(inject) => inject,
                None => break,
            };
            let capacity: u32 = capacities[packets.len()];
            if capacity == 0 {
                proof {
                    lost = lost + 1;
                }
                continue;
            }
            let id: RxId = match self.rx_pending.pop_front() {
                Some(id) => id,
                None => break,
            };
            packets.push(fit_packet(inject, id, capacity));
        }
        proof {
            usable_ends_at_first_gap(capacities@);
            assert(packets@ =~= old(self)@.rx_packets(capacities@));
            assert(self@ =~= old(self)@.after_rx_poll(capacities@));
        }
        packets
    }

    /// Consumes whole packets only, as many as the mode allows. Returns whether
    /// they are complete on the spot, and the number of segments consumed.
    /// Packets complete on the spot are not recorded, since the device completes
    /// them itself.
    pub fn tx_avail(&mut self, segments: &Vec<TxSegment>) -> (sent: (bool, usize))
        ensures
            sent.0 == old(self)@.tx_sync,
            sent.1 == packets_end(segments@, 0, old(self)@.tx_max_packets as int),
            final(self)@ == old(self)@.after_tx_avail(segments@),
    {
        let mut sent: usize = 0;
        let mut packets: usize = 0;
        let mut heads: VecDeque<TxId> = VecDeque::new();
        let ghost limit = self.tx_max_packets as int;
        while sent < segments.len() && packets < self.tx_max_packets
            invariant_except_break
                *self == *old(self),
                limit == self.tx_max_packets,
                sent <= segments@.len(),
                packets <= self.tx_max_packets,
                packets_end(segments@, 0, limit) == packets_end(
                    segments@,
                    sent as int,
                    limit - packets,
                ),
                packet_ids(segments@, 0, limit) == heads@ + packet_ids(
                    segments@,
                    sent as int,
                    limit - packets,
                ),
            ensures
                *self == *old(self),
                packets_end(segments@, 0, limit) == sent,
                packet_ids(segments@, 0, limit) == heads@,
            decreases segments@.len() - sent,
        {
            let (id, count): (TxId, usize) = match segments[sent] {
                TxSegment::Head { id, segment_count } => (id, segment_count),
                TxSegment::Tail => (TxId(0), 0),
            };
            if count == 0 || count > segments.len() - sent {
                break;
            }
            heads.push_back(id);
            sent = sent + count;
            packets = packets + 1;
        }
        if self.tx_sync {
            (true, sent)
        } else {
            self.tx_inflight.append(&mut heads);
            (false, sent)
        }
    }

    /// Hands out the ids of released transmits, oldest first, at most `slots`;
    /// or the armed error, once.
    pub fn tx_poll(&mut self, slots: usize) -> (done: Result<Vec<TxId>, TxPollError>)
        ensures
            match old(self)@.tx_outcome(slots as nat) {
                Ok(ids) => done matches Ok(done) && done@ == ids,
                Err(error) => done matches Err(e) && e == error,
            },
            final(self)@ == old(self)@.after_tx_poll(slots as nat),
    {
        if let Some(fatal) = self.tx_poll_error.take() {
            return Err(
                if fatal {
                    TxPollError::Fatal
                } else {
                    TxPollError::TryRestart
                },
            );
        }
        let mut done: Vec<TxId> = Vec::new();
        while done.len() < slots
            invariant
                done@.len() <= slots,
                done@.len() <= old(self)@.tx_done.len(),
                done@ == old(self)@.tx_done.take(done@.len() as int),
                old(self)@.tx_poll_error is None,
                self@ == (SharedView {
                    tx_done: old(self)@.tx_done.skip(done@.len() as int),
                    ..old(self)@
                }),
            ensures
                done@.len() == slots || done@.len() == old(self)@.tx_done.len(),
            decreases slots - done@.len(),
        {
            match self.tx_done.pop_front() {
                Some(id) => done.push(id),
                None => break,
            }
        }
        Ok(done)
    }

    /// Carries out a request of the fuzzer, and hands out what wakes the
    /// device's task.
    pub fn request(&mut self, op: BackendOp) -> (waker: Option<W>)
        ensures
            waker == old(self)@.waker,
            final(self)@ == (SharedView { waker: None, ..old(self)@.after_op(op) }),
    {
        match op {
            BackendOp::Inject(inject) => {
                if self.rx_inject.len() < MAX_PENDING_INJECT {
                    self.rx_inject.push_back(inject);
                }
            },
            BackendOp::SetTxMode { sync, max_packets } => {
                self.tx_sync = sync;
                self.tx_max_packets = max_packets;
            },
            BackendOp::CompleteTx { count } => self.complete_tx(count),
            BackendOp::FailTxPoll { fatal } => {
                self.tx_poll_error = Some(fatal);
            },
        }
        self.wake()
    }

    /// Releases transmits, oldest first.
    fn complete_tx(&mut self, count: u8)
        ensures
            final(self)@ == old(self)@.after_op(BackendOp::CompleteTx { count }),
    {
        let mut n: usize = count as usize % (MAX_TX_COMPLETE_PER_ACTION + 1);
        if n > self.tx_inflight.len() {
            n = self.tx_inflight.len();
        }
        let mut i: usize = 0;
        while i < n
            invariant
                i <= n <= old(self)@.tx_inflight.len(),
                self@ == (SharedView {
                    tx_inflight: old(self)@.tx_inflight.skip(i as int),
                    tx_done: old(self)@.tx_done + old(self)@.tx_inflight.take(i as int),
                    ..old(self)@
                }),
            decreases n - i,
        {
            if let Some(id) = self.tx_inflight.pop_front() {
                self.tx_done.push_back(id);
            }
            i = i + 1;
        }
    }
}

/// Creates the queues that the device asked for, one per configuration, all
/// fresh: ids of an earlier start are gone with its state.
pub fn new_queues<W>(count: usize) -> (queues: Vec<QueueShared<W>>)
    ensures
        queues@.len() == count,
        forall|i: int| 0 <= i < count ==> (#[trigger] queues@[i])@ == SharedView::<W>::fresh(),
{
    let mut queues: Vec<QueueShared<W>> = Vec::new();
    while queues.len() < count
        invariant
            queues@.len() <= count,
            forall|i: int|
                0 <= i < queues@.len() ==> (#[trigger] queues@[i])@ == SharedView::<W>::fresh(),
        decreases count - queues@.len(),
    {
        queues.push(QueueShared::new());
    }
    queues
}

} // verus!
