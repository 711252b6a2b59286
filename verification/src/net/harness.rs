//! The state of one virtio-net fuzz run, and what each action does to it.

use arbitrary::Unstructured;
use vstd::prelude::*;

use super::action::{Action, Op};
use super::backend::{checksum_of, checksum_state, BackendOp, RxInject};
use super::data_alloc::{affordable_requests_are_granted, DataAlloc};
use super::guest_queue::{GuestQueue, QueueView};
use super::layout::{
    FAIL_TX_POLL_RATE, FAIL_TX_POLL_YIELDS, HANDLE_YIELD_BUDGET, MAX_ACTIONS, MAX_BUF_LEN,
    MAX_DRAIN, MAX_RX_SEGMENTS, MAX_TX_DATA_SEGMENTS, MAX_TX_PACKETS_PER_AVAIL, MAX_YIELDS,
    MAX_YIELDS_PER_ACTION, NET_HEADER_BYTES, NET_HEADER_SIZE, QUEUE_SLOTS, RX_AVAIL_ADDR,
    RX_DESC_ADDR, RX_USED_ADDR, TX_AVAIL_ADDR, TX_DESC_ADDR, TX_USED_ADDR,
};
use super::slot_laws::{
    draining_keeps_accounts_sound, idle_queue_is_well_formed, reserving_takes_free_slots,
};
use crate::input::{draw_bool, draw_u64, drawn, is_empty, left_after, unread, InputError};
use crate::ring::{
    negotiate, negotiation_is_safe, without_ring_packed, Descriptor, DescriptorFlags,
    RING_PACKED_BIT,
};
use crate::wire::le_value;

verus! {

/// What to do after asking for the backend handle.
#[derive(Debug, Clone, Copy, PartialEq, Eq, Structural)]
pub enum Attach {
    /// Keep the handle, and set the backend's transmit mode.
    Connect { tx_sync: bool, tx_max_packets: usize },
    /// Let the device's tasks run, and ask again.
    Yield,
    /// Go on without a handle.
    GiveUp,
}

/// The books of one fuzz run.
#[derive(Debug)]
pub struct Harness {
    pub rx: GuestQueue,
    pub tx: GuestQueue,
    pub data: DataAlloc,
    /// Feature bits the device offers, minus the packed ring.
    pub allowed_features: u64,
    /// Both queues run.
    pub enabled: bool,
    /// The backend handle of the running queues is held.
    pub attached: bool,
    /// Times that the handle of the running queues may still be asked for.
    pub tries_left: u32,
    pub yields_left: u32,
    pub actions_left: u32,
    /// Transmit mode, kept here so that it survives a restart.
    pub tx_sync: bool,
    pub tx_max_packets: usize,
}

/// The contents of a `Harness`.
#[verifier::ext_equal]
pub struct HarnessView {
    pub rx: QueueView,
    pub tx: QueueView,
    pub data: DataAlloc,
    pub allowed_features: u64,
    pub enabled: bool,
    pub attached: bool,
    pub tries_left: u32,
    pub yields_left: u32,
    pub actions_left: u32,
    pub tx_sync: bool,
    pub tx_max_packets: usize,
}

impl View for Harness {
    type V = HarnessView;

    open spec fn view(&self) -> HarnessView {
        HarnessView {
            rx: self.rx@,
            tx: self.tx@,
            data: self.data,
            allowed_features: self.allowed_features,
            enabled: self.enabled,
            attached: self.attached,
            tries_left: self.tries_left,
            yields_left: self.yields_left,
            actions_left: self.actions_left,
            tx_sync: self.tx_sync,
            tx_max_packets: self.tx_max_packets,
        }
    }
}

// ---- Posting buffers ----

/// Length of the buffers that a fuzz number selects.
pub open spec fn buf_len(len: u16) -> int {
    len as int % (MAX_BUF_LEN + 1)
}

/// Length that the header descriptor of a transmit chain announces: mostly the
/// header exactly, sometimes nothing, half of it, or more than it.
pub open spec fn announced_header_len(header_len: u8) -> int {
    if header_len % 8 == 0 {
        0
    } else if header_len % 8 == 1 {
        NET_HEADER_SIZE as int / 2
    } else if header_len % 8 == 2 {
        NET_HEADER_SIZE + 4
    } else {
        NET_HEADER_SIZE as int
    }
}

/// The larger of two lengths.
pub open spec fn longer(a: int, b: int) -> int {
    if a >= b {
        a
    } else {
        b
    }
}

/// Bytes set aside for the header of a transmit chain, so that the whole header
/// can be written whatever its descriptor announces.
pub open spec fn header_room(header_len: u8) -> int {
    longer(announced_header_len(header_len), NET_HEADER_SIZE as int)
}

/// The descriptor of data buffer `i` of `n`, when the first one goes into slot
/// `first`.
pub open spec fn buffer_descriptor(
    data: DataAlloc,
    first: int,
    n: int,
    len: int,
    write: bool,
    i: int,
) -> Descriptor {
    Descriptor {
        index: (first + i) as u16,
        gpa: data.after_each(len, i).gpa(len) as u64,
        len: len as u32,
        flags: DescriptorFlags { next: i != n - 1, write, indirect: false },
        next: if i == n - 1 {
            0
        } else {
            (first + i + 1) as u16
        },
    }
}

/// The writes of the first `k` of those descriptors.
pub open spec fn buffer_ops(
    rx: bool,
    data: DataAlloc,
    first: int,
    n: int,
    len: int,
    k: int,
) -> Seq<Op> {
    Seq::new(
        k as nat,
        |i: int|
            Op::WriteDescriptor { rx, descriptor: buffer_descriptor(data, first, n, len, rx, i) },
    )
}

/// The writes of all data buffers of a chain, its publication and a kick.
pub open spec fn chain_ops(
    rx: bool,
    data: DataAlloc,
    head: int,
    first: int,
    n: int,
    len: int,
) -> Seq<Op> {
    buffer_ops(rx, data, first, n, len, n) + seq![
        Op::MakeAvailable { rx, head: head as u16 },
        Op::Kick { rx },
    ]
}

/// The header writes of a transmit chain.
pub open spec fn header_ops(
    data: DataAlloc,
    head: int,
    header: [u8; NET_HEADER_BYTES],
    header_len: u8,
) -> Seq<Op> {
    let gpa = data.gpa(header_room(header_len)) as u64;
    seq![
        Op::WriteHeader { gpa, header },
        Op::WriteDescriptor {
            rx: false,
            descriptor: Descriptor {
                index: head as u16,
                gpa,
                len: announced_header_len(header_len) as u32,
                flags: DescriptorFlags { next: true, write: false, indirect: false },
                next: (head + 1) as u16,
            },
        },
    ]
}

impl HarnessView {
    /// The bounds that hold throughout a run.
    pub open spec fn wf(self) -> bool {
        &&& self.rx.wf()
        &&& self.tx.wf()
        &&& self.data.wf()
        &&& self.allowed_features & RING_PACKED_BIT == 0
        &&& self.attached ==> self.enabled
        &&& self.tries_left > 0 ==> self.enabled && !self.attached
        &&& self.tries_left <= HANDLE_YIELD_BUDGET
        &&& self.yields_left <= MAX_YIELDS
        &&& self.actions_left <= MAX_ACTIONS
        &&& self.tx_max_packets >= 1
    }

    /// Segments of a receive chain.
    pub open spec fn rx_segments(segments: u8) -> int {
        1 + segments as int % MAX_RX_SEGMENTS as int
    }

    /// Data segments of a transmit chain.
    pub open spec fn tx_segments(segments: u8) -> int {
        1 + segments as int % MAX_TX_DATA_SEGMENTS as int
    }

    /// Where a receive chain goes: nowhere if the descriptor table is too full,
    /// or the budget does not pay for all its buffers.
    pub open spec fn rx_head(self, segments: u8, len: u16) -> Option<int> {
        let n = Self::rx_segments(segments);
        if self.data.affords(n * buf_len(len)) {
            self.rx.slot_for(n)
        } else {
            None
        }
    }

    /// What posting a receive chain takes.
    pub open spec fn post_rx_ops(self, segments: u8, len: u16) -> Seq<Op> {
        let n = Self::rx_segments(segments);
        match self.rx_head(segments, len) {
            Some(head) => chain_ops(true, self.data, head, head, n, buf_len(len)),
            None => Seq::empty(),
        }
    }

    /// State after a receive chain is posted. Where a bound is hit, nothing
    /// changes.
    pub open spec fn after_post_rx(self, segments: u8, len: u16) -> Self {
        let n = Self::rx_segments(segments);
        match self.rx_head(segments, len) {
            Some(head) => HarnessView {
                rx: self.rx.after_alloc(n),
                data: self.data.after_each(buf_len(len), n),
                ..self
            },
            None => self,
        }
    }

    /// Where a transmit chain goes: nowhere if the descriptor table is too full,
    /// or the budget does not pay for its header and all its buffers.
    pub open spec fn tx_head(self, header_len: u8, segments: u8, len: u16) -> Option<int> {
        let n = Self::tx_segments(segments);
        if self.data.affords(header_room(header_len) + n * buf_len(len)) {
            self.tx.slot_for(n + 1)
        } else {
            None
        }
    }

    /// What posting a transmit chain takes.
    pub open spec fn post_tx_ops(
        self,
        header: [u8; NET_HEADER_BYTES],
        header_len: u8,
        segments: u8,
        len: u16,
    ) -> Seq<Op> {
        let n = Self::tx_segments(segments);
        match self.tx_head(header_len, segments, len) {
            Some(head) => header_ops(self.data, head, header, header_len) + chain_ops(
                false,
                self.data.after(header_room(header_len)),
                head,
                head + 1,
                n,
                buf_len(len),
            ),
            None => Seq::empty(),
        }
    }

    /// State after a transmit chain is posted. Where a bound is hit, nothing
    /// changes.
    pub open spec fn after_post_tx(self, header_len: u8, segments: u8, len: u16) -> Self {
        let n = Self::tx_segments(segments);
        match self.tx_head(header_len, segments, len) {
            Some(head) => HarnessView {
                tx: self.tx.after_alloc(n + 1),
                data: self.data.after(header_room(header_len)).after_each(buf_len(len), n),
                ..self
            },
            None => self,
        }
    }

    // ---- Queue lifecycle ----

    /// State after the rings of both queues are rebuilt.
    pub open spec fn after_rebuild(self) -> Self {
        HarnessView { rx: self.rx.after_reset(), tx: self.tx.after_reset(), ..self }
    }

    /// What a start takes. A running device is left alone. A started queue
    /// begins at index zero, so the rings are always initialized first.
    pub open spec fn start_ops(self, features: u64) -> Seq<Op> {
        if self.enabled {
            Seq::empty()
        } else {
            seq![
                Op::InitRings,
                Op::StartQueue { index: 0, features: features & self.allowed_features },
                Op::StartQueue { index: 1, features: features & self.allowed_features },
                Op::Attach,
            ]
        }
    }

    /// State after a start.
    pub open spec fn after_start(self) -> Self {
        if self.enabled {
            self
        } else {
            HarnessView {
                enabled: true,
                tries_left: HANDLE_YIELD_BUDGET,
                ..self.after_rebuild()
            }
        }
    }

    /// What a stop takes: the transmit half first, which tears down the pair.
    pub open spec fn stop_ops(self) -> Seq<Op> {
        if self.enabled {
            seq![Op::StopQueue { index: 1 }, Op::StopQueue { index: 0 }, Op::Detach]
        } else {
            Seq::empty()
        }
    }

    /// State after a stop.
    pub open spec fn after_stop(self) -> Self {
        HarnessView { enabled: false, attached: false, tries_left: 0, ..self }
    }

    /// What a reset takes.
    pub open spec fn reset_ops(self) -> Seq<Op> {
        self.stop_ops() + seq![Op::ResetDevice]
    }

    /// What a request to the backend takes: nothing while its handle is not
    /// held.
    pub open spec fn backend_ops(self, op: BackendOp) -> Seq<Op> {
        if self.attached {
            seq![Op::Backend(op)]
        } else {
            Seq::empty()
        }
    }

    // ---- Actions ----

    /// Whole packets per transmit call that a fuzz byte selects.
    pub open spec fn packets_per_avail(max_packets: u8) -> int {
        1 + max_packets as int % MAX_TX_PACKETS_PER_AVAIL as int
    }

    /// What an action takes, in order.
    pub open spec fn action_ops(self, action: Action) -> Seq<Op> {
        match action {
            Action::PostRx { segments, len } => self.post_rx_ops(segments, len),
            Action::PostTx { header, header_len, segments, len } => self.post_tx_ops(
                header,
                header_len,
                segments,
                len,
            ),
            Action::Kick { rx } => seq![Op::Kick { rx }],
            Action::InjectRx { len, ip, l4, segmented } => self.backend_ops(
                BackendOp::Inject(
                    RxInject {
                        len: len as u32,
                        ip_checksum: checksum_of(ip),
                        l4_checksum: checksum_of(l4),
                        segmented,
                    },
                ),
            ),
            Action::SetTxMode { sync, max_packets } => self.backend_ops(
                BackendOp::SetTxMode {
                    sync,
                    max_packets: Self::packets_per_avail(max_packets) as usize,
                },
            ),
            Action::CompleteTx { count } => self.backend_ops(BackendOp::CompleteTx { count }),
            Action::FailTxPoll { fatal, key, features } => if key % FAIL_TX_POLL_RATE == 0 {
                self.backend_ops(BackendOp::FailTxPoll { fatal }) + seq![
                    Op::Yield { count: FAIL_TX_POLL_YIELDS },
                ] + self.reset_ops() + self.after_stop().start_ops(features)
            } else {
                Seq::empty()
            },
            Action::Yield { count } => seq![
                Op::Yield { count: (count as u32 % MAX_YIELDS_PER_ACTION + 1) as u32 },
            ],
            Action::DrainUsed { rx } => seq![Op::DrainUsed { rx, limit: MAX_DRAIN }],
            Action::Stop => self.stop_ops(),
            Action::Reset => self.reset_ops(),
            Action::RebuildRings => if self.enabled {
                Seq::empty()
            } else {
                seq![Op::InitRings]
            },
            Action::Start { features } => self.start_ops(features),
            Action::Restart { features } => self.reset_ops() + seq![Op::InitRings]
                + self.after_stop().start_ops(features),
        }
    }

    /// State after an action is decided on. Its ops may move the state on
    /// further: `yield_now`, `attach` and `drain_used` say how.
    pub open spec fn after_action(self, action: Action) -> Self {
        match action {
            Action::PostRx { segments, len } => self.after_post_rx(segments, len),
            Action::PostTx { header, header_len, segments, len } => self.after_post_tx(
                header_len,
                segments,
                len,
            ),
            Action::SetTxMode { sync, max_packets } => HarnessView {
                tx_sync: sync,
                tx_max_packets: Self::packets_per_avail(max_packets) as usize,
                ..self
            },
            Action::FailTxPoll { fatal, key, features } => if key % FAIL_TX_POLL_RATE == 0 {
                self.after_stop().after_start()
            } else {
                self
            },
            Action::Stop | Action::Reset => self.after_stop(),
            Action::RebuildRings => if self.enabled {
                self
            } else {
                self.after_rebuild()
            },
            Action::Start { features } => self.after_start(),
            Action::Restart { features } => HarnessView {
                data: DataAlloc::fresh(),
                ..self.after_stop().after_start()
            },
            _ => self,
        }
    }

    // ---- Events ----

    /// State after the device's tasks are let run, if the budget allows.
    pub open spec fn after_yield(self) -> Self {
        if self.yields_left == 0 {
            self
        } else {
            HarnessView { yields_left: (self.yields_left - 1) as u32, ..self }
        }
    }

    /// What to do once the backend handle has arrived, or has not. Once all
    /// tries are used up, the handle is not taken any more.
    pub open spec fn attach_outcome(self, arrived: bool) -> Attach {
        if self.tries_left == 0 {
            Attach::GiveUp
        } else if arrived {
            Attach::Connect { tx_sync: self.tx_sync, tx_max_packets: self.tx_max_packets }
        } else if self.yields_left == 0 {
            Attach::GiveUp
        } else {
            Attach::Yield
        }
    }

    /// State after that.
    pub open spec fn after_attach(self, arrived: bool) -> Self {
        if self.tries_left == 0 {
            self
        } else if arrived {
            HarnessView { attached: true, tries_left: 0, ..self }
        } else if self.yields_left == 0 {
            HarnessView { tries_left: 0, ..self }
        } else {
            HarnessView { tries_left: (self.tries_left - 1) as u32, ..self.after_yield() }
        }
    }

    /// State after a drain of one queue found the given chain heads.
    pub open spec fn after_drain(self, rx: bool, heads: Seq<u16>) -> Self {
        if rx {
            HarnessView { rx: self.rx.after_drain(heads), ..self }
        } else {
            HarnessView { tx: self.tx.after_drain(heads), ..self }
        }
    }

    /// State after one more action is counted.
    pub open spec fn after_action_due(self) -> Self {
        HarnessView { actions_left: (self.actions_left - 1) as u32, ..self }
    }

    /// A run that has done nothing yet.
    pub open spec fn fresh(device_features: u64) -> Self {
        HarnessView {
            rx: QueueView::idle(RX_DESC_ADDR, RX_AVAIL_ADDR, RX_USED_ADDR),
            tx: QueueView::idle(TX_DESC_ADDR, TX_AVAIL_ADDR, TX_USED_ADDR),
            data: DataAlloc::fresh(),
            allowed_features: device_features & !RING_PACKED_BIT,
            enabled: false,
            attached: false,
            tries_left: 0,
            yields_left: MAX_YIELDS,
            actions_left: MAX_ACTIONS,
            tx_sync: true,
            tx_max_packets: usize::MAX,
        }
    }
}

/// The data buffers of a chain hold few bytes together.
pub proof fn chain_bytes_are_few(n: int, len: int)
    requires
        0 <= n <= MAX_TX_DATA_SEGMENTS,
        0 <= len <= MAX_BUF_LEN,
    ensures
        0 <= n * len <= MAX_TX_DATA_SEGMENTS * MAX_BUF_LEN,
{
    assert(0 <= n * len <= 4 * 512) by (nonlinear_arith)
        requires
            0 <= n <= 4,
            0 <= len <= 512,
    ;
}

/// Hands out the data buffers of a chain that the budget pays for, and writes
/// their descriptors.
fn lay_buffers(
    data: &mut DataAlloc,
    rx: bool,
    first: u16,
    n: u16,
    len: u32,
    ops: &mut Vec<Op>,
)
    requires
        old(data).wf(),
        old(data).affords(n * len),
        first + n <= QUEUE_SLOTS,
    ensures
        final(data).wf(),
        *final(data) == old(data).after_each(len as int, n as int),
        final(ops)@ == old(ops)@ + buffer_ops(
            rx,
            *old(data),
            first as int,
            n as int,
            len as int,
            n as int,
        ),
{
    let ghost start = *data;
    let mut i: u16 = 0;
    while i < n
        invariant
            start == *old(data),
            start.wf(),
            start.affords(n * len),
            data.wf(),
            i <= n,
            first + n <= QUEUE_SLOTS,
            *data == start.after_each(len as int, i as int),
            ops@ == old(ops)@ + buffer_ops(
                rx,
                start,
                first as int,
                n as int,
                len as int,
                i as int,
            ),
        decreases n - i,
    {
        proof {
            assert((i + 1) * len <= n * len) by (nonlinear_arith)
                requires
                    i + 1 <= n,
            ;
            affordable_requests_are_granted(start, len as int, i + 1);
        }
        let gpa: u64 = match data.alloc_bytes(len) {
            Some(gpa) => gpa,
            None => return,
        };
        let last: bool = i == n - 1;
        let index: u16 = first + i;
        let op: Op = Op::WriteDescriptor {
            rx,
            descriptor: Descriptor {
                index,
                gpa,
                len,
                flags: DescriptorFlags { next: !last, write: rx, indirect: false },
                next: if last {
                    0
                } else {
                    index + 1
                },
            },
        };
        ops.push(op);
        i = i + 1;
    }
}

impl Harness {
    /// Creates the books of a run that has done nothing yet, for a device that
    /// offers the given features.
    pub fn new(device_features: u64) -> (harness: Self)
        ensures
            harness@ == HarnessView::fresh(device_features),
            harness@.wf(),
    {
        proof {
            idle_queue_is_well_formed(RX_DESC_ADDR, RX_AVAIL_ADDR, RX_USED_ADDR);
            idle_queue_is_well_formed(TX_DESC_ADDR, TX_AVAIL_ADDR, TX_USED_ADDR);
            negotiation_is_safe(u64::MAX, device_features);
            assert(0xffff_ffff_ffff_ffffu64 & (device_features & !RING_PACKED_BIT) == device_features
                & !RING_PACKED_BIT) by (bit_vector);
        }
        Harness {
            rx: GuestQueue::new(RX_DESC_ADDR, RX_AVAIL_ADDR, RX_USED_ADDR),
            tx: GuestQueue::new(TX_DESC_ADDR, TX_AVAIL_ADDR, TX_USED_ADDR),
            data: DataAlloc::new(),
            allowed_features: without_ring_packed(device_features),
            enabled: false,
            attached: false,
            tries_left: 0,
            yields_left: MAX_YIELDS,
            actions_left: MAX_ACTIONS,
            tx_sync: true,
            tx_max_packets: usize::MAX,
        }
    }

    /// Starts both rings over.
    pub fn rebuild_rings(&mut self) -> (ops: Vec<Op>)
        requires
            old(self)@.wf(),
        ensures
            final(self)@.wf(),
            final(self)@ == old(self)@.after_rebuild(),
            ops@ == seq![Op::InitRings],
    {
        self.rx.reset();
        self.tx.reset();
        proof {
            idle_queue_is_well_formed(self.rx.desc_addr, self.rx.avail_addr, self.rx.used_addr);
            idle_queue_is_well_formed(self.tx.desc_addr, self.tx.avail_addr, self.tx.used_addr);
        }
        let mut ops: Vec<Op> = Vec::new();
        ops.push(Op::InitRings);
        ops
    }

    /// Whether the device's tasks may be let run, charging one yield to the
    /// budget if so.
    pub fn yield_now(&mut self) -> (granted: bool)
        requires
            old(self)@.wf(),
        ensures
            final(self)@.wf(),
            granted == (old(self)@.yields_left > 0),
            final(self)@ == old(self)@.after_yield(),
    {
        if self.yields_left == 0 {
            return false;
        }
        self.yields_left = self.yields_left - 1;
        true
    }

    /// Starts both queues unless they run. Only bits that the device offers are
    /// negotiated.
    pub fn start(&mut self, features: u64) -> (ops: Vec<Op>)
        requires
            old(self)@.wf(),
        ensures
            final(self)@.wf(),
            final(self)@ == old(self)@.after_start(),
            ops@ == old(self)@.start_ops(features),
    {
        if self.enabled {
            return Vec::new();
        }
        let mut ops: Vec<Op> = self.rebuild_rings();
        let accepted: u64 = negotiate(features, self.allowed_features);
        ops.push(Op::StartQueue { index: 0, features: accepted });
        ops.push(Op::StartQueue { index: 1, features: accepted });
        self.enabled = true;
        self.tries_left = HANDLE_YIELD_BUDGET;
        ops.push(Op::Attach);
        assert(ops@ =~= old(self)@.start_ops(features));
        ops
    }

    /// Whether the backend handle of the running queues is to be asked for.
    pub fn handle_due(&self) -> (due: bool)
        ensures
            due == (self@.tries_left > 0),
    {
        self.tries_left > 0
    }

    /// Decides what to do after asking for the backend handle of the running
    /// queues. The transmit mode is handed over with it, so that it survives a
    /// restart.
    pub fn attach(&mut self, arrived: bool) -> (next: Attach)
        requires
            old(self)@.wf(),
        ensures
            final(self)@.wf(),
            next == old(self)@.attach_outcome(arrived),
            final(self)@ == old(self)@.after_attach(arrived),
    {
        if self.tries_left == 0 {
            return Attach::GiveUp;
        }
        if arrived {
            self.attached = true;
            self.tries_left = 0;
            return Attach::Connect {
                tx_sync: self.tx_sync,
                tx_max_packets: self.tx_max_packets,
            };
        }
        if self.yield_now() {
            self.tries_left = self.tries_left - 1;
            Attach::Yield
        } else {
            self.tries_left = 0;
            Attach::GiveUp
        }
    }

    /// Stops both queues if they run.
    pub fn stop(&mut self) -> (ops: Vec<Op>)
        requires
            old(self)@.wf(),
        ensures
            final(self)@.wf(),
            final(self)@ == old(self)@.after_stop(),
            ops@ == old(self)@.stop_ops(),
    {
        let mut ops: Vec<Op> = Vec::new();
        if !self.enabled {
            return ops;
        }
        ops.push(Op::StopQueue { index: 1 });
        ops.push(Op::StopQueue { index: 0 });
        self.enabled = false;
        self.attached = false;
        self.tries_left = 0;
        ops.push(Op::Detach);
        ops
    }

    /// Stops both queues if they run, and resets the device.
    pub fn reset(&mut self) -> (ops: Vec<Op>)
        requires
            old(self)@.wf(),
        ensures
            final(self)@.wf(),
            final(self)@ == old(self)@.after_stop(),
            ops@ == old(self)@.reset_ops(),
    {
        let mut ops: Vec<Op> = self.stop();
        ops.push(Op::ResetDevice);
        assert(ops@ =~= old(self)@.reset_ops());
        ops
    }

    /// Posts a writable receive chain and kicks the receive queue, unless a
    /// bound is hit.
    pub fn post_rx(&mut self, segments: u8, len: u16) -> (ops: Vec<Op>)
        requires
            old(self)@.wf(),
        ensures
            final(self)@.wf(),
            final(self)@ == old(self)@.after_post_rx(segments, len),
            ops@ == old(self)@.post_rx_ops(segments, len),
    {
        let mut ops: Vec<Op> = Vec::new();
        let n: usize = 1 + segments as usize % MAX_RX_SEGMENTS;
        let len: u32 = len as u32 % (MAX_BUF_LEN + 1);
        proof {
            reserving_takes_free_slots(self.rx@, n as int);
            chain_bytes_are_few(n as int, len as int);
        }
        if n as u64 * len as u64 > self.data.budget {
            return ops;
        }
        let head: u16 = match self.rx.alloc_slots(n) {
            Some(head) => head,
            None => return ops,
        };
        lay_buffers(&mut self.data, true, head, n as u16, len, &mut ops);
        ops.push(Op::MakeAvailable { rx: true, head });
        ops.push(Op::Kick { rx: true });
        assert(ops@ =~= chain_ops(
            true,
            old(self)@.data,
            head as int,
            head as int,
            n as int,
            len as int,
        ));
        ops
    }

    /// Posts a transmit chain, a header and data buffers, and kicks the transmit
    /// queue, unless a bound is hit.
    #[verifier::rlimit(40)]
    pub fn post_tx(
        &mut self,
        header: [u8; NET_HEADER_BYTES],
        header_len: u8,
        segments: u8,
        len: u16,
    ) -> (ops: Vec<Op>)
        requires
            old(self)@.wf(),
        ensures
            final(self)@.wf(),
            final(self)@ == old(self)@.after_post_tx(header_len, segments, len),
            ops@ == old(self)@.post_tx_ops(header, header_len, segments, len),
    {
        let mut ops: Vec<Op> = Vec::new();
        let n: usize = 1 + segments as usize % MAX_TX_DATA_SEGMENTS;
        let len: u32 = len as u32 % (MAX_BUF_LEN + 1);
        let announced: u32 = match header_len % 8 {
            0 => 0,
            1 => NET_HEADER_SIZE / 2,
            2 => NET_HEADER_SIZE + 4,
            _ => NET_HEADER_SIZE,
        };
        let room: u32 = if announced > NET_HEADER_SIZE {
            announced
        } else {
            NET_HEADER_SIZE
        };
        proof {
            reserving_takes_free_slots(self.tx@, n + 1);
            chain_bytes_are_few(n as int, len as int);
        }
        if room as u64 + n as u64 * len as u64 > self.data.budget {
            return ops;
        }
        let head: u16 = match self.tx.alloc_slots(n + 1) {
            Some(head) => head,
            None => return ops,
        };
        let gpa: u64 = match self.data.alloc_bytes(room) {
            Some(gpa) => gpa,
            None => return ops,
        };
        ops.push(Op::WriteHeader { gpa, header });
        ops.push(
            Op::WriteDescriptor {
                rx: false,
                descriptor: Descriptor {
                    index: head,
                    gpa,
                    len: announced,
                    flags: DescriptorFlags { next: true, write: false, indirect: false },
                    next: head + 1,
                },
            },
        );
        assert(ops@ =~= header_ops(old(self)@.data, head as int, header, header_len));
        let ghost data = self.data;
        lay_buffers(&mut self.data, false, head + 1, n as u16, len, &mut ops);
        ops.push(Op::MakeAvailable { rx: false, head });
        ops.push(Op::Kick { rx: false });
        assert(ops@ =~= header_ops(old(self)@.data, head as int, header, header_len) + chain_ops(
            false,
            data,
            head as int,
            head + 1,
            n as int,
            len as int,
        ));
        ops
    }

    /// Hands a request to the backend if its handle is held.
    fn with_shared(&self, op: BackendOp) -> (ops: Vec<Op>)
        ensures
            ops@ == self@.backend_ops(op),
    {
        let mut ops: Vec<Op> = Vec::new();
        if self.attached {
            ops.push(Op::Backend(op));
        }
        ops
    }

    /// Releases the chains that a drain of one queue found to be used.
    pub fn drain_used(&mut self, rx: bool, heads: &Vec<u16>)
        requires
            old(self)@.wf(),
        ensures
            final(self)@.wf(),
            final(self)@ == old(self)@.after_drain(rx, heads@),
    {
        proof {
            draining_keeps_accounts_sound(self.rx@, heads@);
            draining_keeps_accounts_sound(self.tx@, heads@);
        }
        if rx {
            self.rx.drain_used(heads);
        } else {
            self.tx.drain_used(heads);
        }
    }

    /// Decides on what an action takes.
    pub fn run_action(&mut self, action: Action) -> (ops: Vec<Op>)
        requires
            old(self)@.wf(),
        ensures
            final(self)@.wf(),
            final(self)@ == old(self)@.after_action(action),
            ops@ == old(self)@.action_ops(action),
    {
        let mut ops: Vec<Op> = Vec::new();
        match action {
            Action::PostRx { segments, len } => {
                ops = self.post_rx(segments, len);
            },
            Action::PostTx { header, header_len, segments, len } => {
                ops = self.post_tx(header, header_len, segments, len);
            },
            Action::Kick { rx } => ops.push(Op::Kick { rx }),
            Action::InjectRx { len, ip, l4, segmented } => {
                let inject: RxInject = RxInject {
                    len: len as u32,
                    ip_checksum: checksum_state(ip),
                    l4_checksum: checksum_state(l4),
                    segmented,
                };
                ops = self.with_shared(BackendOp::Inject(inject));
            },
            Action::SetTxMode { sync, max_packets } => {
                // Never zero, which would wedge transmission.
                let max_packets: usize = 1 + max_packets as usize % MAX_TX_PACKETS_PER_AVAIL;
                ops = self.with_shared(BackendOp::SetTxMode { sync, max_packets });
                self.tx_sync = sync;
                self.tx_max_packets = max_packets;
            },
            Action::CompleteTx { count } => {
                ops = self.with_shared(BackendOp::CompleteTx { count });
            },
            Action::FailTxPoll { fatal, key, features } => {
                if key % FAIL_TX_POLL_RATE == 0 {
                    ops = self.with_shared(BackendOp::FailTxPoll { fatal });
                    // The worker sees the failure and exits, so the device has
                    // to be brought back.
                    ops.push(Op::Yield { count: FAIL_TX_POLL_YIELDS });
                    ops.append(&mut self.reset());
                    ops.append(&mut self.start(features));
                }
            },
            Action::Yield { count } => {
                ops.push(Op::Yield { count: count as u32 % MAX_YIELDS_PER_ACTION + 1 });
            },
            Action::DrainUsed { rx } => ops.push(Op::DrainUsed { rx, limit: MAX_DRAIN }),
            Action::Stop => {
                ops = self.stop();
            },
            Action::Reset => {
                ops = self.reset();
            },
            Action::RebuildRings => {
                // Under a running device this would replay stale entries.
                if !self.enabled {
                    ops = self.rebuild_rings();
                }
            },
            Action::Start { features } => {
                ops = self.start(features);
            },
            Action::Restart { features } => {
                ops = self.reset();
                ops.append(&mut self.rebuild_rings());
                self.data = DataAlloc::new();
                ops.append(&mut self.start(features));
            },
        }
        assert(ops@ =~= old(self)@.action_ops(action));
        ops
    }

    /// What follows every action: completed descriptors are recycled, and the
    /// device's tasks get a chance to run.
    pub fn after_action(&self) -> (ops: Vec<Op>)
        ensures
            ops@ == seq![
                Op::DrainUsed { rx: true, limit: MAX_DRAIN },
                Op::DrainUsed { rx: false, limit: MAX_DRAIN },
                Op::Yield { count: 1 },
            ],
    {
        let mut ops: Vec<Op> = Vec::new();
        ops.push(Op::DrainUsed { rx: true, limit: MAX_DRAIN });
        ops.push(Op::DrainUsed { rx: false, limit: MAX_DRAIN });
        ops.push(Op::Yield { count: 1 });
        ops
    }

    /// Begins a run: the transmit mode and the feature word are drawn from the
    /// input, and the queues are started.
    pub fn begin(&mut self, input: &mut Unstructured<'_>) -> (ops: Result<Vec<Op>, InputError>)
        requires
            old(self)@.wf(),
        ensures
            final(self)@.wf(),
            ({
                let bytes = unread(*old(input));
                let rest = left_after(bytes, 1);
                let sync = le_value(drawn(bytes, 1)) % 2 == 1;
                let features = le_value(drawn(rest, 8)) as u64;
                let chosen = HarnessView { tx_sync: sync, ..old(self)@ };
                &&& ops is Ok
                &&& ops->Ok_0@ == chosen.start_ops(features)
                &&& final(self)@ == chosen.after_start()
                &&& unread(*final(input)) == left_after(rest, 8)
            }),
    {
        match draw_bool(input) {
            Ok(tx_sync) => {
                self.tx_sync = tx_sync;
            },
            Err(error) => return Err(error),
        }
        match draw_u64(input) {
            Ok(features) => Ok(self.start(features)),
            Err(error) => Err(error),
        }
    }

    /// Whether another action is to be drawn from the input: not once the bound
    /// on actions is reached or the input is used up.
    pub fn next_action_due(&mut self, input: &Unstructured<'_>) -> (due: bool)
        requires
            old(self)@.wf(),
        ensures
            final(self)@.wf(),
            due == (old(self)@.actions_left > 0 && unread(*input).len() > 0),
            final(self)@ == (if due {
                old(self)@.after_action_due()
            } else {
                old(self)@
            }),
    {
        if self.actions_left == 0 || is_empty(input) {
            return false;
        }
        self.actions_left = self.actions_left - 1;
        true
    }
}

} // verus!
