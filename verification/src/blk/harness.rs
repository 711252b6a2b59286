//! The state of one virtio-blk fuzz run, and what each action does to it.

use arbitrary::Unstructured;
use vstd::prelude::*;

use super::chain::{
    chain_descriptors, chain_head, data_gpa, data_next, encode_header, frag_len, header_bytes,
    header_len, link_chain, payload_len, Buffer, ChainLayout, Fill,
};
use super::grammar::{Action, ChainSpec};
use super::layout::{
    BAD_GPA, DATA_BASE, DATA_END, FRAG_GAP, MAX_ACTIONS, MAX_CHAINS, MAX_CHAIN_PAYLOAD_BYTES,
    MAX_DESCS_PER_CHAIN, MAX_DRAIN_ENTRIES, MAX_PAYLOAD_FRAGS, MAX_TOTAL_PAYLOAD_BYTES, MAX_YIELDS,
    PAYLOAD_FILL, QUEUE_SIZE, STATUS_FILL, TEARDOWN_YIELDS,
};
use crate::input::{drawn, draw_u64, is_empty, left_after, unread, InputError};
use crate::ring::{negotiate, without_ring_packed, Descriptor, RING_PACKED_BIT};
use crate::wire::le_value;

verus! {

/// A chain ready to be published. Its parts are to be carried out in the order
/// of the fields, because buffers may alias: the header is written, the payload
/// runs are filled, the status byte is set, the descriptors are written, the
/// head is made available, and then the queue is kicked if asked for.
#[derive(Debug)]
pub struct Submission {
    pub header_gpa: u64,
    pub header: Vec<u8>,
    pub fills: Vec<Fill>,
    pub status: Option<Fill>,
    pub descriptors: Vec<Descriptor>,
    pub head: u16,
    pub kick: bool,
}

/// Something to do to the device, its queue, or guest memory.
#[derive(Debug)]
pub enum Step<S> {
    /// Write a chain and make it available.
    Publish(Submission),
    /// Signal the queue event.
    Kick,
    /// Let the device run, if the yield budget allows.
    Yield,
    /// Read the used ring, up to `limit` entries, and report what was found.
    DrainUsed { limit: u32 },
    /// Initialize the available and used rings.
    InitRings,
    /// Start the queue.
    StartQueue { initial: Option<S> },
    /// Stop the queue, and report its state if it is to be kept.
    StopQueue { keep_state: bool },
    /// Reset the device.
    ResetDevice,
}

/// The device completed more chains than were published.
#[derive(Debug, Clone, Copy, PartialEq, Eq, Structural)]
pub struct Overrun {
    pub completions: u32,
    pub chains_submitted: u32,
}

/// The books of one fuzz run. `S` is the queue state that a stopped queue hands
/// back.
pub struct Harness<S> {
    pub started: bool,
    /// Negotiated feature word, fixed for the whole run.
    pub features: u64,
    pub saved_state: Option<S>,
    /// Next available-ring index, moved on by whoever publishes a chain.
    pub avail_idx: u16,
    /// Next used-ring index, moved on by whoever reads the used ring.
    pub used_idx: u16,
    pub next_desc: u16,
    pub next_data: u64,
    /// Payload bytes left for the run.
    pub payload_budget: u32,
    pub chains_submitted: u32,
    pub completions: u32,
    pub yields_used: u32,
    pub actions_taken: u32,
}

/// A chain that has its place in the data region, but no descriptor slots yet.
struct ChainParts {
    header_gpa: u64,
    header: Vec<u8>,
    buffers: Vec<Buffer>,
    fills: Vec<Fill>,
    status: Option<Fill>,
}

impl Submission {
    /// This is the chain that `layout` describes, starting at the slot that
    /// follows from `next_desc`.
    pub open spec fn follows(self, layout: ChainLayout, next_desc: int) -> bool {
        let head = chain_head(next_desc, layout.buffers().len() as int);
        &&& self.header_gpa == layout.header_gpa()
        &&& self.header@ == header_bytes(layout.spec.req)
        &&& self.fills@ == layout.fills(layout.frags())
        &&& self.status == layout.status_fill()
        &&& self.descriptors@ == chain_descriptors(
            layout.buffers(),
            head,
            layout.spec.indirect_flag,
        )
        &&& self.head == head
        &&& self.kick == layout.spec.kick
    }
}

impl<S> Harness<S> {
    /// The bounds that hold throughout a run.
    pub open spec fn wf(self) -> bool {
        &&& self.features & RING_PACKED_BIT == 0
        &&& self.next_desc <= QUEUE_SIZE
        &&& DATA_BASE <= self.next_data <= DATA_BASE + u32::MAX
        &&& self.payload_budget <= MAX_TOTAL_PAYLOAD_BYTES
        &&& self.completions <= self.chains_submitted <= MAX_CHAINS
        &&& self.yields_used <= MAX_YIELDS
        &&& self.actions_taken <= MAX_ACTIONS
    }

    /// The layout of a chain built in this state.
    pub open spec fn layout(self, spec: ChainSpec) -> ChainLayout {
        ChainLayout { spec, cursor: self.next_data as int, budget: self.payload_budget as int }
    }

    /// A run that has done nothing yet.
    pub open spec fn fresh(raw_features: u64, device_features: u64) -> Self {
        Harness {
            started: false,
            features: raw_features & (device_features & !RING_PACKED_BIT),
            saved_state: None,
            avail_idx: 0,
            used_idx: 0,
            next_desc: 0,
            next_data: DATA_BASE,
            payload_budget: MAX_TOTAL_PAYLOAD_BYTES,
            chains_submitted: 0,
            completions: 0,
            yields_used: 0,
            actions_taken: 0,
        }
    }

    /// Creates the books of a run that has done nothing yet. A guest may only
    /// take feature bits the device offers, so the requested word is masked.
    pub fn new(raw_features: u64, device_features: u64) -> (harness: Self)
        ensures
            harness.wf(),
            harness == Self::fresh(raw_features, device_features),
    {
        let features: u64 = negotiate(raw_features, without_ring_packed(device_features));
        proof {
            crate::ring::negotiation_is_safe(raw_features, device_features);
        }
        Harness {
            started: false,
            features,
            saved_state: None,
            avail_idx: 0,
            used_idx: 0,
            next_desc: 0,
            next_data: DATA_BASE,
            payload_budget: MAX_TOTAL_PAYLOAD_BYTES,
            chains_submitted: 0,
            completions: 0,
            yields_used: 0,
            actions_taken: 0,
        }
    }

    /// State after `len` bytes of the data region are handed out.
    pub open spec fn after_alloc(self, len: int) -> Self {
        Harness { next_data: data_next(self.next_data as int, len) as u64, ..self }
    }

    /// Hands out `len` bytes of guest memory, wrapping around when the data
    /// region is exhausted. Reuse is intended: later chains alias the buffers
    /// of earlier ones.
    pub fn alloc_bytes(&mut self, len: u32) -> (gpa: u64)
        requires
            old(self).wf(),
        ensures
            final(self).wf(),
            gpa == data_gpa(old(self).next_data as int, len as int),
            final(self).next_data == data_next(old(self).next_data as int, len as int),
            *final(self) == old(self).after_alloc(len as int),
    {
        let len: u64 = len as u64;
        if self.next_data + len > DATA_END {
            self.next_data = DATA_BASE;
        }
        let gpa: u64 = self.next_data;
        self.next_data = self.next_data + len;
        gpa
    }

    /// Lays out the payload of a chain: one buffer per fragment, each followed
    /// by a gap if asked for.
    fn lay_payload(
        &mut self,
        spec: &ChainSpec,
        payload: u32,
        count: u32,
        layout: Ghost<ChainLayout>,
        buffers: &mut Vec<Buffer>,
        fills: &mut Vec<Fill>,
    )
        requires
            old(self).wf(),
            layout@.spec == *spec,
            payload == layout@.payload(),
            payload <= MAX_CHAIN_PAYLOAD_BYTES,
            count == layout@.frags(),
            old(self).next_data == layout@.cursor_at(0),
            old(fills)@.len() == 0,
        ensures
            final(self).wf(),
            final(self).next_data == layout@.cursor_at(count as int),
            *final(self) == (Harness { next_data: final(self).next_data, ..*old(self) }),
            final(buffers)@ == old(buffers)@ + layout@.frag_buffers(count as int),
            final(fills)@ == layout@.fills(count as int),
    {
        let ghost layout = layout@;
        let ghost each = if count == 0 { 0 } else { payload as int / count as int };
        let mut remaining: u32 = payload;
        let mut i: u32 = 0;
        proof {
            if count > 0 {
                vstd::arithmetic::div_mod::lemma_fundamental_div_mod(payload as int, count as int);
                assert(count * each <= payload);
            }
            assert(0 * each == 0) by (nonlinear_arith);
        }
        while i < count
            invariant
                self.wf(),
                layout.spec == *spec,
                payload == layout.payload(),
                payload <= MAX_CHAIN_PAYLOAD_BYTES,
                count == layout.frags(),
                0 <= i <= count <= MAX_PAYLOAD_FRAGS,
                count > 0 ==> each == payload as int / count as int,
                each >= 0,
                count * each <= payload,
                remaining == if i < count { payload - i * each } else { 0 },
                self.next_data == layout.cursor_at(i as int),
                *self == (Harness { next_data: self.next_data, ..*old(self) }),
                buffers@ == old(buffers)@ + layout.frag_buffers(i as int),
                fills@ == layout.fills(i as int),
            decreases count - i,
        {
            proof {
                assert(i * each <= count * each) by (nonlinear_arith)
                    requires i <= count, each >= 0;
                assert((i + 1) * each == i * each + each) by (nonlinear_arith);
                assert((i + 1) * each <= count * each) by (nonlinear_arith)
                    requires i + 1 <= count, each >= 0;
            }
            let mut len: u32 = remaining;
            if i + 1 != count {
                len = payload / count;
                if len > remaining {
                    len = remaining;
                }
            }
            proof {
                if i + 1 == count {
                    assert((count - 1) * each == i * each);
                }
                assert(len == frag_len(payload as int, count as int, i as int));
            }
            remaining = remaining - len;
            let gpa: u64 = self.alloc_bytes(len);
            if len > 0 {
                fills.push(Fill { gpa, len, byte: PAYLOAD_FILL });
            }
            let buffer = Buffer { gpa, len, writable: spec.writable_payload };
            assert(buffer == layout.frag_buffer(i as int));
            buffers.push(buffer);
            if spec.gap_between_frags {
                let _gap: u64 = self.alloc_bytes(FRAG_GAP);
            }
            proof {
                assert(layout.frag_buffers(i + 1) =~= layout.frag_buffers(i as int).push(buffer));
            }
            i = i + 1;
        }
    }

    /// Lays out the buffers of a chain in the data region and charges its
    /// payload to the budget.
    fn lay_chain(&mut self, spec: &ChainSpec) -> (parts: ChainParts)
        requires
            old(self).wf(),
        ensures
            final(self).wf(),
            ({
                let layout = old(self).layout(*spec);
                &&& parts.header_gpa == layout.header_gpa()
                &&& parts.header@ == header_bytes(spec.req)
                &&& parts.buffers@ == layout.buffers()
                &&& 1 <= parts.buffers@.len() <= MAX_DESCS_PER_CHAIN
                &&& parts.fills@ == layout.fills(layout.frags())
                &&& parts.status == layout.status_fill()
                &&& *final(self) == (Harness {
                    next_data: layout.end_cursor() as u64,
                    payload_budget: (old(self).payload_budget - layout.payload()) as u32,
                    ..*old(self)
                })
            }),
    {
        let ghost layout = self.layout(*spec);
        let header: Vec<u8> = encode_header(spec.req);
        let header_len: u32 = header.len() as u32;
        let header_gpa: u64 = self.alloc_bytes(header_len);

        let payload: u32 = payload_len(spec, self.payload_budget);
        self.payload_budget = self.payload_budget - payload;
        let count: u32 = if payload == 0 {
            0
        } else {
            1 + (spec.frags % MAX_PAYLOAD_FRAGS) as u32
        };

        let mut buffers: Vec<Buffer> = Vec::new();
        let header_desc_len: u32 = if spec.short_header {
            header_len / 2
        } else {
            header_len
        };
        buffers.push(Buffer { gpa: header_gpa, len: header_desc_len, writable: false });
        assert(buffers@ =~= seq![layout.header_buffer()]);

        // The zero-length buffer belongs in the middle of the chain. Without a
        // status buffer to follow it, it goes before the payload.
        let zero_before_payload: bool = spec.zero_len_desc && spec.omit_status && payload > 0;
        if zero_before_payload {
            let gpa: u64 = self.alloc_bytes(0);
            buffers.push(Buffer { gpa, len: 0, writable: spec.writable_payload });
            assert(buffers@ =~= seq![layout.header_buffer()] + layout.zero_buffers());
        }

        let mut fills: Vec<Fill> = Vec::new();
        self.lay_payload(spec, payload, count, Ghost(layout), &mut buffers, &mut fills);

        if spec.zero_len_desc && !zero_before_payload {
            let gpa: u64 = self.alloc_bytes(0);
            buffers.push(Buffer { gpa, len: 0, writable: spec.writable_payload });
        }

        let mut status: Option<Fill> = None;
        if !spec.omit_status {
            let gpa: u64 = self.alloc_bytes(1);
            status = Some(Fill { gpa, len: 1, byte: STATUS_FILL });
            buffers.push(Buffer { gpa, len: 1, writable: !spec.readable_status });
        }
        assert(buffers@ =~= layout.sound_buffers());

        if spec.bad_gpa {
            let last: usize = buffers.len() - 1;
            let sound: Buffer = buffers[last];
            buffers.set(last, Buffer { gpa: BAD_GPA, len: sound.len, writable: sound.writable });
        }
        assert(buffers@ =~= layout.buffers());
        ChainParts { header_gpa, header, buffers, fills, status }
    }

    /// State after a chain is built and published.
    pub open spec fn after_submit(self, spec: ChainSpec) -> Self {
        let layout = self.layout(spec);
        let n = layout.buffers().len() as int;
        Harness {
            next_desc: (chain_head(self.next_desc as int, n) + n) as u16,
            next_data: layout.end_cursor() as u64,
            payload_budget: (self.payload_budget - layout.payload()) as u32,
            chains_submitted: (self.chains_submitted + 1) as u32,
            ..self
        }
    }

    /// Builds one descriptor chain, unless the input has published as many as
    /// it may.
    pub fn submit(&mut self, spec: &ChainSpec) -> (submission: Option<Submission>)
        requires
            old(self).wf(),
        ensures
            final(self).wf(),
            submission is None <==> old(self).chains_submitted >= MAX_CHAINS,
            match submission {
                Some(submission) => {
                    &&& submission.follows(old(self).layout(*spec), old(self).next_desc as int)
                    &&& *final(self) == old(self).after_submit(*spec)
                },
                None => *final(self) == *old(self),
            },
    {
        if self.chains_submitted >= MAX_CHAINS {
            return None;
        }
        let parts: ChainParts = self.lay_chain(spec);

        // Descriptor slots are consecutive; wrap when the table runs out.
        let n: usize = parts.buffers.len();
        if self.next_desc as usize + n > QUEUE_SIZE as usize {
            self.next_desc = 0;
        }
        let head: u16 = self.next_desc;
        self.next_desc = self.next_desc + n as u16;

        let descriptors: Vec<Descriptor> = link_chain(&parts.buffers, head, spec.indirect_flag);
        self.chains_submitted = self.chains_submitted + 1;
        Some(
            Submission {
                header_gpa: parts.header_gpa,
                header: parts.header,
                fills: parts.fills,
                status: parts.status,
                descriptors,
                head,
                kick: spec.kick,
            },
        )
    }

    /// State after the device is let run, if the yield budget allows.
    pub open spec fn after_yield(self) -> Self {
        if self.yields_used < MAX_YIELDS {
            Harness { yields_used: (self.yields_used + 1) as u32, ..self }
        } else {
            self
        }
    }

    /// Whether the input may still let the device run, charging one yield to
    /// the budget if so.
    pub fn yield_to_device(&mut self) -> (granted: bool)
        requires
            old(self).wf(),
        ensures
            final(self).wf(),
            granted == (old(self).yields_used < MAX_YIELDS),
            *final(self) == old(self).after_yield(),
    {
        if self.yields_used >= MAX_YIELDS {
            return false;
        }
        self.yields_used = self.yields_used + 1;
        true
    }

    /// State after a drain that found `entries` completions; those beyond the
    /// published chains are not counted.
    pub open spec fn after_drain(self, entries: nat) -> Self {
        Harness {
            completions: if self.completions + entries <= self.chains_submitted {
                (self.completions + entries) as u32
            } else {
                self.chains_submitted
            },
            ..self
        }
    }

    /// Takes note of the used-ring entries, pairs of chain head and written
    /// length, that a drain found. The device must never complete more chains
    /// than were published.
    pub fn drain_used(&mut self, entries: &Vec<(u16, u32)>) -> (outcome: Result<(), Overrun>)
        requires
            old(self).wf(),
        ensures
            final(self).wf(),
            outcome is Ok <==> old(self).completions + entries@.len()
                <= old(self).chains_submitted,
            outcome is Ok ==> final(self).completions == old(self).completions + entries@.len(),
            outcome matches Err(overrun) ==> overrun == (Overrun {
                completions: (old(self).chains_submitted + 1) as u32,
                chains_submitted: old(self).chains_submitted,
            }),
            *final(self) == old(self).after_drain(entries@.len()),
    {
        let mut i: usize = 0;
        while i < entries.len()
            invariant
                self.wf(),
                old(self).wf(),
                i <= entries@.len(),
                self.completions == old(self).completions + i,
                *self == (Harness { completions: self.completions, ..*old(self) }),
            decreases entries@.len() - i,
        {
            let completions: u32 = self.completions + 1;
            if completions > self.chains_submitted {
                return Err(Overrun { completions, chains_submitted: self.chains_submitted });
            }
            self.completions = completions;
            i = i + 1;
        }
        Ok(())
    }

    /// State after a start with `initial` queue state.
    pub open spec fn after_start(self, initial: Option<S>) -> Self {
        if self.started {
            self
        } else if initial is None {
            Harness { started: true, avail_idx: 0, used_idx: 0, ..self }
        } else {
            Harness { started: true, ..self }
        }
    }

    /// What a start with `initial` queue state takes. A running queue is left
    /// alone. Without a state the rings are initialized too, as by a guest that
    /// programs the queue from scratch.
    pub open spec fn start_steps(self, initial: Option<S>) -> Seq<Step<S>> {
        if self.started {
            Seq::empty()
        } else if initial is None {
            seq![Step::InitRings, Step::StartQueue { initial }]
        } else {
            seq![Step::StartQueue { initial }]
        }
    }

    /// Starts the queue unless it runs.
    pub fn start(&mut self, initial: Option<S>) -> (steps: Vec<Step<S>>)
        requires
            old(self).wf(),
        ensures
            final(self).wf(),
            *final(self) == old(self).after_start(initial),
            steps@ == old(self).start_steps(initial),
    {
        let mut steps: Vec<Step<S>> = Vec::new();
        if self.started {
            return steps;
        }
        if initial.is_none() {
            steps.push(Step::InitRings);
            self.avail_idx = 0;
            self.used_idx = 0;
        }
        steps.push(Step::StartQueue { initial });
        self.started = true;
        steps
    }

    /// State after a stopped queue handed back `state`.
    pub open spec fn after_queue_stopped(self, state: Option<S>) -> Self {
        Harness { saved_state: state, ..self }
    }

    /// Keeps the state that a stopped queue handed back.
    pub fn queue_stopped(&mut self, state: Option<S>)
        requires
            old(self).wf(),
        ensures
            final(self).wf(),
            *final(self) == old(self).after_queue_stopped(state),
    {
        self.saved_state = state;
    }

    /// The queue state that a restart goes by.
    pub open spec fn restart_state(self, use_saved_state: bool) -> Option<S> {
        if use_saved_state {
            self.saved_state
        } else {
            None
        }
    }

    /// State once a restart has picked its queue state; a saved state is used
    /// at most once.
    pub open spec fn before_restart(self, use_saved_state: bool) -> Self {
        if use_saved_state {
            Harness { saved_state: None, ..self }
        } else {
            self
        }
    }

    /// State after an action is decided on. The steps of the action may move it
    /// on further: `yield_to_device`, `drain_used` and `queue_stopped` say how.
    pub open spec fn after_action(self, action: Action) -> Self {
        match action {
            Action::Submit(spec) => if self.chains_submitted >= MAX_CHAINS {
                self
            } else {
                self.after_submit(spec)
            },
            Action::Kick | Action::Yield | Action::DrainUsed => self,
            Action::StopQueue => Harness { started: false, ..self },
            Action::Reset => Harness { started: false, saved_state: None, ..self },
            Action::Restart { use_saved_state } => self.before_restart(
                use_saved_state,
            ).after_start(self.restart_state(use_saved_state)),
        }
    }

    /// The steps that an action other than a submission takes.
    pub open spec fn action_steps(self, action: Action) -> Seq<Step<S>>
        recommends
            !(action is Submit),
    {
        match action {
            Action::Submit(_) => Seq::empty(),
            Action::Kick => seq![Step::Kick],
            Action::Yield => seq![Step::Yield],
            Action::DrainUsed => seq![Step::DrainUsed { limit: MAX_DRAIN_ENTRIES }],
            Action::StopQueue => if self.started {
                seq![Step::StopQueue { keep_state: true }]
            } else {
                Seq::empty()
            },
            Action::Reset => if self.started {
                seq![Step::StopQueue { keep_state: false }, Step::ResetDevice]
            } else {
                seq![Step::ResetDevice]
            },
            Action::Restart { use_saved_state } => self.start_steps(
                self.restart_state(use_saved_state),
            ),
        }
    }

    /// Decides on the steps of an action.
    pub fn apply(&mut self, action: Action) -> (steps: Vec<Step<S>>)
        requires
            old(self).wf(),
        ensures
            final(self).wf(),
            *final(self) == old(self).after_action(action),
            match action {
                Action::Submit(spec) => if old(self).chains_submitted >= MAX_CHAINS {
                    steps@.len() == 0
                } else {
                    &&& steps@.len() == 1
                    &&& steps@[0] matches Step::Publish(submission)
                    &&& submission.follows(old(self).layout(spec), old(self).next_desc as int)
                },
                _ => steps@ == old(self).action_steps(action),
            },
    {
        let mut steps: Vec<Step<S>> = Vec::new();
        match action {
            Action::Submit(spec) => {
                if let Some(submission) = self.submit(&spec) {
                    steps.push(Step::Publish(submission));
                }
            },
            Action::Kick => steps.push(Step::Kick),
            Action::Yield => steps.push(Step::Yield),
            Action::DrainUsed => steps.push(Step::DrainUsed { limit: MAX_DRAIN_ENTRIES }),
            Action::StopQueue => {
                if self.started {
                    steps.push(Step::StopQueue { keep_state: true });
                    self.started = false;
                }
            },
            Action::Reset => {
                // Transport order: all queues are stopped before reset.
                if self.started {
                    steps.push(Step::StopQueue { keep_state: false });
                    self.started = false;
                }
                steps.push(Step::ResetDevice);
                self.saved_state = None;
            },
            Action::Restart { use_saved_state } => {
                let state: Option<S> = if use_saved_state {
                    self.saved_state.take()
                } else {
                    None
                };
                steps = self.start(state);
            },
        }
        steps
    }

    /// Begins a run: the queue is started fresh.
    pub fn begin(&mut self) -> (steps: Vec<Step<S>>)
        requires
            old(self).wf(),
        ensures
            final(self).wf(),
            *final(self) == old(self).after_start(None),
            steps@ == old(self).start_steps(None),
    {
        self.start(None)
    }

    /// State after one more action is counted.
    pub open spec fn after_action_due(self) -> Self {
        Harness { actions_taken: (self.actions_taken + 1) as u32, ..self }
    }

    /// Whether another action is to be drawn from the input: not once the bound
    /// on actions is reached or the input is used up.
    pub fn next_action_due(&mut self, input: &Unstructured<'_>) -> (due: bool)
        requires
            old(self).wf(),
        ensures
            final(self).wf(),
            due == (old(self).actions_taken < MAX_ACTIONS && unread(*input).len() > 0),
            *final(self) == (if due {
                old(self).after_action_due()
            } else {
                *old(self)
            }),
    {
        if self.actions_taken < MAX_ACTIONS && !is_empty(input) {
            self.actions_taken = self.actions_taken + 1;
            true
        } else {
            false
        }
    }

    /// State after teardown is decided on: yields are set aside for in-flight
    /// work, and the queue is down.
    pub open spec fn after_teardown(self) -> Self {
        Harness {
            started: false,
            yields_used: if self.yields_used < TEARDOWN_YIELDS {
                0
            } else {
                (self.yields_used - TEARDOWN_YIELDS) as u32
            },
            ..self
        }
    }

    /// The steps of teardown.
    pub open spec fn teardown_steps() -> Seq<Step<S>> {
        Seq::new(TEARDOWN_YIELDS as nat, |i: int| Step::<S>::Yield) + seq![
            Step::StopQueue { keep_state: false },
            Step::ResetDevice,
            Step::DrainUsed { limit: MAX_DRAIN_ENTRIES },
        ]
    }

    /// Tears the device down the way a transport does: a bounded chance for
    /// in-flight work to finish, then stop, reset, and a last drain. The queue
    /// is stopped whether it runs or not.
    pub fn teardown(&mut self) -> (steps: Vec<Step<S>>)
        requires
            old(self).wf(),
        ensures
            final(self).wf(),
            *final(self) == old(self).after_teardown(),
            steps@ == Self::teardown_steps(),
    {
        self.yields_used = self.yields_used.saturating_sub(TEARDOWN_YIELDS);
        let mut steps: Vec<Step<S>> = Vec::new();
        let mut i: u32 = 0;
        while i < TEARDOWN_YIELDS
            invariant
                i <= TEARDOWN_YIELDS,
                steps@ =~= Seq::new(i as nat, |k: int| Step::<S>::Yield),
            decreases TEARDOWN_YIELDS - i,
        {
            steps.push(Step::Yield);
            i = i + 1;
        }
        steps.push(Step::StopQueue { keep_state: false });
        self.started = false;
        steps.push(Step::ResetDevice);
        steps.push(Step::DrainUsed { limit: MAX_DRAIN_ENTRIES });
        assert(steps@ =~= Self::teardown_steps());
        steps
    }

    /// Creates the books of a run, drawing the requested feature word from the
    /// input.
    pub fn from_input(input: &mut Unstructured<'_>, device_features: u64) -> (harness: Result<
        Self,
        InputError,
    >)
        ensures
            harness is Ok,
            harness->Ok_0.wf(),
            ({
                let raw = le_value(drawn(unread(*old(input)), 8)) as u64;
                harness->Ok_0 == Self::fresh(raw, device_features)
            }),
            unread(*final(input)) == left_after(unread(*old(input)), 8),
    {
        match draw_u64(input) {
            Ok(raw_features) => Ok(Self::new(raw_features, device_features)),
            Err(error) => Err(error),
        }
    }
}

} // verus!
