//! One split virtqueue from the guest's side.

use vstd::prelude::*;

use super::layout::{QUEUE_SIZE, QUEUE_SLOTS};

verus! {

/// Ring indices, and which descriptor slots the device owns.
///
/// Reusing a slot that is still in flight would wedge the queue, so slots are
/// accounted for: a chain keeps its slots until its head shows up in the used
/// ring.
#[derive(Debug)]
pub struct GuestQueue {
    pub desc_addr: u64,
    pub avail_addr: u64,
    pub used_addr: u64,
    /// Next available-ring index, moved on by whoever publishes a chain.
    pub avail_idx: u16,
    /// Next used-ring index, moved on by whoever reads the used ring.
    pub used_idx: u16,
    /// Slot occupied by an in-flight chain.
    pub busy: [bool; QUEUE_SLOTS],
    /// For a chain head, the number of slots it occupies; 0 otherwise.
    pub chain_len: [u8; QUEUE_SLOTS],
}

/// The contents of a `GuestQueue`.
#[verifier::ext_equal]
pub struct QueueView {
    pub desc_addr: u64,
    pub avail_addr: u64,
    pub used_addr: u64,
    pub avail_idx: u16,
    pub used_idx: u16,
    pub busy: Seq<bool>,
    pub chain_len: Seq<u8>,
}

impl View for GuestQueue {
    type V = QueueView;

    open spec fn view(&self) -> QueueView {
        QueueView {
            desc_addr: self.desc_addr,
            avail_addr: self.avail_addr,
            used_addr: self.used_addr,
            avail_idx: self.avail_idx,
            used_idx: self.used_idx,
            busy: self.busy@,
            chain_len: self.chain_len@,
        }
    }
}

/// The `n` slots from `i` on exist and are free.
pub open spec fn fits(busy: Seq<bool>, i: int, n: int) -> bool {
    &&& 0 <= i
    &&& i + n <= busy.len()
    &&& forall|k: int| i <= k < i + n ==> !#[trigger] busy[k]
}

/// The lowest slot at or after `from` where `n` slots are free.
pub open spec fn first_fit(busy: Seq<bool>, n: int, from: int) -> Option<int>
    decreases busy.len() - from,
{
    if from + n > busy.len() || from > busy.len() {
        None
    } else if fits(busy, from, n) {
        Some(from)
    } else {
        first_fit(busy, n, from + 1)
    }
}

/// `busy` with the `n` slots from `head` on set to `value`, as far as they
/// exist.
pub open spec fn with_run(busy: Seq<bool>, head: int, n: int, value: bool) -> Seq<bool> {
    Seq::new(
        busy.len(),
        |i: int|
            if head <= i < head + n {
                value
            } else {
                busy[i]
            },
    )
}

impl QueueView {
    /// A queue with no descriptor in flight and both indices at zero.
    pub open spec fn idle(desc_addr: u64, avail_addr: u64, used_addr: u64) -> Self {
        QueueView {
            desc_addr,
            avail_addr,
            used_addr,
            avail_idx: 0,
            used_idx: 0,
            busy: Seq::new(QUEUE_SLOTS as nat, |i: int| false),
            chain_len: Seq::new(QUEUE_SLOTS as nat, |i: int| 0u8),
        }
    }

    /// Slot `i` belongs to the chain with the given head.
    pub open spec fn owns(self, head: int, i: int) -> bool {
        &&& 0 <= head < self.chain_len.len()
        &&& head <= i < head + self.chain_len[head]
    }

    /// Chains lie in the table, do not overlap, and a slot is busy exactly if
    /// it belongs to a chain.
    pub open spec fn wf(self) -> bool {
        &&& self.busy.len() == QUEUE_SLOTS
        &&& self.chain_len.len() == QUEUE_SLOTS
        &&& forall|h: int|
            0 <= h < QUEUE_SLOTS ==> h + #[trigger] self.chain_len[h] <= QUEUE_SLOTS
        &&& forall|h: int, g: int, i: int|
            #[trigger] self.owns(h, i) && #[trigger] self.owns(g, i) ==> h == g
        &&& forall|h: int, i: int| #[trigger] self.owns(h, i) ==> self.busy[i]
        &&& forall|i: int|
            0 <= i < QUEUE_SLOTS && #[trigger] self.busy[i] ==> exists|h: int| self.owns(h, i)
    }

    /// Where a chain of `n` goes, if it fits.
    pub open spec fn slot_for(self, n: int) -> Option<int> {
        if n <= 0 || n > QUEUE_SLOTS {
            None
        } else {
            first_fit(self.busy, n, 0)
        }
    }

    /// State after `n` slots are asked for.
    pub open spec fn after_alloc(self, n: int) -> Self {
        match self.slot_for(n) {
            Some(head) => QueueView {
                busy: with_run(self.busy, head, n, true),
                chain_len: self.chain_len.update(head, n as u8),
                ..self
            },
            None => self,
        }
    }

    /// State after the chain at `head` is released.
    pub open spec fn after_free(self, head: int) -> Self {
        if 0 <= head < QUEUE_SLOTS {
            QueueView {
                busy: with_run(self.busy, head, self.chain_len[head] as int, false),
                chain_len: self.chain_len.update(head, 0),
                ..self
            }
        } else {
            self
        }
    }

    /// State after the chains of all `heads` are released, in order.
    pub open spec fn after_drain(self, heads: Seq<u16>) -> Self
        decreases heads.len(),
    {
        if heads.len() == 0 {
            self
        } else {
            self.after_drain(heads.drop_last()).after_free(heads.last() as int)
        }
    }

    /// State after the queue is rebuilt.
    pub open spec fn after_reset(self) -> Self {
        Self::idle(self.desc_addr, self.avail_addr, self.used_addr)
    }
}

impl GuestQueue {
    /// Creates the books of a queue whose rings are at the given addresses.
    pub fn new(desc_addr: u64, avail_addr: u64, used_addr: u64) -> (queue: Self)
        ensures
            queue@ == QueueView::idle(desc_addr, avail_addr, used_addr),
    {
        GuestQueue {
            desc_addr,
            avail_addr,
            used_addr,
            avail_idx: 0,
            used_idx: 0,
            busy: [false; QUEUE_SLOTS],
            chain_len: [0; QUEUE_SLOTS],
        }
    }

    /// Forgets all in-flight descriptors and goes back to index zero, for when
    /// the rings are initialized anew.
    pub fn reset(&mut self)
        ensures
            final(self)@ == old(self)@.after_reset(),
    {
        self.avail_idx = 0;
        self.used_idx = 0;
        self.busy = [false; QUEUE_SLOTS];
        self.chain_len = [0; QUEUE_SLOTS];
    }

    /// Whether the `n` slots from `head` on are free.
    fn run_is_free(&self, head: usize, n: usize) -> (free: bool)
        requires
            head + n <= QUEUE_SLOTS,
        ensures
            free == fits(self.busy@, head as int, n as int),
    {
        let mut i: usize = head;
        while i < head + n
            invariant
                head <= i <= head + n <= QUEUE_SLOTS,
                forall|k: int| head <= k < i ==> !#[trigger] self.busy@[k],
            decreases head + n - i,
        {
            if self.busy[i] {
                assert(self.busy@[i as int]);
                return false;
            }
            i = i + 1;
        }
        true
    }

    /// Marks the `n` slots from `head` on, as far as they exist.
    fn mark_run(&mut self, head: usize, n: usize, value: bool)
        requires
            head < QUEUE_SLOTS,
        ensures
            final(self)@ == (QueueView {
                busy: with_run(old(self)@.busy, head as int, n as int, value),
                ..old(self)@
            }),
    {
        let mut i: usize = head;
        while i < QUEUE_SLOTS && i - head < n
            invariant
                head <= i <= QUEUE_SLOTS,
                i - head <= n,
                self@ == (QueueView {
                    busy: with_run(old(self)@.busy, head as int, i - head, value),
                    ..old(self)@
                }),
            decreases QUEUE_SLOTS - i,
        {
            self.busy[i] = value;
            i = i + 1;
        }
    }

    /// Reserves `n` contiguous free descriptor slots, the lowest there are, or
    /// nothing if the table is too full.
    pub fn alloc_slots(&mut self, n: usize) -> (head: Option<u16>)
        ensures
            match old(self)@.slot_for(n as int) {
                Some(slot) => head == Some(slot as u16) && 0 <= slot && slot + n <= QUEUE_SLOTS,
                None => head is None,
            },
            final(self)@ == old(self)@.after_alloc(n as int),
    {
        if n == 0 || n > QUEUE_SIZE as usize {
            return None;
        }
        let mut head: usize = 0;
        while head <= QUEUE_SLOTS - n
            invariant
                1 <= n <= QUEUE_SLOTS,
                head <= QUEUE_SLOTS - n + 1,
                *self == *old(self),
                old(self)@.slot_for(n as int) == first_fit(
                    old(self)@.busy,
                    n as int,
                    head as int,
                ),
            decreases QUEUE_SLOTS - head,
        {
            if self.run_is_free(head, n) {
                self.mark_run(head, n, true);
                self.chain_len[head] = n as u8;
                return Some(head as u16);
            }
            head = head + 1;
        }
        None
    }

    /// Releases the slots of a chain once its head appears in the used ring. A
    /// slot that heads no chain, or is not in the table, releases nothing.
    pub fn free(&mut self, head: u16)
        ensures
            final(self)@ == old(self)@.after_free(head as int),
    {
        let head: usize = head as usize;
        if head >= QUEUE_SLOTS {
            return;
        }
        let n: usize = self.chain_len[head] as usize;
        self.chain_len[head] = 0;
        self.mark_run(head, n, false);
    }

    /// Releases the chains whose heads a drain of the used ring found.
    pub fn drain_used(&mut self, heads: &Vec<u16>)
        ensures
            final(self)@ == old(self)@.after_drain(heads@),
    {
        let mut i: usize = 0;
        while i < heads.len()
            invariant
                i <= heads@.len(),
                self@ == old(self)@.after_drain(heads@.take(i as int)),
            decreases heads@.len() - i,
        {
            self.free(heads[i]);
            assert(heads@.take(i + 1).drop_last() =~= heads@.take(i as int));
            i = i + 1;
        }
        assert(heads@.take(heads@.len() as int) =~= heads@);
    }
}

} // verus!
