//! What holds of descriptor slot accounting.

use vstd::prelude::*;

use super::guest_queue::{first_fit, fits, QueueView};
use super::layout::{QUEUE_SIZE, QUEUE_SLOTS};

verus! {

/// The search for free slots finds the lowest place where they fit, and finds
/// one whenever there is one.
pub proof fn first_fit_is_lowest(busy: Seq<bool>, n: int, from: int)
    requires
        n >= 0,
        from >= 0,
    ensures
        match first_fit(busy, n, from) {
            Some(slot) => {
                &&& from <= slot
                &&& fits(busy, slot, n)
                &&& forall|i: int| from <= i < slot ==> !#[trigger] fits(busy, i, n)
            },
            None => forall|i: int| from <= i ==> !#[trigger] fits(busy, i, n),
        },
    decreases busy.len() - from,
{
    if from + n <= busy.len() && !fits(busy, from, n) {
        first_fit_is_lowest(busy, n, from + 1);
    }
}

/// A queue with nothing in flight is well-formed.
pub proof fn idle_queue_is_well_formed(desc_addr: u64, avail_addr: u64, used_addr: u64)
    ensures
        QueueView::idle(desc_addr, avail_addr, used_addr).wf(),
{
}

/// Reserving slots keeps the accounting sound. The chain gets slots that no
/// chain in flight owns, and every other chain keeps its own.
pub proof fn reserving_takes_free_slots(queue: QueueView, n: int)
    requires
        queue.wf(),
    ensures
        queue.after_alloc(n).wf(),
        queue.slot_for(n) matches Some(head) ==> {
            &&& fits(queue.busy, head, n)
            &&& queue.chain_len[head] == 0
            &&& queue.after_alloc(n).chain_len[head] == n
            &&& forall|h: int, i: int|
                queue.owns(h, i) ==> h != head && !(head <= i < head + n)
                    && #[trigger] queue.after_alloc(n).owns(h, i)
        },
{
    if let Some(head) = queue.slot_for(n) {
        first_fit_is_lowest(queue.busy, n, 0);
        let after = queue.after_alloc(n);
        assert(queue.chain_len[head] == 0) by {
            if queue.chain_len[head] > 0 {
                assert(queue.owns(head, head));
                assert(queue.busy[head]);
            }
        }
        assert forall|h: int, i: int| queue.owns(h, i) implies h != head && !(head <= i < head + n)
            && #[trigger] after.owns(h, i) by {
            assert(queue.busy[i]);
            assert(h != head);
        }
        assert forall|h: int, i: int| #[trigger] after.owns(h, i) && h != head implies queue.owns(
            h,
            i,
        ) by {}
        assert forall|h: int| 0 <= h < QUEUE_SLOTS implies h + #[trigger] after.chain_len[h]
            <= QUEUE_SLOTS by {
            if h != head {
                assert(after.chain_len[h] == queue.chain_len[h]);
            }
        }
        assert forall|h: int, g: int, i: int| #[trigger] after.owns(h, i) && #[trigger] after.owns(
            g,
            i,
        ) implies h == g by {
            if h != head {
                assert(queue.owns(h, i));
            }
            if g != head {
                assert(queue.owns(g, i));
            }
        }
        assert forall|i: int| 0 <= i < QUEUE_SLOTS && #[trigger] after.busy[i] implies exists|h: int|
            after.owns(h, i) by {
            if head <= i < head + n {
                assert(after.owns(head, i));
            } else {
                assert(queue.busy[i]);
                let h = choose|h: int| queue.owns(h, i);
                assert(after.owns(h, i));
            }
        }
    }
}

/// Releasing a chain keeps the accounting sound. Exactly its slots become free,
/// and a head that heads no chain changes nothing.
pub proof fn releasing_frees_one_chain(queue: QueueView, head: int)
    requires
        queue.wf(),
    ensures
        queue.after_free(head).wf(),
        forall|i: int|
            0 <= i < QUEUE_SLOTS ==> #[trigger] queue.after_free(head).busy[i] == (queue.busy[i]
                && !queue.owns(head, i)),
        forall|h: int, i: int|
            #[trigger] queue.after_free(head).owns(h, i) <==> queue.owns(h, i) && h != head,
        !(0 <= head < QUEUE_SLOTS && queue.chain_len[head] > 0) ==> queue.after_free(head) == queue,
{
    let after = queue.after_free(head);
    assert forall|h: int, i: int| #[trigger] after.owns(h, i) <==> queue.owns(h, i) && h != head by {}
    assert forall|i: int| 0 <= i < QUEUE_SLOTS && #[trigger] after.busy[i] implies exists|h: int|
        after.owns(h, i) by {
        assert(queue.busy[i]);
        let h = choose|h: int| queue.owns(h, i);
        assert(after.owns(h, i));
    }
    assert forall|h: int, i: int| #[trigger] after.owns(h, i) implies after.busy[i] by {
        assert(queue.owns(h, i));
        assert(queue.busy[i]);
        if queue.owns(head, i) {
            assert(h == head);
        }
    }
    assert forall|h: int| 0 <= h < QUEUE_SLOTS implies h + #[trigger] after.chain_len[h]
        <= QUEUE_SLOTS by {
        if h != head {
            assert(after.chain_len[h] == queue.chain_len[h]);
        }
    }
    assert forall|h: int, g: int, i: int| #[trigger] after.owns(h, i) && #[trigger] after.owns(
        g,
        i,
    ) implies h == g by {
        assert(queue.owns(h, i) && queue.owns(g, i));
    }
    if !(0 <= head < QUEUE_SLOTS && queue.chain_len[head] > 0) {
        assert(after =~= queue);
    }
}

/// Reserving slots and releasing them again leaves the queue as it was.
pub proof fn release_undoes_reserve(queue: QueueView, n: int)
    requires
        queue.wf(),
        queue.slot_for(n) is Some,
    ensures
        queue.after_alloc(n).after_free(queue.slot_for(n)->Some_0) == queue,
{
    let head = queue.slot_for(n)->Some_0;
    reserving_takes_free_slots(queue, n);
    assert(queue.after_alloc(n).after_free(head) =~= queue);
}

/// A chain is released at most once: releasing its head again changes nothing.
pub proof fn release_is_idempotent(queue: QueueView, head: int)
    requires
        queue.wf(),
    ensures
        queue.after_free(head).after_free(head) == queue.after_free(head),
{
    releasing_frees_one_chain(queue, head);
    releasing_frees_one_chain(queue.after_free(head), head);
}

/// Whatever heads the device reports as used, the accounting stays sound, and
/// no slot becomes busy.
pub proof fn draining_keeps_accounts_sound(queue: QueueView, heads: Seq<u16>)
    requires
        queue.wf(),
    ensures
        queue.after_drain(heads).wf(),
        forall|i: int|
            0 <= i < QUEUE_SLOTS && #[trigger] queue.after_drain(heads).busy[i] ==> queue.busy[i],
    decreases heads.len(),
{
    if heads.len() > 0 {
        draining_keeps_accounts_sound(queue, heads.drop_last());
        releasing_frees_one_chain(queue.after_drain(heads.drop_last()), heads.last() as int);
    }
}

/// A drain releases the chains whose heads it found, and no other.
proof fn drain_releases_heads(queue: QueueView, heads: Seq<u16>, h: int)
    requires
        queue.wf(),
        0 <= h < QUEUE_SLOTS,
    ensures
        queue.after_drain(heads).chain_len[h] == (if heads.contains(h as u16) {
            0
        } else {
            queue.chain_len[h]
        }),
    decreases heads.len(),
{
    if heads.len() > 0 {
        let front = heads.drop_last();
        drain_releases_heads(queue, front, h);
        draining_keeps_accounts_sound(queue, front);
        if heads.contains(h as u16) && heads.last() != h {
            let i = choose|i: int| 0 <= i < heads.len() && heads[i] == h as u16;
            assert(front[i] == h as u16);
        }
        if front.contains(h as u16) {
            let i = choose|i: int| 0 <= i < front.len() && front[i] == h as u16;
            assert(heads[i] == h as u16);
        }
        assert(heads[heads.len() - 1] == heads.last());
    }
}

/// Releasing every chain in flight, in any order, leaves the table empty, even
/// if heads are reported twice or head no chain.
pub proof fn releasing_every_chain_empties_the_table(queue: QueueView, heads: Seq<u16>)
    requires
        queue.wf(),
        forall|h: int|
            0 <= h < QUEUE_SLOTS && #[trigger] queue.chain_len[h] > 0 ==> heads.contains(h as u16),
    ensures
        queue.after_drain(heads) == (QueueView {
            busy: Seq::new(QUEUE_SLOTS as nat, |i: int| false),
            chain_len: Seq::new(QUEUE_SLOTS as nat, |i: int| 0u8),
            ..queue
        }),
{
    let after = queue.after_drain(heads);
    draining_keeps_accounts_sound(queue, heads);
    drain_keeps_indices(queue, heads);
    assert forall|h: int| 0 <= h < QUEUE_SLOTS implies #[trigger] after.chain_len[h] == 0 by {
        drain_releases_heads(queue, heads, h);
    }
    assert forall|i: int| 0 <= i < QUEUE_SLOTS implies !#[trigger] after.busy[i] by {
        if after.busy[i] {
            let h = choose|h: int| after.owns(h, i);
            assert(after.owns(h, i));
            assert(after.chain_len[h] == 0);
        }
    }
}

proof fn drain_keeps_indices(queue: QueueView, heads: Seq<u16>)
    ensures
        ({
            let after = queue.after_drain(heads);
            after == (QueueView { busy: after.busy, chain_len: after.chain_len, ..queue })
        }),
    decreases heads.len(),
{
    if heads.len() > 0 {
        drain_keeps_indices(queue, heads.drop_last());
    }
}

/// State after chains of the given lengths are asked for, one after the other.
pub open spec fn after_allocs(queue: QueueView, lens: Seq<int>) -> QueueView
    decreases lens.len(),
{
    if lens.len() == 0 {
        queue
    } else {
        after_allocs(queue, lens.drop_last()).after_alloc(lens.last())
    }
}

/// The heads that were handed out for them.
pub open spec fn heads_handed_out(queue: QueueView, lens: Seq<int>) -> Seq<u16>
    decreases lens.len(),
{
    if lens.len() == 0 {
        Seq::empty()
    } else {
        let before = heads_handed_out(queue, lens.drop_last());
        match after_allocs(queue, lens.drop_last()).slot_for(lens.last()) {
            Some(head) => before.push(head as u16),
            None => before,
        }
    }
}

proof fn chains_come_from_allocs(
    desc_addr: u64,
    avail_addr: u64,
    used_addr: u64,
    lens: Seq<int>,
)
    ensures
        ({
            let idle = QueueView::idle(desc_addr, avail_addr, used_addr);
            let after = after_allocs(idle, lens);
            &&& after.wf()
            &&& after == (QueueView { busy: after.busy, chain_len: after.chain_len, ..idle })
            &&& forall|h: int|
                0 <= h < QUEUE_SLOTS && #[trigger] after.chain_len[h] > 0 ==> heads_handed_out(
                    idle,
                    lens,
                ).contains(h as u16)
        }),
    decreases lens.len(),
{
    let idle = QueueView::idle(desc_addr, avail_addr, used_addr);
    let after = after_allocs(idle, lens);
    let handed = heads_handed_out(idle, lens);
    idle_queue_is_well_formed(desc_addr, avail_addr, used_addr);
    if lens.len() > 0 {
        let front = lens.drop_last();
        let before = after_allocs(idle, front);
        let earlier = heads_handed_out(idle, front);
        chains_come_from_allocs(desc_addr, avail_addr, used_addr, front);
        reserving_takes_free_slots(before, lens.last());
        assert forall|h: int| 0 <= h < QUEUE_SLOTS && #[trigger] after.chain_len[h] > 0 implies
            handed.contains(h as u16) by {
            if before.chain_len[h] > 0 {
                assert(earlier.contains(h as u16));
                let i = choose|i: int| 0 <= i < earlier.len() && earlier[i] == h as u16;
                assert(handed[i] == h as u16);
            } else {
                assert(before.slot_for(lens.last()) == Some(h));
                assert(handed[handed.len() - 1] == h as u16);
            }
        }
    }
}

/// Releasing every head that was handed out, in any order, leaves the table as
/// empty as it was, whatever was asked for.
pub proof fn releasing_every_head_undoes_all_reserves(
    desc_addr: u64,
    avail_addr: u64,
    used_addr: u64,
    lens: Seq<int>,
    heads: Seq<u16>,
)
    requires
        ({
            let idle = QueueView::idle(desc_addr, avail_addr, used_addr);
            forall|head: u16|
                #[trigger] heads_handed_out(idle, lens).contains(head) ==> heads.contains(head)
        }),
    ensures
        ({
            let idle = QueueView::idle(desc_addr, avail_addr, used_addr);
            after_allocs(idle, lens).after_drain(heads) == idle
        }),
{
    let idle = QueueView::idle(desc_addr, avail_addr, used_addr);
    chains_come_from_allocs(desc_addr, avail_addr, used_addr, lens);
    assert forall|h: int|
        0 <= h < QUEUE_SLOTS && #[trigger] after_allocs(idle, lens).chain_len[h] > 0 implies
        heads.contains(h as u16) by {
        assert(heads_handed_out(idle, lens).contains(h as u16));
    }
    releasing_every_chain_empties_the_table(after_allocs(idle, lens), heads);
    assert(after_allocs(idle, lens).after_drain(heads) =~= idle);
}

// ---- Chains in flight ----

/// How many of the first `k` slots head a chain in flight.
pub open spec fn heads_among(chain_len: Seq<u8>, k: int) -> int
    decreases k,
{
    if k <= 0 {
        0
    } else {
        heads_among(chain_len, k - 1) + if chain_len[k - 1] > 0 {
            1int
        } else {
            0
        }
    }
}

/// How many chains are in flight.
pub open spec fn chains_in_flight(queue: QueueView) -> int {
    heads_among(queue.chain_len, QUEUE_SLOTS as int)
}

/// How many of the heads that a drain found end a chain in flight.
pub open spec fn chains_completed(queue: QueueView, heads: Seq<u16>) -> int
    decreases heads.len(),
{
    if heads.len() == 0 {
        0
    } else {
        let before = queue.after_drain(heads.drop_last());
        chains_completed(queue, heads.drop_last()) + if heads.last() < QUEUE_SLOTS
            && before.chain_len[heads.last() as int] > 0 {
            1int
        } else {
            0
        }
    }
}

proof fn heads_among_is_bounded(chain_len: Seq<u8>, k: int)
    requires
        0 <= k,
    ensures
        0 <= heads_among(chain_len, k) <= k,
    decreases k,
{
    if k > 0 {
        heads_among_is_bounded(chain_len, k - 1);
    }
}

proof fn heads_among_after_update(chain_len: Seq<u8>, head: int, len: u8, k: int)
    requires
        0 <= head < chain_len.len(),
        0 <= k <= chain_len.len(),
    ensures
        heads_among(chain_len.update(head, len), k) == heads_among(chain_len, k) + (if head < k {
            (if len > 0 {
                1int
            } else {
                0
            }) - (if chain_len[head] > 0 {
                1int
            } else {
                0
            })
        } else {
            0
        }),
    decreases k,
{
    if k > 0 {
        heads_among_after_update(chain_len, head, len, k - 1);
    }
}

/// The ring has room for every chain in flight and for one more whenever slots
/// for it are found: chains in flight are at most as many as the ring has
/// entries, a newly reserved head is none of theirs, and it is counted once.
pub proof fn reserving_never_overruns_the_ring(queue: QueueView, n: int)
    requires
        queue.wf(),
    ensures
        0 <= chains_in_flight(queue) <= QUEUE_SIZE,
        queue.slot_for(n) matches Some(head) ==> {
            &&& queue.chain_len[head] == 0
            &&& chains_in_flight(queue.after_alloc(n)) == chains_in_flight(queue) + 1
            &&& chains_in_flight(queue) < QUEUE_SIZE
        },
{
    heads_among_is_bounded(queue.chain_len, QUEUE_SLOTS as int);
    reserving_takes_free_slots(queue, n);
    if let Some(head) = queue.slot_for(n) {
        let after = queue.after_alloc(n);
        heads_among_after_update(queue.chain_len, head, n as u8, QUEUE_SLOTS as int);
        heads_among_is_bounded(after.chain_len, QUEUE_SLOTS as int);
    }
}

/// Draining takes the chains that it found to be complete out of flight, and no
/// other.
pub proof fn draining_counts_completions(queue: QueueView, heads: Seq<u16>)
    requires
        queue.wf(),
    ensures
        chains_in_flight(queue.after_drain(heads)) == chains_in_flight(queue) - chains_completed(
            queue,
            heads,
        ),
    decreases heads.len(),
{
    if heads.len() > 0 {
        let before = queue.after_drain(heads.drop_last());
        draining_counts_completions(queue, heads.drop_last());
        draining_keeps_accounts_sound(queue, heads.drop_last());
        if heads.last() < QUEUE_SLOTS {
            heads_among_after_update(
                before.chain_len,
                heads.last() as int,
                0,
                QUEUE_SLOTS as int,
            );
        }
    }
}

/// An idle queue has no chain in flight.
pub proof fn idle_queue_has_no_chains(desc_addr: u64, avail_addr: u64, used_addr: u64)
    ensures
        chains_in_flight(QueueView::idle(desc_addr, avail_addr, used_addr)) == 0,
{
    let idle = QueueView::idle(desc_addr, avail_addr, used_addr);
    no_heads_among_zeros(idle.chain_len, QUEUE_SLOTS as int);
}

proof fn no_heads_among_zeros(chain_len: Seq<u8>, k: int)
    requires
        k <= chain_len.len(),
        forall|i: int| 0 <= i < k ==> #[trigger] chain_len[i] == 0,
    ensures
        heads_among(chain_len, k) == 0,
    decreases k,
{
    if k > 0 {
        no_heads_among_zeros(chain_len, k - 1);
    }
}

// ---- Slots, one by one ----

/// One of the `n` slots from `i` on is busy.
pub open spec fn occupied(busy: Seq<bool>, i: int, n: int) -> bool {
    exists|k: int| i <= k < i + n && #[trigger] busy[k]
}

/// A chain goes to the lowest slot from which on enough slots are free, and is
/// refused only if there is no such slot, or it is empty or longer than the
/// table.
pub proof fn chains_go_to_the_lowest_gap(queue: QueueView, n: int)
    requires
        queue.busy.len() == QUEUE_SLOTS,
        queue.chain_len.len() == QUEUE_SLOTS,
    ensures
        match queue.slot_for(n) {
            Some(slot) => {
                &&& 1 <= n
                &&& 0 <= slot <= QUEUE_SLOTS - n
                &&& forall|k: int| slot <= k < slot + n ==> !#[trigger] queue.busy[k]
                &&& forall|i: int| 0 <= i < slot ==> #[trigger] occupied(queue.busy, i, n)
            },
            None => 1 <= n ==> forall|i: int|
                0 <= i <= QUEUE_SLOTS - n ==> #[trigger] occupied(queue.busy, i, n),
        },
{
    if 1 <= n <= QUEUE_SLOTS {
        first_fit_is_lowest(queue.busy, n, 0);
        assert forall|i: int| 0 <= i <= QUEUE_SLOTS - n && !occupied(queue.busy, i, n) implies
            #[trigger] fits(queue.busy, i, n) by {}
        assert forall|i: int|
            0 <= i <= QUEUE_SLOTS - n && !fits(queue.busy, i, n) implies #[trigger] occupied(
            queue.busy,
            i,
            n,
        ) by {}
    }
}

/// Reserving marks the slots of the chain and notes its length at its head. No
/// other slot, and nothing else of the queue, changes; and without room nothing
/// does.
pub proof fn reserving_marks_one_run(queue: QueueView, n: int)
    requires
        queue.busy.len() == QUEUE_SLOTS,
        queue.chain_len.len() == QUEUE_SLOTS,
    ensures
        ({
            let after = queue.after_alloc(n);
            &&& queue.slot_for(n) is None ==> after == queue
            &&& queue.slot_for(n) matches Some(head) ==> {
                &&& after.busy.len() == QUEUE_SLOTS && after.chain_len.len() == QUEUE_SLOTS
                &&& forall|i: int|
                    0 <= i < QUEUE_SLOTS ==> #[trigger] after.busy[i] == (queue.busy[i] || head <= i
                        < head + n)
                &&& forall|h: int|
                    0 <= h < QUEUE_SLOTS && h != head ==> #[trigger] after.chain_len[h]
                        == queue.chain_len[h]
                &&& after.chain_len[head] == n
                &&& after == (QueueView {
                    busy: after.busy,
                    chain_len: after.chain_len,
                    ..queue
                })
            }
        }),
{
    chains_go_to_the_lowest_gap(queue, n);
}

/// Releasing clears as many slots from the head on as its chain has, and the
/// length noted there. No other slot, and nothing else of the queue, changes; a
/// head outside the table changes nothing.
pub proof fn releasing_clears_one_run(queue: QueueView, head: int)
    requires
        queue.busy.len() == QUEUE_SLOTS,
        queue.chain_len.len() == QUEUE_SLOTS,
    ensures
        ({
            let after = queue.after_free(head);
            &&& !(0 <= head < QUEUE_SLOTS) ==> after == queue
            &&& 0 <= head < QUEUE_SLOTS ==> {
                &&& after.busy.len() == QUEUE_SLOTS && after.chain_len.len() == QUEUE_SLOTS
                &&& forall|i: int|
                    0 <= i < QUEUE_SLOTS ==> #[trigger] after.busy[i] == (queue.busy[i] && !(head
                        <= i < head + queue.chain_len[head]))
                &&& forall|h: int|
                    0 <= h < QUEUE_SLOTS && h != head ==> #[trigger] after.chain_len[h]
                        == queue.chain_len[h]
                &&& after.chain_len[head] == 0
                &&& after == (QueueView {
                    busy: after.busy,
                    chain_len: after.chain_len,
                    ..queue
                })
            }
        }),
{
}

/// Drains add up: heads are released one by one, in the order found, no matter
/// how they are spread over drains.
pub proof fn drains_add_up(queue: QueueView, first: Seq<u16>, second: Seq<u16>, head: u16)
    ensures
        queue.after_drain(Seq::empty()) == queue,
        queue.after_drain(first.push(head)) == queue.after_drain(first).after_free(head as int),
        queue.after_drain(first + second) == queue.after_drain(first).after_drain(second),
    decreases second.len(),
{
    assert(first.push(head).drop_last() =~= first);
    if second.len() > 0 {
        drains_add_up(queue, first, second.drop_last(), head);
        assert((first + second).drop_last() =~= first + second.drop_last());
    } else {
        assert(first + second =~= first);
    }
}

/// A rebuilt queue is idle where it was: no slot in flight, no length noted, both
/// indices at zero, the same addresses.
pub proof fn rebuilt_queue_is_idle(queue: QueueView)
    ensures
        ({
            let after = queue.after_reset();
            &&& after.desc_addr == queue.desc_addr
            &&& after.avail_addr == queue.avail_addr
            &&& after.used_addr == queue.used_addr
            &&& after.avail_idx == 0 && after.used_idx == 0
            &&& after.busy.len() == QUEUE_SLOTS && after.chain_len.len() == QUEUE_SLOTS
            &&& forall|i: int| 0 <= i < QUEUE_SLOTS ==> !#[trigger] after.busy[i]
            &&& forall|i: int| 0 <= i < QUEUE_SLOTS ==> #[trigger] after.chain_len[i] == 0
        }),
{
}

} // verus!
