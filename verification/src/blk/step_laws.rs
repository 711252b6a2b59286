//! What one step of a run does, told from the state before it alone.

use vstd::prelude::*;

use super::grammar::{Action, ChainSpec};
use super::harness::{Harness, Step};
use super::layout::{DATA_BASE, DATA_END, MAX_ACTIONS, MAX_CHAINS, MAX_YIELDS};
use crate::ring::{negotiation_is_safe, negotiation_keeps_shared_bits, RING_PACKED_BIT};

verus! {

// ---- The beginning ----

/// A fresh run is stopped, has nothing saved and nothing counted, and has the
/// whole data region and payload budget before it.
pub proof fn fresh_runs_have_everything_before_them<S>(raw_features: u64, device_features: u64)
    ensures
        ({
            let fresh = Harness::<S>::fresh(raw_features, device_features);
            &&& !fresh.started
            &&& fresh.saved_state is None
            &&& fresh.avail_idx == 0 && fresh.used_idx == 0
            &&& fresh.next_desc == 0
            &&& fresh.next_data == DATA_BASE
            &&& fresh.payload_budget == 8 * 4096
            &&& fresh.chains_submitted == 0 && fresh.completions == 0
            &&& fresh.yields_used == 0 && fresh.actions_taken == 0
        }),
{
}

/// A run negotiates exactly the bits that are requested and offered, the packed
/// ring apart: no other bit, and any set of such bits in full.
pub proof fn runs_negotiate_shared_bits<S>(raw_features: u64, device_features: u64, bits: u64)
    ensures
        ({
            let features = Harness::<S>::fresh(raw_features, device_features).features;
            &&& features & !raw_features == 0
            &&& features & !device_features == 0
            &&& features & RING_PACKED_BIT == 0
            &&& bits & raw_features == bits && bits & device_features == bits && bits
                & RING_PACKED_BIT == 0 ==> bits & features == bits
        }),
{
    let features = Harness::<S>::fresh(raw_features, device_features).features;
    negotiation_is_safe(raw_features, device_features);
    assert(features & !raw_features == 0) by (bit_vector)
        requires
            features & raw_features == features,
    ;
    if bits & raw_features == bits && bits & device_features == bits && bits & RING_PACKED_BIT == 0 {
        negotiation_keeps_shared_bits(raw_features, device_features, bits);
    }
}

/// Handing out bytes moves the cursor behind them, and nothing else.
pub proof fn allocations_move_the_cursor_only<S>(harness: Harness<S>, len: u32)
    requires
        harness.wf(),
    ensures
        ({
            let after = harness.after_alloc(len as int);
            &&& harness.next_data + len <= DATA_END ==> after.next_data == harness.next_data + len
            &&& harness.next_data + len > DATA_END ==> after.next_data == DATA_BASE + len
            &&& after == (Harness { next_data: after.next_data, ..harness })
        }),
{
}

// ---- Yields and actions ----

/// A yield costs one of the budget as long as there is one left, and touches
/// nothing else.
pub proof fn yields_cost_one_each<S>(harness: Harness<S>)
    ensures
        harness.yields_used < MAX_YIELDS ==> harness.after_yield().yields_used
            == harness.yields_used + 1,
        harness.yields_used >= MAX_YIELDS ==> harness.after_yield() == harness,
        harness.after_yield() == (Harness {
            yields_used: harness.after_yield().yields_used,
            ..harness
        }),
{
}

/// State after the device was to run `n` times.
pub open spec fn after_yields<S>(harness: Harness<S>, n: int) -> Harness<S>
    decreases n,
{
    if n <= 0 {
        harness
    } else {
        after_yields(harness, n - 1).after_yield()
    }
}

/// The budget allows exactly as many yields as are left, however many are asked
/// for.
pub proof fn budget_allows_what_is_left<S>(harness: Harness<S>, n: int)
    requires
        harness.wf(),
        0 <= n,
    ensures
        harness.yields_used + n <= MAX_YIELDS ==> after_yields(harness, n).yields_used
            == harness.yields_used + n,
        harness.yields_used + n > MAX_YIELDS ==> after_yields(harness, n).yields_used == MAX_YIELDS,
    decreases n,
{
    if n > 0 {
        budget_allows_what_is_left(harness, n - 1);
    }
}

/// Every action that is due is counted once, and nothing else moves.
pub proof fn due_actions_are_counted<S>(harness: Harness<S>)
    requires
        harness.actions_taken < MAX_ACTIONS,
    ensures
        harness.after_action_due() == (Harness {
            actions_taken: (harness.actions_taken + 1) as u32,
            ..harness
        }),
        harness.after_action_due().actions_taken == harness.actions_taken + 1,
{
}

// ---- Completions ----

/// Entries that a series of drains found together.
pub open spec fn entries_found(drains: Seq<nat>) -> nat
    decreases drains.len(),
{
    if drains.len() == 0 {
        0
    } else {
        entries_found(drains.drop_last()) + drains.last()
    }
}

/// State after a series of drains.
pub open spec fn after_drains<S>(harness: Harness<S>, drains: Seq<nat>) -> Harness<S>
    decreases drains.len(),
{
    if drains.len() == 0 {
        harness
    } else {
        after_drains(harness, drains.drop_last()).after_drain(drains.last())
    }
}

/// No drain of a series found more entries than chains were left to complete.
pub open spec fn no_overrun<S>(harness: Harness<S>, drains: Seq<nat>) -> bool
    decreases drains.len(),
{
    drains.len() == 0 || {
        let before = after_drains(harness, drains.drop_last());
        &&& no_overrun(harness, drains.drop_last())
        &&& before.completions + drains.last() <= before.chains_submitted
    }
}

/// Every used-ring entry counts as one completion, up to the chains published,
/// and a drain touches nothing else.
pub proof fn entries_count_once<S>(harness: Harness<S>, entries: nat)
    requires
        harness.wf(),
    ensures
        harness.completions + entries <= harness.chains_submitted ==> harness.after_drain(
            entries,
        ).completions == harness.completions + entries,
        harness.completions + entries > harness.chains_submitted ==> harness.after_drain(
            entries,
        ).completions == harness.chains_submitted,
        harness.after_drain(entries) == (Harness {
            completions: harness.after_drain(entries).completions,
            ..harness
        }),
{
}

/// An overrun does not go unnoticed however the entries are spread over drains:
/// a series of drains is free of overruns exactly if the entries found by all of
/// them together number no more than the chains that were left to complete, and
/// then each of them was counted.
pub proof fn overruns_are_noticed<S>(harness: Harness<S>, drains: Seq<nat>)
    requires
        harness.wf(),
    ensures
        no_overrun(harness, drains) <==> harness.completions + entries_found(drains)
            <= harness.chains_submitted,
        no_overrun(harness, drains) ==> after_drains(harness, drains).completions
            == harness.completions + entries_found(drains),
        after_drains(harness, drains).chains_submitted == harness.chains_submitted,
        after_drains(harness, drains).wf(),
    decreases drains.len(),
{
    if drains.len() > 0 {
        overruns_are_noticed(harness, drains.drop_last());
    }
}

// ---- Queue lifecycle ----

/// A stopped queue starts fresh without a state, with the rings initialized and
/// both indices at zero, and from a state with the rings and indices as they
/// are. A running queue is left alone.
pub proof fn starts_are_fresh_or_from_a_state<S>(harness: Harness<S>, initial: Option<S>)
    ensures
        ({
            let steps = harness.start_steps(initial);
            let after = harness.after_start(initial);
            &&& harness.started ==> steps.len() == 0 && after == harness
            &&& !harness.started ==> {
                &&& after.started
                &&& steps.last() == (Step::StartQueue { initial })
                &&& initial is None ==> {
                    &&& steps.len() == 2 && steps[0] == Step::<S>::InitRings
                    &&& after == (Harness { started: true, avail_idx: 0, used_idx: 0, ..harness })
                }
                &&& initial is Some ==> {
                    &&& steps.len() == 1
                    &&& after == (Harness { started: true, ..harness })
                }
            }
        }),
{
}

/// The small actions take one step each and leave the books alone. A drain reads
/// 64 entries at most.
pub proof fn small_actions_take_one_step<S>(harness: Harness<S>)
    ensures
        harness.action_steps(Action::Kick) == seq![Step::<S>::Kick],
        harness.action_steps(Action::Yield) == seq![Step::<S>::Yield],
        harness.action_steps(Action::DrainUsed) == seq![Step::<S>::DrainUsed { limit: 64 }],
        harness.after_action(Action::Kick) == harness,
        harness.after_action(Action::Yield) == harness,
        harness.after_action(Action::DrainUsed) == harness,
{
}

/// A stop takes a running queue down and keeps its state; a reset takes it down
/// and forgets its state. Neither stops a queue that does not run, and both
/// leave everything else as it was.
pub proof fn stops_and_resets_touch_the_queue_only<S>(harness: Harness<S>)
    ensures
        harness.after_action(Action::StopQueue) == (Harness { started: false, ..harness }),
        harness.after_action(Action::Reset) == (Harness {
            started: false,
            saved_state: None,
            ..harness
        }),
        harness.action_steps(Action::StopQueue) == (if harness.started {
            seq![Step::<S>::StopQueue { keep_state: true }]
        } else {
            Seq::empty()
        }),
        harness.action_steps(Action::Reset) == (if harness.started {
            seq![Step::<S>::StopQueue { keep_state: false }, Step::ResetDevice]
        } else {
            seq![Step::<S>::ResetDevice]
        }),
{
}

/// What a stopped queue hands back is kept as it is, until the next time.
pub proof fn handed_back_state_is_kept<S>(harness: Harness<S>, state: Option<S>)
    ensures
        harness.after_queue_stopped(state) == (Harness { saved_state: state, ..harness }),
{
}

/// A restart from the saved state starts from it and uses it up; a fresh restart
/// starts from none and leaves it. A restart of a running queue starts nothing,
/// but uses the saved state up all the same if it was to start from it.
pub proof fn restarts_use_the_saved_state<S>(harness: Harness<S>, use_saved_state: bool)
    ensures
        ({
            let restart = Action::Restart { use_saved_state };
            let initial = if use_saved_state {
                harness.saved_state
            } else {
                None
            };
            let after = harness.after_action(restart);
            &&& harness.action_steps(restart) == harness.start_steps(initial)
            &&& after.saved_state == (if use_saved_state {
                None
            } else {
                harness.saved_state
            })
            &&& after == (Harness {
                saved_state: after.saved_state,
                ..harness.after_start(initial)
            })
        }),
{
}

/// A submission beyond the bound changes nothing; within it, it is published.
pub proof fn submissions_stop_at_the_bound<S>(harness: Harness<S>, spec: ChainSpec)
    ensures
        harness.chains_submitted >= MAX_CHAINS ==> harness.after_action(Action::Submit(spec))
            == harness,
        harness.chains_submitted < MAX_CHAINS ==> harness.after_action(Action::Submit(spec))
            == harness.after_submit(spec),
{
}

/// Teardown lets the device run four times, stops the queue whether it runs or
/// not, resets the device and drains a last time, in that order. It gives four
/// yields back, or all that were used if fewer, and leaves all but that and the
/// queue as it was.
pub proof fn teardown_ends_a_run<S>(harness: Harness<S>)
    ensures
        ({
            let steps = Harness::<S>::teardown_steps();
            let after = harness.after_teardown();
            &&& steps.len() == 7
            &&& forall|i: int| 0 <= i < 4 ==> #[trigger] steps[i] == Step::<S>::Yield
            &&& steps[4] == (Step::<S>::StopQueue { keep_state: false })
            &&& steps[5] == Step::<S>::ResetDevice
            &&& steps[6] == (Step::<S>::DrainUsed { limit: 64 })
            &&& !after.started
            &&& harness.yields_used >= 4 ==> after.yields_used == harness.yields_used - 4
            &&& harness.yields_used < 4 ==> after.yields_used == 0
            &&& after == (Harness { started: false, yields_used: after.yields_used, ..harness })
        }),
{
}

} // verus!
