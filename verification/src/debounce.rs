//! The change detector: turns a noisy stream of raw file-change events into
//! coalesced signals. Time is read in milliseconds on a monotonic clock whose
//! origin the caller picks.

use vstd::prelude::*;

verus! {

/// Length of the quiet period, in milliseconds.
pub const QUIET_PERIOD_MS: u64 = 1000;

/// Milliseconds that passed from `reference` to `now`. A reading that lies
/// before `reference` counts as no time passed.
pub open spec fn elapsed_ms(reference: u64, now: u64) -> nat {
    if now >= reference {
        (now - reference) as nat
    } else {
        0
    }
}

/// A raw event seen at `now` is due for emission when a full quiet period has
/// passed since `reference`, the time of the last emission.
pub open spec fn is_due(reference: u64, now: u64) -> bool {
    elapsed_ms(reference, now) >= QUIET_PERIOD_MS
}

/// The reference time after a raw event at `now`: only an emission moves it.
pub open spec fn next_reference(reference: u64, now: u64) -> u64 {
    if is_due(reference, now) {
        now
    } else {
        reference
    }
}

/// The reference time after the raw events `events`, taken in order.
pub open spec fn reference_after(reference: u64, events: Seq<u64>) -> u64
    decreases events.len(),
{
    if events.len() == 0 {
        reference
    } else {
        next_reference(reference_after(reference, events.drop_last()), events.last())
    }
}

/// How many coalesced signals the raw events `events`, taken in order, emit.
pub open spec fn signals_emitted(reference: u64, events: Seq<u64>) -> nat
    decreases events.len(),
{
    if events.len() == 0 {
        0
    } else {
        let before = events.drop_last();
        let due: nat = if is_due(reference_after(reference, before), events.last()) {
            1
        } else {
            0
        };
        signals_emitted(reference, before) + due
    }
}

/// Every event of `events` falls inside the quiet period that `reference` opened.
pub open spec fn all_within_window(reference: u64, events: Seq<u64>) -> bool {
    forall|i: int| 0 <= i < events.len() ==> !is_due(reference, #[trigger] events[i])
}

/// Debounce state: the time of the last emission.
pub struct ChangeDetector {
    last_emitted_at: u64,
}

impl ChangeDetector {
    /// The time of the last emission, or the time the detector was started at.
    pub closed spec fn reference(&self) -> u64 {
        self.last_emitted_at
    }

    /// A detector started at `now`: the first quiet period runs from there.
    pub fn new(now: u64) -> (detector: Self)
        ensures
            detector.reference() == now,
    {
        ChangeDetector { last_emitted_at: now }
    }

    /// The time of the last emission.
    pub fn last_emitted_at(&self) -> (at: u64)
        ensures
            at == self.reference(),
    {
        self.last_emitted_at
    }

    /// Takes one raw event seen at `now`. Returns whether a coalesced signal
    /// is to be posted; exactly then the reference time moves to `now`.
    pub fn on_raw_event(&mut self, now: u64) -> (emit: bool)
        ensures
            emit == is_due(old(self).reference(), now),
            final(self).reference() == next_reference(old(self).reference(), now),
    {
        let elapsed: u64 = now.saturating_sub(self.last_emitted_at);
        if elapsed >= QUIET_PERIOD_MS {
            self.last_emitted_at = now;
            true
        } else {
            false
        }
    }
}

/// Events taken one after another give the same reference time and the same
/// number of signals as the two runs joined.
pub proof fn lemma_runs_compose(reference: u64, first: Seq<u64>, second: Seq<u64>)
    ensures
        reference_after(reference, first + second) == reference_after(
            reference_after(reference, first),
            second,
        ),
        signals_emitted(reference, first + second) == signals_emitted(reference, first)
            + signals_emitted(reference_after(reference, first), second),
    decreases second.len(),
{
    if second.len() == 0 {
        assert(first + second =~= first);
    } else {
        assert((first + second).drop_last() =~= first + second.drop_last());
        assert((first + second).last() == second.last());
        lemma_runs_compose(reference, first, second.drop_last());
    }
}

/// Absorbed events emit nothing and leave the detector as it was: while every
/// event falls inside the quiet period after the last emission, no signal
/// comes out, however many events there are.
pub proof fn lemma_absorbed_events_emit_nothing(reference: u64, events: Seq<u64>)
    requires
        all_within_window(reference, events),
    ensures
        signals_emitted(reference, events) == 0,
        reference_after(reference, events) == reference,
    decreases events.len(),
{
    if events.len() > 0 {
        let before = events.drop_last();
        assert(all_within_window(reference, before)) by {
            assert forall|i: int| 0 <= i < before.len() implies !is_due(
                reference,
                #[trigger] before[i],
            ) by {
                assert(before[i] == events[i]);
            }
        }
        lemma_absorbed_events_emit_nothing(reference, before);
        assert(!is_due(reference, events[events.len() - 1]));
    }
}

/// A burst is coalesced into one signal. After any run of absorbed events, the
/// first event that comes a full quiet period after the last emission emits
/// exactly one signal, and the events that follow it within its own quiet
/// period emit none.
pub proof fn lemma_burst_emits_one_signal(
    reference: u64,
    absorbed: Seq<u64>,
    settled: u64,
    followers: Seq<u64>,
)
    requires
        all_within_window(reference, absorbed),
        is_due(reference, settled),
        all_within_window(settled, followers),
    ensures
        signals_emitted(reference, absorbed.push(settled) + followers) == 1,
        reference_after(reference, absorbed.push(settled) + followers) == settled,
{
    let head = absorbed.push(settled);
    assert(signals_emitted(reference, head) == 1 && reference_after(reference, head) == settled)
        by {
        lemma_absorbed_events_emit_nothing(reference, absorbed);
        assert(head.drop_last() =~= absorbed);
        assert(head.last() == settled);
    }
    lemma_absorbed_events_emit_nothing(settled, followers);
    lemma_runs_compose(reference, head, followers);
}

/// The reference time never runs ahead of what was seen: after any events it
/// is the time the run started from or the time of one of the events.
pub proof fn lemma_reference_is_a_seen_time(reference: u64, events: Seq<u64>)
    ensures
        reference_after(reference, events) == reference || exists|i: int|
            0 <= i < events.len() && #[trigger] events[i] == reference_after(reference, events),
    decreases events.len(),
{
    if events.len() > 0 {
        let before = events.drop_last();
        let earlier = reference_after(reference, before);
        lemma_reference_is_a_seen_time(reference, before);
        if reference_after(reference, events) == events.last() {
            assert(events[events.len() - 1] == reference_after(reference, events));
        } else if earlier != reference {
            let i = choose|i: int| 0 <= i < before.len() && #[trigger] before[i] == earlier;
            assert(events[i] == earlier);
        }
    }
}

/// A change after a quiet period is not lost. An event that comes a full
/// quiet period after the start of the run and after every earlier event
/// emits a signal, whatever the earlier events did.
pub proof fn lemma_event_after_quiet_emits(reference: u64, events: Seq<u64>, now: u64)
    requires
        is_due(reference, now),
        forall|i: int| 0 <= i < events.len() ==> is_due(#[trigger] events[i], now),
    ensures
        is_due(reference_after(reference, events), now),
        signals_emitted(reference, events.push(now)) == signals_emitted(reference, events) + 1,
        reference_after(reference, events.push(now)) == now,
{
    lemma_reference_is_a_seen_time(reference, events);
    assert(events.push(now).drop_last() =~= events);
    assert(events.push(now).last() == now);
}

} // verus!
