//! The broadcast loop of one viewer: wait for a signal, push a reload
//! instruction, and stop for good when a push fails. The loop itself is run by
//! the caller, which waits and pushes; what to do next is decided here.

use crate::mailbox::{closed, pending_for, taken, Mailbox};
use crossbeam::channel::Receiver;
use vstd::prelude::*;

verus! {

/// Text of the reload instruction that is pushed to a viewer.
pub const RELOAD_MESSAGE: &'static str = "reload";

/// Where a viewer's loop stands.
#[derive(Clone, Copy, Debug, PartialEq, Eq, Structural)]
pub enum LoopState {
    /// Waiting for the next signal.
    Waiting,
    /// A reload instruction is on its way to the viewer.
    Pushing,
    /// A push failed: the viewer is gone and the loop has ended.
    Closed,
}

/// What happened to a viewer's loop.
#[derive(Clone, Copy, Debug, PartialEq, Eq, Structural)]
pub enum LoopEvent {
    /// The wait ended with a signal.
    Signal,
    /// The reload instruction reached the viewer.
    PushDelivered,
    /// The reload instruction could not be sent.
    PushFailed,
}

/// What the caller is to do next for a viewer.
#[derive(Clone, Copy, Debug, PartialEq, Eq, Structural)]
pub enum LoopAction {
    /// Wait until the viewer is woken.
    AwaitSignal,
    /// Push `RELOAD_MESSAGE` to the viewer.
    PushReload,
    /// Leave the loop and let go of the connection.
    Release,
}

/// The state after `event`. An event that the state does not expect changes
/// nothing; a failed push is never tried again.
pub open spec fn next_state(state: LoopState, event: LoopEvent) -> LoopState {
    match (state, event) {
        (LoopState::Waiting, LoopEvent::Signal) => LoopState::Pushing,
        (LoopState::Pushing, LoopEvent::PushDelivered) => LoopState::Waiting,
        (LoopState::Pushing, LoopEvent::PushFailed) => LoopState::Closed,
        _ => state,
    }
}

/// What is to be done in `state`.
pub open spec fn action_in(state: LoopState) -> LoopAction {
    match state {
        LoopState::Waiting => LoopAction::AwaitSignal,
        LoopState::Pushing => LoopAction::PushReload,
        LoopState::Closed => LoopAction::Release,
    }
}

/// The state after the events `events`, taken in order.
pub open spec fn state_after(state: LoopState, events: Seq<LoopEvent>) -> LoopState
    decreases events.len(),
{
    if events.len() == 0 {
        state
    } else {
        next_state(state_after(state, events.drop_last()), events.last())
    }
}

/// How many reload instructions the events `events`, taken in order, start.
pub open spec fn pushes_started(state: LoopState, events: Seq<LoopEvent>) -> nat
    decreases events.len(),
{
    if events.len() == 0 {
        0
    } else {
        let before = state_after(state, events.drop_last());
        let started: nat = if before == LoopState::Waiting && events.last()
            == LoopEvent::Signal {
            1
        } else {
            0
        };
        pushes_started(state, events.drop_last()) + started
    }
}

/// How many of the events `events` are signals.
pub open spec fn signals_in(events: Seq<LoopEvent>) -> nat
    decreases events.len(),
{
    if events.len() == 0 {
        0
    } else {
        let signal: nat = if events.last() == LoopEvent::Signal {
            1
        } else {
            0
        };
        signals_in(events.drop_last()) + signal
    }
}

/// Takes one event of a viewer's loop: the state that follows and what the
/// caller is to do next.
pub fn step(state: LoopState, event: LoopEvent) -> (next: (LoopState, LoopAction))
    ensures
        next.0 == next_state(state, event),
        next.1 == action_in(next.0),
{
    let after = match (state, event) {
        (LoopState::Waiting, LoopEvent::Signal) => LoopState::Pushing,
        (LoopState::Pushing, LoopEvent::PushDelivered) => LoopState::Waiting,
        (LoopState::Pushing, LoopEvent::PushFailed) => LoopState::Closed,
        _ => state,
    };
    let action = match after {
        LoopState::Waiting => LoopAction::AwaitSignal,
        LoopState::Pushing => LoopAction::PushReload,
        LoopState::Closed => LoopAction::Release,
    };
    (after, action)
}

/// A loop that has ended stays ended: after a failed push no event brings the
/// loop back, and no further reload instruction is started.
pub proof fn lemma_closed_loop_stays_closed(events: Seq<LoopEvent>)
    ensures
        state_after(LoopState::Closed, events) == LoopState::Closed,
        pushes_started(LoopState::Closed, events) == 0,
    decreases events.len(),
{
    if events.len() > 0 {
        lemma_closed_loop_stays_closed(events.drop_last());
    }
}

/// No reload instruction without a signal: a loop never starts more pushes
/// than it was given signals.
pub proof fn lemma_pushes_need_signals(state: LoopState, events: Seq<LoopEvent>)
    ensures
        pushes_started(state, events) <= signals_in(events),
    decreases events.len(),
{
    if events.len() > 0 {
        lemma_pushes_need_signals(state, events.drop_last());
    }
}

/// Exactly one reload instruction per signal: a waiting loop that is given a
/// signal starts one push, and is waiting again once the push is delivered.
pub proof fn lemma_signal_starts_one_push(events: Seq<LoopEvent>)
    requires
        state_after(LoopState::Waiting, events) == LoopState::Waiting,
    ensures
        pushes_started(LoopState::Waiting, events.push(LoopEvent::Signal)) == pushes_started(
            LoopState::Waiting,
            events,
        ) + 1,
        state_after(
            LoopState::Waiting,
            events.push(LoopEvent::Signal).push(LoopEvent::PushDelivered),
        ) == LoopState::Waiting,
        pushes_started(
            LoopState::Waiting,
            events.push(LoopEvent::Signal).push(LoopEvent::PushDelivered),
        ) == pushes_started(LoopState::Waiting, events) + 1,
{
    let signalled = events.push(LoopEvent::Signal);
    let delivered = signalled.push(LoopEvent::PushDelivered);
    assert(signalled.drop_last() =~= events);
    assert(signalled.last() == LoopEvent::Signal);
    assert(state_after(LoopState::Waiting, signalled) == LoopState::Pushing);
    assert(pushes_started(LoopState::Waiting, signalled) == pushes_started(
        LoopState::Waiting,
        events,
    ) + 1);
    assert(delivered.drop_last() =~= signalled);
    assert(delivered.last() == LoopEvent::PushDelivered);
    assert(pushes_started(LoopState::Waiting, delivered) == pushes_started(
        LoopState::Waiting,
        signalled,
    ));
}

/// One connected viewer: its slot in the mailbox and where its loop stands.
pub struct Viewer {
    id: usize,
    state: LoopState,
}

impl Viewer {
    /// The viewer's slot in the mailbox.
    pub closed spec fn slot(&self) -> usize {
        self.id
    }

    /// Where the viewer's loop stands.
    pub closed spec fn loop_state(&self) -> LoopState {
        self.state
    }

    /// Connects a new viewer: opens a slot for it in `mailbox`, with nothing
    /// pending, and starts its loop waiting. The receiver that comes with the
    /// viewer is what the caller waits on.
    pub fn connect(mailbox: &mut Mailbox) -> (opened: (Viewer, Receiver<()>))
        ensures
            opened.0.loop_state() == LoopState::Waiting,
            !old(mailbox)@.contains_key(opened.0.slot()),
            forall|id: usize| id < opened.0.slot() ==> old(mailbox)@.contains_key(id),
            final(mailbox)@ == old(mailbox)@.insert(opened.0.slot(), false),
    {
        let subscription = mailbox.subscribe();
        (Viewer { id: subscription.id, state: LoopState::Waiting }, subscription.wake)
    }

    /// The viewer's slot in the mailbox.
    pub fn id(&self) -> (id: usize)
        ensures
            id == self.slot(),
    {
        self.id
    }

    /// Where the viewer's loop stands.
    pub fn state(&self) -> (state: LoopState)
        ensures
            state == self.loop_state(),
    {
        self.state
    }

    /// The viewer was woken. A waiting viewer takes its pending signal from
    /// `mailbox`; if there was one, a reload instruction is to be pushed. In
    /// any other state nothing is taken and nothing changes.
    pub fn on_wake(&mut self, mailbox: &mut Mailbox) -> (action: LoopAction)
        ensures
            final(self).slot() == old(self).slot(),
            old(self).loop_state() == LoopState::Waiting ==> final(mailbox)@ == taken(
                old(mailbox)@,
                old(self).slot(),
            ),
            old(self).loop_state() != LoopState::Waiting ==> final(mailbox)@ == old(mailbox)@,
            final(self).loop_state() == if pending_for(old(mailbox)@, old(self).slot()) {
                next_state(old(self).loop_state(), LoopEvent::Signal)
            } else {
                old(self).loop_state()
            },
            action == action_in(final(self).loop_state()),
    {
        if self.state == LoopState::Waiting {
            if mailbox.take(self.id) {
                let (after, action) = step(self.state, LoopEvent::Signal);
                self.state = after;
                return action;
            }
        }
        match self.state {
            LoopState::Waiting => LoopAction::AwaitSignal,
            LoopState::Pushing => LoopAction::PushReload,
            LoopState::Closed => LoopAction::Release,
        }
    }

    /// The push of a reload instruction ended. Delivered, the viewer waits
    /// for the next signal. Failed, the viewer is gone: its loop ends and its
    /// slot in `mailbox` is closed, which touches no other viewer.
    pub fn on_push_result(&mut self, mailbox: &mut Mailbox, delivered: bool) -> (action: LoopAction)
        ensures
            final(self).slot() == old(self).slot(),
            final(self).loop_state() == next_state(
                old(self).loop_state(),
                if delivered {
                    LoopEvent::PushDelivered
                } else {
                    LoopEvent::PushFailed
                },
            ),
            final(mailbox)@ == if old(self).loop_state() == LoopState::Pushing && !delivered {
                closed(old(mailbox)@, old(self).slot())
            } else {
                old(mailbox)@
            },
            action == action_in(final(self).loop_state()),
    {
        let event = if delivered {
            LoopEvent::PushDelivered
        } else {
            LoopEvent::PushFailed
        };
        let was_pushing = self.state == LoopState::Pushing;
        let (after, action) = step(self.state, event);
        self.state = after;
        if was_pushing && !delivered {
            let _ = mailbox.unsubscribe(self.id);
        }
        action
    }
}

} // verus!
