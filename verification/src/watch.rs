//! One turn of the watch loop: what the change detector and the mailbox do
//! with what the raw event source delivered. The caller waits on the source
//! and reads the clock.

use crate::debounce::{is_due, next_reference, ChangeDetector};
use crate::mailbox::{posted, Mailbox};
use vstd::prelude::*;

verus! {

/// What the raw event source delivered.
#[derive(Clone, Copy, Debug, PartialEq, Eq, Structural)]
pub enum SourceEvent {
    /// The watched path was modified in some way.
    Changed,
    /// The source ended with an error.
    Failed,
}

/// What the caller is to do after a turn.
#[derive(Clone, Copy, Debug, PartialEq, Eq, Structural)]
pub enum WatchAction {
    /// Wait for the next delivery.
    Continue,
    /// Give up: without its source the watch cannot go on.
    Abort,
}

/// Takes one delivery of the raw event source, seen at `now`. A change that
/// is due posts one signal to `mailbox` and moves the detector's reference
/// time to `now`; any other change is absorbed. A failed source changes
/// nothing and ends the watch.
pub fn on_source_event(
    detector: &mut ChangeDetector,
    mailbox: &mut Mailbox,
    event: SourceEvent,
    now: u64,
) -> (action: WatchAction)
    ensures
        action == match event {
            SourceEvent::Changed => WatchAction::Continue,
            SourceEvent::Failed => WatchAction::Abort,
        },
        final(detector).reference() == match event {
            SourceEvent::Changed => next_reference(old(detector).reference(), now),
            SourceEvent::Failed => old(detector).reference(),
        },
        final(mailbox)@ == if event == SourceEvent::Changed && is_due(
            old(detector).reference(),
            now,
        ) {
            posted(old(mailbox)@)
        } else {
            old(mailbox)@
        },
{
    match event {
        SourceEvent::Changed => {
            if detector.on_raw_event(now) {
                mailbox.post();
            }
            WatchAction::Continue
        },
        SourceEvent::Failed => WatchAction::Abort,
    }
}

} // verus!
