//! The notification mailbox: the meeting point of the change detector, its one
//! producer, and the viewers. Every viewer has a slot of its own that holds
//! zero or one pending signal, so one post reaches every viewer and a signal
//! posted onto a pending one is dropped.

use crossbeam::channel::{Receiver, Sender};
use vstd::prelude::*;

verus! {

/// Sending half of a `crossbeam` channel. Opaque: nothing is known of a value.
#[verifier::external_type_specification]
#[verifier::external_body]
#[verifier::reject_recursive_types(T)]
pub struct ExSender<T>(Sender<T>);

/// Receiving half of a `crossbeam` channel. Opaque: nothing is known of a value.
#[verifier::external_type_specification]
#[verifier::external_body]
#[verifier::reject_recursive_types(T)]
pub struct ExReceiver<T>(Receiver<T>);

/// Calls `crossbeam::channel::unbounded` for a channel of unit messages, on
/// which a viewer waits to be woken. Nothing is claimed of the two halves.
#[verifier::external_body]
fn wake_channel() -> (ends: (Sender<()>, Receiver<()>)) {
    crossbeam::channel::unbounded()
}

/// Calls `Sender::try_send` with the unit message, which never blocks, and
/// returns whether the message was taken. Nothing is claimed of the outcome:
/// it depends on whether the other half of the channel is still there.
#[verifier::external_body]
fn wake(sender: &Sender<()>) -> (sent: bool) {
    sender.try_send(()).is_ok()
}

/// What the mailbox holds after a post: a pending signal for every viewer.
pub open spec fn posted(slots: Map<usize, bool>) -> Map<usize, bool> {
    Map::new(|id: usize| slots.contains_key(id), |id: usize| true)
}

/// What the mailbox holds after `posts` posts in a row.
pub open spec fn posted_times(slots: Map<usize, bool>, posts: nat) -> Map<usize, bool>
    decreases posts,
{
    if posts == 0 {
        slots
    } else {
        posted(posted_times(slots, (posts - 1) as nat))
    }
}

/// Whether a signal is pending for the viewer `id`.
pub open spec fn pending_for(slots: Map<usize, bool>, id: usize) -> bool {
    slots.contains_key(id) && slots[id]
}

/// What the mailbox holds after the viewer `id` took its signal.
pub open spec fn taken(slots: Map<usize, bool>, id: usize) -> Map<usize, bool> {
    if slots.contains_key(id) {
        slots.insert(id, false)
    } else {
        slots
    }
}

/// What the mailbox holds after the viewer `id` closed.
pub open spec fn closed(slots: Map<usize, bool>, id: usize) -> Map<usize, bool> {
    slots.remove(id)
}

/// One post reaches every open viewer: whatever was pending before, each open
/// viewer has a signal pending afterwards, and no viewer is opened or closed.
pub proof fn lemma_post_reaches_every_viewer(slots: Map<usize, bool>, id: usize)
    ensures
        posted(slots).contains_key(id) == slots.contains_key(id),
        slots.contains_key(id) ==> pending_for(posted(slots), id),
{
}

/// At most one signal is pending. However many signals are posted in a row,
/// the mailbox holds what it held after the first of them.
pub proof fn lemma_repeated_posts_keep_one_signal(slots: Map<usize, bool>, posts: nat)
    requires
        posts >= 1,
    ensures
        posted_times(slots, posts) == posted(slots),
    decreases posts,
{
    if posts == 1 {
        assert(posted_times(slots, 0) == slots);
    } else {
        lemma_repeated_posts_keep_one_signal(slots, (posts - 1) as nat);
        assert(posted(posted(slots)) =~= posted(slots));
    }
}

/// Signals posted while a viewer's signal is still pending are dropped for
/// that viewer: its one signal stays pending, and once the viewer has taken
/// it, nothing is pending for the viewer.
pub proof fn lemma_posts_onto_pending_are_dropped(slots: Map<usize, bool>, id: usize, posts: nat)
    requires
        pending_for(slots, id),
    ensures
        pending_for(posted_times(slots, posts), id),
        !pending_for(taken(posted_times(slots, posts), id), id),
        posted_times(slots, posts).contains_key(id),
{
    if posts >= 1 {
        lemma_repeated_posts_keep_one_signal(slots, posts);
    }
}

/// Viewers are independent. Closing one viewer, or one viewer taking its
/// signal, leaves every other viewer open with what was pending for it, and
/// the next post still reaches the other viewer.
pub proof fn lemma_viewers_are_independent(slots: Map<usize, bool>, viewer: usize, other: usize)
    requires
        viewer != other,
    ensures
        closed(slots, viewer).contains_key(other) == slots.contains_key(other),
        pending_for(closed(slots, viewer), other) == pending_for(slots, other),
        taken(slots, viewer).contains_key(other) == slots.contains_key(other),
        pending_for(taken(slots, viewer), other) == pending_for(slots, other),
        slots.contains_key(other) ==> pending_for(posted(closed(slots, viewer)), other),
{
}

struct Slot {
    wake: Option<Sender<()>>,
    pending: bool,
}

/// A viewer's end of the mailbox.
pub struct Subscription {
    /// Names the viewer's slot in the mailbox.
    pub id: usize,
    /// Yields one unit message each time a signal becomes pending for the
    /// viewer: waiting on it is how a viewer waits for the next signal.
    pub wake: Receiver<()>,
}

/// The mailbox. Its view maps each open viewer to whether a signal is pending
/// for it.
pub struct Mailbox {
    slots: Vec<Slot>,
}

impl View for Mailbox {
    type V = Map<usize, bool>;

    closed spec fn view(&self) -> Map<usize, bool> {
        Map::new(
            |id: usize| id < self.slots.len() && self.slots[id as int].wake.is_some(),
            |id: usize| self.slots[id as int].pending,
        )
    }
}

impl Mailbox {
    /// A mailbox without viewers.
    pub fn new() -> (mailbox: Self)
        ensures
            mailbox@ == Map::<usize, bool>::empty(),
    {
        let mailbox = Mailbox { slots: Vec::new() };
        assert(mailbox@ =~= Map::<usize, bool>::empty());
        mailbox
    }

    /// Opens a slot for a new viewer, with nothing pending. The viewer gets
    /// the lowest id that no open viewer has.
    pub fn subscribe(&mut self) -> (subscription: Subscription)
        ensures
            !old(self)@.contains_key(subscription.id),
            forall|id: usize| id < subscription.id ==> old(self)@.contains_key(id),
            final(self)@ == old(self)@.insert(subscription.id, false),
    {
        let (sender, receiver) = wake_channel();
        let n = self.slots.len();
        let mut i: usize = 0;
        while i < n && self.slots[i].wake.is_some()
            invariant
                i <= n,
                n == self.slots.len(),
                *self == *old(self),
                forall|k: int| 0 <= k < i ==> self.slots[k].wake.is_some(),
            decreases n - i,
        {
            i += 1;
        }
        let slot = Slot { wake: Some(sender), pending: false };
        if i < n {
            self.slots[i] = slot;
        } else {
            self.slots.push(slot);
        }
        assert(self@ =~= old(self)@.insert(i, false));
        Subscription { id: i, wake: receiver }
    }

    /// Whether the viewer `id` is open.
    pub fn is_subscribed(&self, id: usize) -> (open: bool)
        ensures
            open == self@.contains_key(id),
    {
        id < self.slots.len() && self.slots[id].wake.is_some()
    }

    /// Whether a signal is pending for the viewer `id`. Does not block.
    pub fn is_pending(&self, id: usize) -> (pending: bool)
        ensures
            pending == pending_for(self@, id),
    {
        id < self.slots.len() && self.slots[id].wake.is_some() && self.slots[id].pending
    }

    /// Posts one signal. It becomes pending for every viewer that has none
    /// pending, and that viewer is woken; for a viewer whose signal is still
    /// pending the new one is dropped.
    pub fn post(&mut self)
        ensures
            final(self)@ == posted(old(self)@),
    {
        let n = self.slots.len();
        let mut i: usize = 0;
        while i < n
            invariant
                i <= n,
                n == self.slots.len(),
                n == old(self).slots.len(),
                forall|k: int|
                    0 <= k < n ==> (#[trigger] self.slots[k]).wake.is_some() == old(
                        self,
                    ).slots[k].wake.is_some(),
                forall|k: int|
                    0 <= k < i && self.slots[k].wake.is_some() ==> (
                    #[trigger] self.slots[k]).pending,
                forall|k: int|
                    i <= k < n ==> (#[trigger] self.slots[k]).pending == old(self).slots[k].pending,
            decreases n - i,
        {
            if self.slots[i].wake.is_some() && !self.slots[i].pending {
                self.slots[i].pending = true;
                // A viewer that cannot be woken is gone, and is closed by its
                // own loop.
                let _sent = match &self.slots[i].wake {
                    Some(sender) => wake(sender),
                    None => false,
                };
            }
            i += 1;
        }
        assert(self@ =~= posted(old(self)@));
    }

    /// Takes the pending signal of the viewer `id`, if there is one. Does not
    /// block. Returns whether there was one.
    pub fn take(&mut self, id: usize) -> (signal: bool)
        ensures
            signal == pending_for(old(self)@, id),
            final(self)@ == taken(old(self)@, id),
    {
        if id < self.slots.len() && self.slots[id].wake.is_some() {
            let signal = self.slots[id].pending;
            self.slots[id].pending = false;
            assert(self@ =~= taken(old(self)@, id));
            signal
        } else {
            false
        }
    }

    /// Closes the viewer `id` and frees its slot. Returns whether it was open.
    pub fn unsubscribe(&mut self, id: usize) -> (was_open: bool)
        ensures
            was_open == old(self)@.contains_key(id),
            final(self)@ == closed(old(self)@, id),
    {
        if id < self.slots.len() && self.slots[id].wake.is_some() {
            self.slots[id] = Slot { wake: None, pending: false };
            assert(self@ =~= closed(old(self)@, id));
            true
        } else {
            assert(self@ =~= closed(old(self)@, id));
            false
        }
    }
}

} // verus!
