//! The update channel: a bounded first-in-first-out queue between the stream
//! reader and the single consumer of updates, kept in a bounded channel of
//! `tokio`.

use tokio::sync::mpsc::error::TrySendError;
use tokio::sync::mpsc::Receiver;
use tokio::sync::mpsc::Sender;
use vstd::prelude::*;

use crate::update::Update;

verus! {

/// The sending half of a bounded channel of `tokio`. Opaque here.
#[verifier::external_type_specification]
#[verifier::external_body]
#[verifier::reject_recursive_types(T)]
pub struct ExSender<T>(Sender<T>);

/// The receiving half of a bounded channel of `tokio`. Opaque here.
#[verifier::external_type_specification]
#[verifier::external_body]
#[verifier::reject_recursive_types(T)]
pub struct ExReceiver<T>(Receiver<T>);

/// Number of updates the channel holds before it starts rejecting.
pub const UPDATE_CHANNEL_CAPACITY: usize = 10_000;

/// The updates waiting in the channel that `receiver` reads, oldest first.
pub uninterp spec fn queued(receiver: Receiver<Update>) -> Seq<Update>;

/// The bound that the channel that `receiver` reads was made with.
pub uninterp spec fn queue_bound(receiver: Receiver<Update>) -> usize;

/// The largest bound a channel can be made with.
pub open spec fn max_bound() -> usize {
    (usize::MAX / 8) as usize
}

/// A bounded queue of updates. Sending never waits: when the queue is full
/// the update is handed back to the sender.
///
/// The channel keeps both halves to itself, so nothing but its own methods
/// sends or receives, and it is never closed.
pub struct UpdateChannel {
    sender: Sender<Update>,
    receiver: Receiver<Update>,
}

impl View for UpdateChannel {
    type V = Seq<Update>;

    closed spec fn view(&self) -> Seq<Update> {
        queued(self.receiver)
    }
}

/// Calls `tokio::sync::mpsc::channel`. Trusted: the channel is made empty
/// and with the bound asked for. The call panics on a bound of zero and on
/// one above an eighth of the address range, which are left out.
#[verifier::external_body]
fn open_channel(capacity: usize) -> (channel: UpdateChannel)
    requires
        0 < capacity <= max_bound(),
    ensures
        queued(channel.receiver) == Seq::<Update>::empty(),
        queue_bound(channel.receiver) == capacity,
{
    let (sender, receiver) = tokio::sync::mpsc::channel(capacity);
    UpdateChannel { sender, receiver }
}

/// Calls `Sender::try_send`. Trusted: with fewer updates waiting than the
/// bound, the update joins the back of the queue; at the bound the queue
/// stays as it is and the update comes back. The call never waits.
#[verifier::external_body]
fn offer(channel: &mut UpdateChannel, update: Update) -> (outcome: Result<(), Update>)
    ensures
        final(channel).spec_capacity() == old(channel).spec_capacity(),
        old(channel)@.len() < old(channel).spec_capacity() ==> outcome is Ok && final(channel)@
            == old(channel)@.push(update),
        old(channel)@.len() >= old(channel).spec_capacity() ==> outcome is Err && outcome->Err_0
            == update && final(channel)@ == old(channel)@,
{
    match channel.sender.try_send(update) {
        Ok(()) => Ok(()),
        Err(TrySendError::Full(update)) => Err(update),
        Err(TrySendError::Closed(update)) => Err(update),
    }
}

/// Calls `Receiver::try_recv`. Trusted: the oldest waiting update leaves
/// the queue and is returned; an empty queue gives none and stays empty.
#[verifier::external_body]
fn take(channel: &mut UpdateChannel) -> (update: Option<Update>)
    ensures
        final(channel).spec_capacity() == old(channel).spec_capacity(),
        old(channel)@.len() == 0 ==> update is None && final(channel)@ == old(channel)@,
        old(channel)@.len() > 0 ==> update == Some(old(channel)@[0]) && final(channel)@ == old(
            channel,
        )@.subrange(1, old(channel)@.len() as int),
{
    channel.receiver.try_recv().ok()
}

/// Calls `Receiver::len`. Trusted: it is the number of updates waiting.
#[verifier::external_body]
fn waiting(channel: &UpdateChannel) -> (len: usize)
    ensures
        len == queued(channel.receiver).len(),
{
    channel.receiver.len()
}

/// Calls `Sender::max_capacity`. Trusted: it is the bound the channel was
/// made with.
#[verifier::external_body]
fn bound_of(channel: &UpdateChannel) -> (capacity: usize)
    ensures
        capacity == queue_bound(channel.receiver),
{
    channel.sender.max_capacity()
}

impl UpdateChannel {
    /// The bound the channel was made with.
    pub closed spec fn spec_capacity(&self) -> usize {
        queue_bound(self.receiver)
    }

    /// The queue never holds more than its bound.
    pub closed spec fn wf(&self) -> bool {
        queued(self.receiver).len() <= queue_bound(self.receiver)
    }

    /// An empty channel with the standard bound.
    pub fn new() -> (channel: Self)
        ensures
            channel.wf(),
            channel@ == Seq::<Update>::empty(),
            channel.spec_capacity() == UPDATE_CHANNEL_CAPACITY,
    {
        open_channel(UPDATE_CHANNEL_CAPACITY)
    }

    /// An empty channel that holds at most `capacity` updates; none where
    /// no channel can be made with that bound.
    pub fn with_capacity(capacity: usize) -> (channel: Option<Self>)
        ensures
            channel is Some <==> 0 < capacity <= max_bound(),
            channel matches Some(c) ==> c.wf() && c@ == Seq::<Update>::empty()
                && c.spec_capacity() == capacity,
    {
        if capacity == 0 || capacity > usize::MAX / 8 {
            None
        } else {
            Some(open_channel(capacity))
        }
    }

    #[verifier::when_used_as_spec(spec_capacity)]
    pub fn capacity(&self) -> (capacity: usize)
        ensures
            capacity == self.spec_capacity(),
    {
        bound_of(self)
    }

    /// Number of updates waiting in the queue.
    pub fn len(&self) -> (len: usize)
        requires
            self.wf(),
        ensures
            len == self@.len(),
            len <= self.spec_capacity(),
    {
        waiting(self)
    }

    pub fn is_empty(&self) -> (empty: bool)
        ensures
            empty == (self@.len() == 0),
    {
        waiting(self) == 0
    }

    pub fn is_full(&self) -> (full: bool)
        requires
            self.wf(),
        ensures
            full == (self@.len() == self.spec_capacity()),
    {
        waiting(self) >= bound_of(self)
    }

    /// Offers an update to the queue without waiting. With room left the
    /// update joins the back of the queue; at capacity the queue stays as it
    /// is and the update comes back as the error.
    pub fn try_send(&mut self, update: Update) -> (outcome: Result<(), Update>)
        requires
            old(self).wf(),
        ensures
            final(self).wf(),
            final(self).spec_capacity() == old(self).spec_capacity(),
            old(self)@.len() < old(self).spec_capacity() ==> outcome is Ok && final(self)@
                == old(self)@.push(update),
            old(self)@.len() >= old(self).spec_capacity() ==> outcome == Err::<(), Update>(update)
                && final(self)@ == old(self)@,
    {
        offer(self, update)
    }

    /// Takes the oldest waiting update, if there is one.
    pub fn try_recv(&mut self) -> (update: Option<Update>)
        requires
            old(self).wf(),
        ensures
            final(self).wf(),
            final(self).spec_capacity() == old(self).spec_capacity(),
            old(self)@.len() == 0 ==> update is None && final(self)@ == old(self)@,
            old(self)@.len() > 0 ==> update == Some(old(self)@[0]) && final(self)@ == old(
                self,
            )@.subrange(1, old(self)@.len() as int),
    {
        take(self)
    }
}

} // verus!
