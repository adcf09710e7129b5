//! The event channel: the bounded FIFO between the monitors and the
//! dispatcher.
//!
//! The queue itself is `embassy_sync::channel::Channel`. This module owns
//! one and states what its non-blocking operations do to the queued events.

use vstd::prelude::*;
use embassy_sync::blocking_mutex::raw::NoopRawMutex;
use embassy_sync::channel::Channel;
use crate::event::ButtonEvent;

verus! {

/// How many events the channel holds at most.
pub const CAPACITY: usize = 16;

/// The bounded FIFO that carries button events from every monitor to the
/// dispatcher. It holds an `embassy_sync::channel::Channel` of
/// [`CAPACITY`] places, which the verifier does not look into: what the
/// channel does is stated, not proved, by the four functions below.
#[verifier::external_body]
pub struct EventChannel {
    inner: Channel<NoopRawMutex, ButtonEvent, CAPACITY>,
}

/// The events that wait in a channel, oldest first.
pub uninterp spec fn queued(channel: EventChannel) -> Seq<ButtonEvent>;

/// `Channel::new`: a channel in which nothing waits.
#[verifier::external_body]
fn channel_new() -> (channel: EventChannel)
    ensures
        queued(channel) == Seq::<ButtonEvent>::empty(),
{
    EventChannel { inner: Channel::new() }
}

/// `Channel::len`: the number of events that wait.
#[verifier::external_body]
fn channel_len(channel: &EventChannel) -> (n: usize)
    ensures
        n == queued(*channel).len(),
{
    channel.inner.len()
}

/// `Channel::try_send`: with room left, the event is put behind the
/// waiting ones and the answer is `true`; with the channel full, nothing
/// changes and the answer is `false`. The exclusive borrow keeps every
/// other sender and receiver out, so nothing else changes the queue
/// meanwhile.
#[verifier::external_body]
fn channel_try_send(channel: &mut EventChannel, event: ButtonEvent) -> (taken: bool)
    ensures
        taken == (queued(*old(channel)).len() < CAPACITY),
        queued(*final(channel)) == if taken {
            queued(*old(channel)).push(event)
        } else {
            queued(*old(channel))
        },
{
    channel.inner.try_send(event).is_ok()
}

/// `Channel::try_receive`: the oldest waiting event is taken out and
/// returned; where none waits, nothing changes and nothing is returned.
#[verifier::external_body]
fn channel_try_receive(channel: &mut EventChannel) -> (r: Option<ButtonEvent>)
    ensures
        match r {
            Some(event) => {
                &&& queued(*old(channel)).len() > 0
                &&& event == queued(*old(channel))[0]
                &&& queued(*final(channel)) == queued(*old(channel)).skip(1)
            },
            None => queued(*old(channel)).len() == 0 && queued(*final(channel)) == queued(
                *old(channel),
            ),
        },
{
    channel.inner.try_receive().ok()
}

impl View for EventChannel {
    type V = Seq<ButtonEvent>;

    /// The events that wait, oldest first.
    closed spec fn view(&self) -> Seq<ButtonEvent> {
        queued(*self)
    }
}

impl EventChannel {
    /// An empty channel.
    pub fn new() -> (channel: EventChannel)
        ensures
            channel@ == Seq::<ButtonEvent>::empty(),
    {
        channel_new()
    }

    /// The number of events that wait.
    pub fn len(&self) -> (n: usize)
        ensures
            n == self@.len(),
    {
        channel_len(self)
    }

    /// Whether no event waits.
    pub fn is_empty(&self) -> (r: bool)
        ensures
            r == (self@.len() == 0),
    {
        channel_len(self) == 0
    }

    /// Whether a sender would have to wait.
    pub fn is_full(&self) -> (r: bool)
        ensures
            r == (self@.len() >= CAPACITY),
    {
        channel_len(self) >= CAPACITY
    }

    /// Puts `event` behind the waiting ones. A full channel takes nothing
    /// and hands the event back, for the sender to offer it again: the
    /// channel itself never drops an event.
    pub fn try_send(&mut self, event: ButtonEvent) -> (r: Result<(), ButtonEvent>)
        ensures
            old(self)@.len() < CAPACITY ==> r is Ok && final(self)@ == old(self)@.push(event),
            old(self)@.len() >= CAPACITY ==> r == Err::<(), ButtonEvent>(event) && final(self)@
                == old(self)@,
            old(self)@.len() <= CAPACITY ==> final(self)@.len() <= CAPACITY,
    {
        if channel_try_send(self, event) {
            Ok(())
        } else {
            Err(event)
        }
    }

    /// Offers, in order, the events of `events` from position `from` on,
    /// until the channel is full. Returns the position of the first event
    /// that was not taken.
    pub fn send_some(&mut self, events: &Vec<ButtonEvent>, from: usize) -> (next: usize)
        requires
            from <= events@.len(),
        ensures
            from <= next <= events@.len(),
            final(self)@ == old(self)@ + events@.subrange(from as int, next as int),
            next == events@.len() || final(self)@.len() >= CAPACITY,
            next > from ==> final(self)@.len() <= CAPACITY,
    {
        let mut i: usize = from;
        while i < events.len()
            invariant
                from <= i <= events@.len(),
                self@ == old(self)@ + events@.subrange(from as int, i as int),
                i > from ==> self@.len() <= CAPACITY,
            decreases events.len() - i,
        {
            match self.try_send(events[i]) {
                Ok(_) => {},
                Err(_) => {
                    return i;
                },
            }
            proof {
                assert(events@.subrange(from as int, i + 1) =~= events@.subrange(
                    from as int,
                    i as int,
                ).push(events@[i as int]));
                assert(self@ =~= old(self)@ + events@.subrange(from as int, i + 1));
            }
            i += 1;
        }
        i
    }

    /// Takes the oldest waiting event out, if one waits.
    pub fn try_receive(&mut self) -> (r: Option<ButtonEvent>)
        ensures
            match r {
                Some(event) => {
                    &&& old(self)@.len() > 0
                    &&& event == old(self)@[0]
                    &&& final(self)@ == old(self)@.skip(1)
                },
                None => old(self)@.len() == 0 && final(self)@ == old(self)@,
            },
    {
        channel_try_receive(self)
    }
}

} // verus!
