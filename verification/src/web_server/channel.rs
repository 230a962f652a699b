//! The dispatch channel: a first-in, first-out queue of envelopes between the
//! pool, which sends, and the workers, which share the receiving end.

use std::collections::VecDeque;
use vstd::prelude::*;

verus! {

/// An envelope on the dispatch channel: a unit of work, or the signal that
/// tells one worker to stop.
#[derive(Debug, PartialEq, Eq)]
pub enum Message<J> {
    NewJob(J),
    Terminate,
}

/// What a worker finds when it asks the channel for the next envelope.
#[derive(Debug, PartialEq, Eq)]
pub enum Received<J> {
    /// The oldest envelope, now taken off the queue.
    Envelope(Message<J>),
    /// Nothing is queued, but the sender is still there: the worker waits.
    Empty,
    /// Nothing is queued and the sender is gone: nothing will ever arrive.
    Closed,
}

/// An unbounded queue of envelopes that keeps the order of sending.
pub struct Channel<J> {
    queue: VecDeque<Message<J>>,
    open: bool,
}

impl<J> Channel<J> {
    /// The envelopes that were sent and not yet received, oldest first.
    pub closed spec fn pending(&self) -> Seq<Message<J>> {
        self.queue@
    }

    /// Whether the sending end still exists.
    pub closed spec fn is_open(&self) -> bool {
        self.open
    }

    /// An empty channel whose sender is alive.
    pub fn new() -> (channel: Self)
        ensures
            channel.pending() == Seq::<Message<J>>::empty(),
            channel.is_open(),
    {
        Channel { queue: VecDeque::new(), open: true }
    }

    /// Appends an envelope behind all that are pending. Once the sender has
    /// been dropped nothing can be sent: the envelope comes back unchanged.
    pub fn send(&mut self, envelope: Message<J>) -> (sent: Result<(), Message<J>>)
        ensures
            final(self).is_open() == old(self).is_open(),
            old(self).is_open() ==> sent is Ok
                && final(self).pending() == old(self).pending().push(envelope),
            !old(self).is_open() ==> sent == Err::<(), Message<J>>(envelope)
                && final(self).pending() == old(self).pending(),
    {
        if self.open {
            self.queue.push_back(envelope);
            Ok(())
        } else {
            Err(envelope)
        }
    }

    /// Takes the oldest pending envelope, if there is one. Otherwise says
    /// whether waiting can help: it cannot once the sender is gone.
    pub fn recv(&mut self) -> (received: Received<J>)
        ensures
            final(self).is_open() == old(self).is_open(),
            old(self).pending().len() > 0 ==> received == Received::Envelope(old(self).pending()[0])
                && final(self).pending() == old(self).pending().drop_first(),
            old(self).pending().len() == 0 ==> final(self).pending() == old(self).pending()
                && received == (if old(self).is_open() {
                Received::<J>::Empty
            } else {
                Received::<J>::Closed
            }),
    {
        match self.queue.pop_front() {
            Some(envelope) => Received::Envelope(envelope),
            None => if self.open {
                Received::Empty
            } else {
                Received::Closed
            },
        }
    }

    /// The number of pending envelopes.
    pub fn len(&self) -> (n: usize)
        ensures
            n == self.pending().len(),
    {
        self.queue.len()
    }

    /// Drops the sending end: what is pending can still be received, but
    /// nothing more can be sent.
    pub fn close(&mut self)
        ensures
            !final(self).is_open(),
            final(self).pending() == old(self).pending(),
    {
        self.open = false;
    }
}

} // verus!
