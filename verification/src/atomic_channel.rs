use vstd::prelude::*;

verus! {

/// A channel that holds at most one pending value: a send overwrites
/// whatever waits unread, a receive consumes it. Losing an old value to a
/// newer one is the point: only the latest command matters.
pub struct AtomicChannel<T> {
    message: Option<T>,
}

/// One poll of a timed receive: either a value was pending and is
/// delivered, or the window has elapsed, or the caller should poll again.
#[derive(Debug, PartialEq, Eq)]
pub enum RecvPoll<T> {
    Delivered(T),
    TimedOut,
    KeepWaiting,
}

impl<T> AtomicChannel<T> {
    /// The value waiting to be received, if any; a slot never holds more
    /// than one.
    pub closed spec fn pending(self) -> Option<T> {
        self.message
    }

    /// What a send leaves pending: the new value, whatever was there.
    pub open spec fn spec_sent(pending: Option<T>, message: T) -> Option<T> {
        Some(message)
    }

    /// Creates a new empty channel.
    pub fn new() -> (r: Self)
        ensures
            r.pending() is None,
    {
        AtomicChannel { message: None }
    }

    /// Sends a value into the channel, overwriting the current value if it
    /// exists; it always succeeds at once.
    pub fn send(&mut self, message: T)
        ensures
            final(self).pending() == Self::spec_sent(old(self).pending(), message),
    {
        self.message = Some(message);
    }

    /// Receives the value from the channel, returning `None` if it is
    /// empty; the slot is empty afterwards either way.
    pub fn recv(&mut self) -> (r: Option<T>)
        ensures
            r == old(self).pending(),
            final(self).pending() is None,
    {
        self.message.take()
    }

    /// One decision of a timed receive, with `elapsed_ms` of the
    /// `timeout_ms` window already spent: a pending value is delivered, an
    /// exhausted window times out, and otherwise the caller polls again
    /// after a short sleep. The slot changes only when a value is
    /// delivered.
    pub fn recv_with_timeout_step(&mut self, elapsed_ms: u64, timeout_ms: u64) -> (r: RecvPoll<T>)
        ensures
            old(self).pending() matches Some(v) ==> r == RecvPoll::Delivered(v)
                && final(self).pending() is None,
            old(self).pending() is None && elapsed_ms >= timeout_ms ==> r == RecvPoll::<
                T,
            >::TimedOut && final(self).pending() is None,
            old(self).pending() is None && elapsed_ms < timeout_ms ==> r == RecvPoll::<
                T,
            >::KeepWaiting && final(self).pending() is None,
    {
        match self.recv() {
            Some(message) => RecvPoll::Delivered(message),
            None => {
                if elapsed_ms >= timeout_ms {
                    RecvPoll::TimedOut
                } else {
                    RecvPoll::KeepWaiting
                }
            },
        }
    }
}

/// Sending twice with no receive between the sends leaves exactly the
/// second value pending: what a send leaves never depends on what was
/// there before, so the first value is superseded.
pub proof fn lemma_second_send_wins<T>(start: Option<T>, first: T, second: T)
    ensures
        AtomicChannel::<T>::spec_sent(AtomicChannel::<T>::spec_sent(start, first), second)
            == Some(second),
{
}

} // verus!
