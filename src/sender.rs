//! The producer handle and its send operation.
use vstd::prelude::*;
use std::task::Waker;
use crate::state::{Half, State, MAX_CAPACITY};
use crate::ring::Ring;
use crate::model::{ChannelView, SendVerdict};
use crate::{SendError, SendErrorKind, Polled};

verus! {

/// The producer's handle: the sole right to enqueue.
///
/// It keeps its own snapshot of the state word, which it refreshes only
/// when the snapshot shows no room.
pub struct Sender {
    state: State,
    cap: Half,
    open: bool,
}

/// A send refused because the consumer has closed.
pub fn closed<T>(value: T) -> (r: Result<(), SendError<T>>)
    ensures
        r == Err::<(), SendError<T>>(SendError { kind: SendErrorKind::Closed, value }),
{
    Err(SendError { kind: SendErrorKind::Closed, value })
}

/// A send refused because the channel is full.
pub fn full<T>(value: T) -> (r: Result<(), SendError<T>>)
    ensures
        r == Err::<(), SendError<T>>(SendError { kind: SendErrorKind::Full, value }),
{
    Err(SendError { kind: SendErrorKind::Full, value })
}

/// The channel as a send attempt sees it: the producer's register is
/// emptied first when the operation had been waiting in it.
pub open spec fn send_start<T>(v: ChannelView<T>, waiting: bool) -> ChannelView<T> {
    if waiting {
        v.producer_disarmed()
    } else {
        v
    }
}

impl Sender {
    #[verifier::type_invariant]
    spec fn well_formed(self) -> bool {
        &&& 0 < self.cap <= MAX_CAPACITY
        &&& self.state.valid(self.cap as nat)
    }

    /// The snapshot of the word that the handle holds.
    pub closed spec fn cached(&self) -> State {
        self.state
    }

    pub closed spec fn spec_cap(&self) -> Half {
        self.cap
    }

    /// The handle has not been closed.
    pub closed spec fn is_open(&self) -> bool {
        self.open
    }

    /// The handle is the producer of `ring`.
    pub open spec fn agrees<T>(&self, ring: &Ring<T>) -> bool {
        &&& ring.wf()
        &&& self.spec_cap() == ring.spec_capacity()
        &&& ring.producer_cache() == if self.is_open() {
            Some(self.cached())
        } else {
            None
        }
    }

    /// The handle of a side of `ring` whose snapshot is `state`.
    pub(crate) fn new<T>(state: State, ring: &Ring<T>) -> (r: Sender)
        requires
            ring.wf(),
            ring.producer_cache() == Some(state),
        ensures
            r.agrees(ring),
            r.is_open(),
    {
        proof {
            ring.lemma_caches_valid();
        }
        Sender { state, cap: ring.capacity(), open: true }
    }

    /// How many slots the snapshot shows free. The true figure may be
    /// greater: the consumer may have received since.
    pub fn space(&self) -> (r: Half)
        ensures
            r == self.spec_cap() - self.cached().length(self.spec_cap() as nat),
    {
        proof {
            use_type_invariant(self);
        }
        self.state.space(self.cap)
    }

    /// Whether the snapshot shows no free slot.
    pub fn is_full(&self) -> (r: bool)
        ensures
            r == (self.cached().length(self.spec_cap() as nat) == self.spec_cap()),
    {
        proof {
            use_type_invariant(self);
        }
        self.state.is_full(self.cap)
    }

    /// Whether the snapshot shows no message in flight.
    pub fn is_empty(&self) -> (r: bool)
        ensures
            r == (self.cached().front_half().pos() == self.cached().back_half().pos()),
    {
        self.state.is_empty()
    }

    /// The most messages that can be in flight at once.
    pub fn capacity(&self) -> (r: Half)
        ensures
            r == self.spec_cap(),
    {
        self.cap
    }

    /// An operation that sends `value`, now or once there is room.
    pub fn send<T>(&self, value: T) -> (r: Sending<T>)
        ensures
            r.pending_value() == Some(value),
            !r.is_waiting(),
    {
        Sending { value: Some(value), waiting: false }
    }

    /// Closes the producer side. Closing a closed handle does nothing.
    pub fn close<T>(&mut self, ring: &mut Ring<T>)
        requires
            old(self).agrees(old(ring)),
        ensures
            final(self).agrees(final(ring)),
            !final(self).is_open(),
            final(ring).consumer_cache() == old(ring).consumer_cache(),
            final(ring).spec_capacity() == old(ring).spec_capacity(),
            final(ring)@ == old(ring)@.after_producer_close(),
    {
        proof {
            use_type_invariant(&*self);
            ring.lemma_open_flags();
        }
        if self.open {
            self.open = false;
            ring.close_producer(self.state);
        }
    }
}

/// A single send: the value to send and whether the operation waits in
/// the producer's register.
pub struct Sending<T> {
    value: Option<T>,
    waiting: bool,
}

impl<T> Sending<T> {
    /// The value still to be sent; `None` once the operation has finished.
    pub closed spec fn pending_value(&self) -> Option<T> {
        self.value
    }

    /// A continuation of this operation waits in the producer's register.
    pub closed spec fn is_waiting(&self) -> bool {
        self.waiting
    }

    /// One attempt, with the value taken out and the register emptied if
    /// the operation had waited in it.
    fn attempt(&mut self, sender: &mut Sender, ring: &mut Ring<T>) -> (r: Result<(), SendError<T>>)
        requires
            old(sender).agrees(old(ring)),
            old(self).pending_value() is Some,
        ensures
            final(sender).agrees(final(ring)),
            final(sender).is_open() == old(sender).is_open(),
            final(ring).consumer_cache() == old(ring).consumer_cache(),
            final(ring).spec_capacity() == old(ring).spec_capacity(),
            final(self).pending_value() is None,
            !final(self).is_waiting(),
            ({
                let v0 = send_start(old(ring)@, old(self).is_waiting());
                let value = old(self).pending_value()->0;
                match r {
                    Ok(()) => {
                        &&& v0.send_verdict() == SendVerdict::Accept
                        &&& final(ring)@ == v0.after_send(value)
                    },
                    Err(e) => {
                        &&& e.value == value
                        &&& final(ring)@ == v0
                        &&& (e.kind == SendErrorKind::Full) == (v0.send_verdict()
                            == SendVerdict::Full)
                        &&& (e.kind == SendErrorKind::Closed) == (v0.send_verdict()
                            == SendVerdict::Closed)
                    },
                }
            }),
    {
        proof {
            ring.lemma_open_flags();
        }
        let value = self.value.take().unwrap();
        if self.waiting {
            ring.clear_producer();
            self.waiting = false;
        }
        if sender.open {
            let mut state = sender.state;
            let r = ring.send_step(&mut state, value);
            sender.state = state;
            r
        } else {
            closed(value)
        }
    }

    /// Sends without suspending: `Ok`, or the value back as `Full` or
    /// `Closed`.
    pub fn now(self, sender: &mut Sender, ring: &mut Ring<T>) -> (r: Result<(), SendError<T>>)
        requires
            old(sender).agrees(old(ring)),
            self.pending_value() is Some,
        ensures
            final(sender).agrees(final(ring)),
            final(sender).is_open() == old(sender).is_open(),
            final(ring).consumer_cache() == old(ring).consumer_cache(),
            final(ring).spec_capacity() == old(ring).spec_capacity(),
            ({
                let v0 = send_start(old(ring)@, self.is_waiting());
                let value = self.pending_value()->0;
                match r {
                    Ok(()) => {
                        &&& v0.send_verdict() == SendVerdict::Accept
                        &&& final(ring)@ == v0.after_send(value)
                    },
                    Err(e) => {
                        &&& e.value == value
                        &&& final(ring)@ == v0
                        &&& (e.kind == SendErrorKind::Full) == (v0.send_verdict()
                            == SendVerdict::Full)
                        &&& (e.kind == SendErrorKind::Closed) == (v0.send_verdict()
                            == SendVerdict::Closed)
                    },
                }
            }),
    {
        let mut op = self;
        op.attempt(sender, ring)
    }

    /// Sends, or, when the channel is full, leaves `waker` in the
    /// producer's register and reports `Pending`; the value stays with the
    /// operation for the next attempt.
    pub fn poll(&mut self, sender: &mut Sender, ring: &mut Ring<T>, waker: &Waker) -> (r: Polled<
        Result<(), SendError<T>>,
    >)
        requires
            old(sender).agrees(old(ring)),
            old(self).pending_value() is Some,
        ensures
            final(sender).agrees(final(ring)),
            final(sender).is_open() == old(sender).is_open(),
            final(ring).consumer_cache() == old(ring).consumer_cache(),
            final(ring).spec_capacity() == old(ring).spec_capacity(),
            ({
                let v0 = send_start(old(ring)@, old(self).is_waiting());
                let value = old(self).pending_value()->0;
                match r {
                    Polled::Pending => {
                        &&& v0.send_verdict() == SendVerdict::Full
                        &&& final(ring)@ == (ChannelView { producer_armed: true, ..v0 })
                        &&& final(self).pending_value() == old(self).pending_value()
                        &&& final(self).is_waiting()
                    },
                    Polled::Ready(Ok(())) => {
                        &&& v0.send_verdict() == SendVerdict::Accept
                        &&& final(ring)@ == v0.after_send(value)
                        &&& final(self).pending_value() is None
                        &&& !final(self).is_waiting()
                    },
                    Polled::Ready(Err(e)) => {
                        &&& v0.send_verdict() == SendVerdict::Closed
                        &&& e.kind == SendErrorKind::Closed
                        &&& e.value == value
                        &&& final(ring)@ == v0
                        &&& final(self).pending_value() is None
                        &&& !final(self).is_waiting()
                    },
                }
            }),
    {
        match self.attempt(sender, ring) {
            Err(SendError { kind: SendErrorKind::Full, value }) => {
                proof {
                    ring.lemma_open_flags();
                }
                ring.register_producer(waker);
                self.waiting = true;
                self.value = Some(value);
                Polled::Pending
            },
            r => Polled::Ready(r),
        }
    }

    /// Abandons the operation, emptying the producer's register if it
    /// waited there, so that no stale continuation is resumed.
    pub fn cancel(self, ring: &mut Ring<T>)
        requires
            old(ring).wf(),
        ensures
            final(ring).wf(),
            final(ring).producer_cache() == old(ring).producer_cache(),
            final(ring).consumer_cache() == old(ring).consumer_cache(),
            final(ring).spec_capacity() == old(ring).spec_capacity(),
            final(ring).spec_capacity() == old(ring).spec_capacity(),
            final(ring)@ == send_start(old(ring)@, self.is_waiting()),
    {
        if self.waiting {
            ring.clear_producer();
        }
    }
}

} // verus!
