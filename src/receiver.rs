//! The consumer handle and its receive operation.
use vstd::prelude::*;
use std::task::Waker;
use crate::state::{Half, State, MAX_CAPACITY};
use crate::ring::Ring;
use crate::model::{ChannelView, ReceiveVerdict};
use crate::{Closed, Polled};

verus! {

/// The consumer's handle: the sole right to dequeue.
///
/// It keeps its own snapshot of the state word, which it refreshes only
/// when the snapshot shows nothing to receive.
pub struct Receiver {
    state: State,
    cap: Half,
    open: bool,
}

/// The channel as a receive attempt sees it: the consumer's register is
/// emptied first when the operation had been waiting in it.
pub open spec fn receive_start<T>(v: ChannelView<T>, waiting: bool) -> ChannelView<T> {
    if waiting {
        v.consumer_disarmed()
    } else {
        v
    }
}

impl Receiver {
    #[verifier::type_invariant]
    spec fn well_formed(self) -> bool {
        &&& 0 < self.cap <= MAX_CAPACITY
        &&& self.state.valid(self.cap as nat)
    }

    /// The snapshot of the word that the handle holds.
    pub closed spec fn cached(&self) -> State {
        self.state
    }

    pub closed spec fn spec_cap(&self) -> Half {
        self.cap
    }

    /// The handle has not been closed.
    pub closed spec fn is_open(&self) -> bool {
        self.open
    }

    /// The handle is the consumer of `ring`.
    pub open spec fn agrees<T>(&self, ring: &Ring<T>) -> bool {
        &&& ring.wf()
        &&& self.spec_cap() == ring.spec_capacity()
        &&& ring.consumer_cache() == if self.is_open() {
            Some(self.cached())
        } else {
            None
        }
    }

    /// The handle of a side of `ring` whose snapshot is `state`.
    pub(crate) fn new<T>(state: State, ring: &Ring<T>) -> (r: Receiver)
        requires
            ring.wf(),
            ring.consumer_cache() == Some(state),
        ensures
            r.agrees(ring),
            r.is_open(),
    {
        proof {
            ring.lemma_caches_valid();
        }
        Receiver { state, cap: ring.capacity(), open: true }
    }

    /// An operation that receives one message, now or once one arrives.
    pub fn receive(&self) -> (r: Receiving)
        ensures
            !r.is_waiting(),
    {
        Receiving { waiting: false }
    }

    /// Closes the consumer side. Closing a closed handle does nothing.
    pub fn close<T>(&mut self, ring: &mut Ring<T>)
        requires
            old(self).agrees(old(ring)),
        ensures
            final(self).agrees(final(ring)),
            !final(self).is_open(),
            final(ring).producer_cache() == old(ring).producer_cache(),
            final(ring).spec_capacity() == old(ring).spec_capacity(),
            final(ring)@ == old(ring)@.after_consumer_close(),
    {
        proof {
            use_type_invariant(&*self);
            ring.lemma_open_flags();
        }
        if self.open {
            self.open = false;
            ring.close_consumer(self.state);
        }
    }
}

/// A single receive: whether the operation waits in the consumer's
/// register.
pub struct Receiving {
    waiting: bool,
}

impl Receiving {
    /// A continuation of this operation waits in the consumer's register.
    pub closed spec fn is_waiting(&self) -> bool {
        self.waiting
    }

    /// One attempt, with the register emptied if the operation had waited
    /// in it.
    fn attempt<T>(&mut self, receiver: &mut Receiver, ring: &mut Ring<T>) -> (r: Result<
        Option<T>,
        Closed,
    >)
        requires
            old(receiver).agrees(old(ring)),
        ensures
            final(receiver).agrees(final(ring)),
            final(receiver).is_open() == old(receiver).is_open(),
            final(ring).producer_cache() == old(ring).producer_cache(),
            final(ring).spec_capacity() == old(ring).spec_capacity(),
            !final(self).is_waiting(),
            ({
                let v0 = receive_start(old(ring)@, old(self).is_waiting());
                match r {
                    Ok(Some(v)) => {
                        &&& v0.receive_verdict() == ReceiveVerdict::Deliver
                        &&& v == v0.queue[0]
                        &&& final(ring)@ == v0.after_receive()
                    },
                    Ok(None) => {
                        &&& v0.receive_verdict() == ReceiveVerdict::Empty
                        &&& final(ring)@ == v0
                    },
                    Err(_) => {
                        &&& v0.receive_verdict() == ReceiveVerdict::Closed
                        &&& final(ring)@ == v0
                    },
                }
            }),
    {
        proof {
            ring.lemma_open_flags();
        }
        if self.waiting {
            ring.clear_consumer();
            self.waiting = false;
        }
        if receiver.open {
            let mut state = receiver.state;
            let r = ring.receive_step(&mut state);
            receiver.state = state;
            r
        } else {
            Err(Closed)
        }
    }

    /// Receives without suspending: `Ok(Some(v))` for a message, `Ok(None)`
    /// when the channel is open and empty, `Err(Closed)` when it is closed
    /// and empty.
    pub fn now<T>(self, receiver: &mut Receiver, ring: &mut Ring<T>) -> (r: Result<
        Option<T>,
        Closed,
    >)
        requires
            old(receiver).agrees(old(ring)),
        ensures
            final(receiver).agrees(final(ring)),
            final(receiver).is_open() == old(receiver).is_open(),
            final(ring).producer_cache() == old(ring).producer_cache(),
            final(ring).spec_capacity() == old(ring).spec_capacity(),
            ({
                let v0 = receive_start(old(ring)@, self.is_waiting());
                match r {
                    Ok(Some(v)) => {
                        &&& v0.receive_verdict() == ReceiveVerdict::Deliver
                        &&& v == v0.queue[0]
                        &&& final(ring)@ == v0.after_receive()
                    },
                    Ok(None) => {
                        &&& v0.receive_verdict() == ReceiveVerdict::Empty
                        &&& final(ring)@ == v0
                    },
                    Err(_) => {
                        &&& v0.receive_verdict() == ReceiveVerdict::Closed
                        &&& final(ring)@ == v0
                    },
                }
            }),
    {
        let mut op = self;
        op.attempt(receiver, ring)
    }

    /// Receives, or, when the channel is open and empty, leaves `waker` in
    /// the consumer's register and reports `Pending`.
    pub fn poll<T>(&mut self, receiver: &mut Receiver, ring: &mut Ring<T>, waker: &Waker) -> (r:
        Polled<Result<T, Closed>>)
        requires
            old(receiver).agrees(old(ring)),
        ensures
            final(receiver).agrees(final(ring)),
            final(receiver).is_open() == old(receiver).is_open(),
            final(ring).producer_cache() == old(ring).producer_cache(),
            final(ring).spec_capacity() == old(ring).spec_capacity(),
            ({
                let v0 = receive_start(old(ring)@, old(self).is_waiting());
                match r {
                    Polled::Pending => {
                        &&& v0.receive_verdict() == ReceiveVerdict::Empty
                        &&& final(ring)@ == (ChannelView { consumer_armed: true, ..v0 })
                        &&& final(self).is_waiting()
                    },
                    Polled::Ready(Ok(v)) => {
                        &&& v0.receive_verdict() == ReceiveVerdict::Deliver
                        &&& v == v0.queue[0]
                        &&& final(ring)@ == v0.after_receive()
                        &&& !final(self).is_waiting()
                    },
                    Polled::Ready(Err(_)) => {
                        &&& v0.receive_verdict() == ReceiveVerdict::Closed
                        &&& final(ring)@ == v0
                        &&& !final(self).is_waiting()
                    },
                }
            }),
    {
        match self.attempt(receiver, ring) {
            Ok(Some(v)) => Polled::Ready(Ok(v)),
            Ok(None) => {
                proof {
                    ring.lemma_open_flags();
                }
                ring.register_consumer(waker);
                self.waiting = true;
                Polled::Pending
            },
            Err(c) => Polled::Ready(Err(c)),
        }
    }

    /// Abandons the operation, emptying the consumer's register if it
    /// waited there, so that no stale continuation is resumed.
    pub fn cancel<T>(self, ring: &mut Ring<T>)
        requires
            old(ring).wf(),
        ensures
            final(ring).wf(),
            final(ring).producer_cache() == old(ring).producer_cache(),
            final(ring).spec_capacity() == old(ring).spec_capacity(),
            final(ring).consumer_cache() == old(ring).consumer_cache(),
            final(ring).spec_capacity() == old(ring).spec_capacity(),
            final(ring)@ == receive_start(old(ring)@, self.is_waiting()),
    {
        if self.waiting {
            ring.clear_consumer();
        }
    }
}

} // verus!
