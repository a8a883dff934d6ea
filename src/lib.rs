//! A bounded single-producer / single-consumer channel over a ring of
//! slots, coordinated through one packed state word.
//!
//! [`spsc`] makes a producer handle, a consumer handle and the control
//! block they share. Each handle keeps its own snapshot of the word; each
//! operation takes its handle and the control block and moves the channel
//! on by one step. Sends and receives come in a non-suspending form
//! (`now`) and a form that leaves a waker to be resumed (`poll`).

mod state;
mod wake;
mod slice;
mod model;
mod ring;
mod sender;
mod receiver;
mod laws;

pub use state::{
    HalfState, State, Half, BITS, HIGH_BIT, S_CLOSE, R_CLOSE, ANY_CLOSE, FRONT, BACK,
    MAX_CAPACITY,
};
pub use wake::WakeSlot;
pub use slice::{Slice, window, in_window};
pub use model::{ChannelView, SendVerdict, ReceiveVerdict};
pub use ring::{Ring, Atomics};
pub use sender::{Sender, Sending, closed, full, send_start};
pub use receiver::{Receiver, Receiving, receive_start};
pub use laws::{
    lemma_after_close, lemma_wakeup, lemma_send_then_receive, lemma_close_idempotent,
    lemma_capacity_one, round_trips, lemma_wrap_around,
};

use vstd::prelude::*;

verus! {

/// Why a send did not go through.
#[derive(Debug, Clone, Copy, PartialEq, Eq, Hash, Structural)]
pub enum SendErrorKind {
    /// The other side has closed: nothing sent will ever be received.
    Closed,
    /// The channel holds as many messages as it can.
    Full,
}

/// A refused send, which hands the value back.
#[derive(Debug, PartialEq, Eq, Hash)]
pub struct SendError<T> {
    pub kind: SendErrorKind,
    pub value: T,
}

/// A receive on a channel that is closed and has nothing left in flight.
#[derive(Debug, Clone, Copy, PartialEq, Eq, Hash, Structural)]
pub struct Closed;

/// The outcome of one attempt of an operation that may suspend.
#[derive(Debug, PartialEq, Eq)]
pub enum Polled<R> {
    /// The operation finished with this result.
    Ready(R),
    /// The operation cannot finish yet; the given waker will be resumed
    /// when the other side makes progress or closes.
    Pending,
}

/// Creates a channel that holds up to `capacity` messages in flight: its
/// producer, its consumer and the control block that they share.
pub fn spsc<T>(capacity: Half) -> (r: (Sender, Receiver, Ring<T>))
    requires
        0 < capacity <= MAX_CAPACITY,
    ensures
        r.0.agrees(&r.2),
        r.1.agrees(&r.2),
        r.0.is_open(),
        r.1.is_open(),
        r.2@ == ChannelView::<T>::fresh(capacity as nat),
{
    let ring = Ring::new(capacity);
    let sender = Sender::new(State(0), &ring);
    let receiver = Receiver::new(State(0), &ring);
    (sender, receiver, ring)
}

} // verus!
