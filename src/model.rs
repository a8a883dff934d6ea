//! What a channel is, abstractly: the messages in flight, which sides are
//! open, and the history of what was sent, delivered and discarded.
use vstd::prelude::*;

verus! {

/// The abstract state of a channel.
pub struct ChannelView<T> {
    /// How many messages may be in flight at once.
    pub capacity: nat,
    /// The messages in flight, oldest first.
    pub queue: Seq<T>,
    /// The producer's cursor: the virtual position of the next write.
    pub front: nat,
    /// The consumer's cursor: the virtual position of the next read.
    pub back: nat,
    /// The producer handle has not been closed.
    pub producer_open: bool,
    /// The consumer handle has not been closed.
    pub consumer_open: bool,
    /// Every message that a send committed, in order.
    pub sent: Seq<T>,
    /// Every message that a receive delivered, in order.
    pub delivered: Seq<T>,
    /// The messages dropped, in order, when the channel was torn down.
    pub discarded: Seq<T>,
    /// A suspended send waits in the producer's wakeup register.
    pub producer_armed: bool,
    /// A suspended receive waits in the consumer's wakeup register.
    pub consumer_armed: bool,
    /// How many suspended sends have been resumed.
    pub producer_woken: nat,
    /// How many suspended receives have been resumed.
    pub consumer_woken: nat,
}

/// What an attempt to send does on a given channel.
pub enum SendVerdict {
    Accept,
    Full,
    Closed,
}

/// What an attempt to receive does on a given channel.
pub enum ReceiveVerdict {
    Deliver,
    Empty,
    Closed,
}

impl<T> ChannelView<T> {
    /// A new channel: empty, both sides open, cursors at zero, no history.
    pub open spec fn fresh(capacity: nat) -> ChannelView<T> {
        ChannelView {
            capacity,
            queue: Seq::empty(),
            front: 0,
            back: 0,
            producer_open: true,
            consumer_open: true,
            sent: Seq::empty(),
            delivered: Seq::empty(),
            discarded: Seq::empty(),
            producer_armed: false,
            consumer_armed: false,
            producer_woken: 0,
            consumer_woken: 0,
        }
    }

    /// The channel with no send waiting in the producer's register.
    pub open spec fn producer_disarmed(self) -> ChannelView<T> {
        ChannelView { producer_armed: false, ..self }
    }

    /// The channel with no receive waiting in the consumer's register.
    pub open spec fn consumer_disarmed(self) -> ChannelView<T> {
        ChannelView { consumer_armed: false, ..self }
    }

    /// Both handles are gone and the in-flight messages have been dropped.
    pub open spec fn released(self) -> bool {
        !self.producer_open && !self.consumer_open
    }

    /// A send is accepted on an open channel with space, refused as full
    /// when the channel is open and full, and refused as closed once
    /// either side has closed.
    pub open spec fn send_verdict(self) -> SendVerdict {
        if !self.producer_open || !self.consumer_open {
            SendVerdict::Closed
        } else if self.queue.len() >= self.capacity {
            SendVerdict::Full
        } else {
            SendVerdict::Accept
        }
    }

    /// A receive delivers while messages are in flight, even after the
    /// producer has closed; with none in flight it finds the channel empty
    /// while the producer is open and closed after.
    pub open spec fn receive_verdict(self) -> ReceiveVerdict {
        if !self.consumer_open {
            ReceiveVerdict::Closed
        } else if self.queue.len() > 0 {
            ReceiveVerdict::Deliver
        } else if !self.producer_open {
            ReceiveVerdict::Closed
        } else {
            ReceiveVerdict::Empty
        }
    }

    /// The channel after a send of `v` is accepted: `v` joins the queue,
    /// the front cursor moves on and a waiting receive is resumed.
    pub open spec fn after_send(self, v: T) -> ChannelView<T> {
        ChannelView {
            queue: self.queue.push(v),
            sent: self.sent.push(v),
            front: ((self.front + 1) % (2 * self.capacity)) as nat,
            consumer_armed: false,
            consumer_woken: self.consumer_woken + if self.consumer_armed { 1nat } else { 0nat },
            ..self
        }
    }

    /// The channel after a receive delivers the oldest message: the back
    /// cursor moves on and, while the producer is open, a waiting send is
    /// resumed.
    pub open spec fn after_receive(self) -> ChannelView<T> {
        ChannelView {
            queue: self.queue.drop_first(),
            delivered: self.delivered.push(self.queue[0]),
            back: ((self.back + 1) % (2 * self.capacity)) as nat,
            producer_armed: if self.producer_open { false } else { self.producer_armed },
            producer_woken: self.producer_woken + if self.producer_open && self.producer_armed {
                1nat
            } else {
                0nat
            },
            ..self
        }
    }

    /// The channel torn down by the last side to close: every message in
    /// flight is dropped and both registers are emptied.
    pub open spec fn torn_down(self) -> ChannelView<T> {
        ChannelView {
            producer_open: false,
            consumer_open: false,
            queue: Seq::empty(),
            discarded: self.queue,
            producer_armed: false,
            consumer_armed: false,
            ..self
        }
    }

    /// The channel after the producer closes. Closing twice is closing
    /// once. The first side to close resumes the other's waiting
    /// operation; the second tears the channel down.
    pub open spec fn after_producer_close(self) -> ChannelView<T> {
        if !self.producer_open {
            self
        } else if self.consumer_open {
            ChannelView {
                producer_open: false,
                consumer_armed: false,
                consumer_woken: self.consumer_woken + if self.consumer_armed { 1nat } else { 0nat },
                ..self
            }
        } else {
            self.torn_down()
        }
    }

    /// The channel after the consumer closes; symmetric to the producer.
    pub open spec fn after_consumer_close(self) -> ChannelView<T> {
        if !self.consumer_open {
            self
        } else if self.producer_open {
            ChannelView {
                consumer_open: false,
                producer_armed: false,
                producer_woken: self.producer_woken + if self.producer_armed { 1nat } else { 0nat },
                ..self
            }
        } else {
            self.torn_down()
        }
    }
}

} // verus!
