//! Laws of the channel, stated over the abstract model that the
//! operations' contracts speak of.
use vstd::prelude::*;
use crate::model::{ChannelView, SendVerdict, ReceiveVerdict};

verus! {

/// Once the consumer has closed, every send is refused as closed; once the
/// producer has closed, a receive still delivers what is in flight and
/// then reports closed, and never reports an open, empty channel.
pub proof fn lemma_after_close<T>(v: ChannelView<T>)
    ensures
        !v.consumer_open ==> v.send_verdict() == SendVerdict::Closed,
        !v.producer_open ==> v.send_verdict() == SendVerdict::Closed,
        !v.producer_open ==> v.receive_verdict() != ReceiveVerdict::Empty,
        !v.producer_open && v.consumer_open && v.queue.len() > 0 ==> v.receive_verdict()
            == ReceiveVerdict::Deliver,
        !v.producer_open && v.queue.len() == 0 ==> v.receive_verdict() == ReceiveVerdict::Closed,
{
}

/// A suspended operation is resumed by the other side's next success or
/// close: an accepted send or the producer's close resumes a waiting
/// receive, and a delivered message or the consumer's close resumes a
/// waiting send.
pub proof fn lemma_wakeup<T>(v: ChannelView<T>, x: T)
    ensures
        v.consumer_armed ==> v.after_send(x).consumer_woken == v.consumer_woken + 1,
        v.consumer_armed && v.producer_open && v.consumer_open ==> v.after_producer_close().consumer_woken
            == v.consumer_woken + 1,
        v.producer_armed && v.producer_open ==> v.after_receive().producer_woken
            == v.producer_woken + 1,
        v.producer_armed && v.producer_open && v.consumer_open ==> v.after_consumer_close().producer_woken
            == v.producer_woken + 1,
{
}

/// A value sent on an open, empty channel is the value the next receive
/// delivers, and the channel is empty again after.
pub proof fn lemma_send_then_receive<T>(v: ChannelView<T>, x: T)
    requires
        v.send_verdict() == SendVerdict::Accept,
        v.queue.len() == 0,
    ensures
        v.after_send(x).receive_verdict() == ReceiveVerdict::Deliver,
        v.after_send(x).queue[0] == x,
        v.after_send(x).after_receive().queue.len() == 0,
        v.after_send(x).after_receive().delivered == v.delivered.push(x),
{
    assert(v.after_send(x).queue =~= seq![x]);
}

/// Closing a side twice is closing it once.
pub proof fn lemma_close_idempotent<T>(v: ChannelView<T>)
    ensures
        v.after_producer_close().after_producer_close() == v.after_producer_close(),
        v.after_consumer_close().after_consumer_close() == v.after_consumer_close(),
{
}

/// With a capacity of one, a second send right after an accepted one finds
/// the channel full.
pub proof fn lemma_capacity_one<T>(v: ChannelView<T>, x: T)
    requires
        v.capacity == 1,
        v.queue.len() <= v.capacity,
        v.send_verdict() == SendVerdict::Accept,
    ensures
        v.after_send(x).send_verdict() == SendVerdict::Full,
{
}

/// The channel after each value of `xs` in turn is sent and received.
pub open spec fn round_trips<T>(v: ChannelView<T>, xs: Seq<T>) -> ChannelView<T>
    decreases xs.len(),
{
    if xs.len() == 0 {
        v
    } else {
        round_trips(v, xs.drop_last()).after_send(xs.last()).after_receive()
    }
}

/// Sending and receiving values one at a time on an open, empty channel
/// delivers them in order, and moves both cursors on by one each time,
/// modulo twice the capacity: after twice the capacity of round trips the
/// cursors are back where they started.
pub proof fn lemma_wrap_around<T>(v: ChannelView<T>, xs: Seq<T>)
    requires
        v.producer_open,
        v.consumer_open,
        v.capacity > 0,
        v.queue.len() == 0,
        v.front < 2 * v.capacity,
        v.back < 2 * v.capacity,
    ensures
        round_trips(v, xs).producer_open,
        round_trips(v, xs).consumer_open,
        round_trips(v, xs).capacity == v.capacity,
        round_trips(v, xs).queue.len() == 0,
        round_trips(v, xs).sent == v.sent + xs,
        round_trips(v, xs).delivered == v.delivered + xs,
        round_trips(v, xs).front == (v.front + xs.len()) % (2 * v.capacity),
        round_trips(v, xs).back == (v.back + xs.len()) % (2 * v.capacity),
        xs.len() == 2 * v.capacity ==> round_trips(v, xs).front == v.front
            && round_trips(v, xs).back == v.back,
    decreases xs.len(),
{
    let m = 2 * v.capacity as int;
    if xs.len() == 0 {
        assert(v.sent + xs =~= v.sent);
        assert(v.delivered + xs =~= v.delivered);
        vstd::arithmetic::div_mod::lemma_small_mod(v.front, m as nat);
        vstd::arithmetic::div_mod::lemma_small_mod(v.back, m as nat);
    } else {
        let ys = xs.drop_last();
        lemma_wrap_around(v, ys);
        let w = round_trips(v, ys);
        let x = xs.last();
        assert(w.send_verdict() == SendVerdict::Accept);
        lemma_send_then_receive(w, x);
        assert(v.sent + xs =~= (v.sent + ys).push(x));
        assert(v.delivered + xs =~= (v.delivered + ys).push(x));
        vstd::arithmetic::div_mod::lemma_add_mod_noop((v.front + ys.len()) as int, 1, m);
        vstd::arithmetic::div_mod::lemma_add_mod_noop((v.back + ys.len()) as int, 1, m);
        vstd::arithmetic::div_mod::lemma_mod_twice((v.front + ys.len()) as int, m);
        vstd::arithmetic::div_mod::lemma_mod_twice((v.back + ys.len()) as int, m);
        vstd::arithmetic::div_mod::lemma_small_mod(1, m as nat);
    }
    if xs.len() == 2 * v.capacity {
        vstd::arithmetic::div_mod::lemma_mod_add_multiples_vanish(v.front as int, m);
        vstd::arithmetic::div_mod::lemma_mod_add_multiples_vanish(v.back as int, m);
        vstd::arithmetic::div_mod::lemma_small_mod(v.front, m as nat);
        vstd::arithmetic::div_mod::lemma_small_mod(v.back, m as nat);
    }
}

} // verus!
