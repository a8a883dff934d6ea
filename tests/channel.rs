use async_spsc::{
    closed, full, spsc, Closed, HalfState, Polled, SendErrorKind, Slice, State, MAX_CAPACITY,
};
use std::cell::Cell;
use std::rc::Rc;
use std::sync::atomic::{AtomicUsize, Ordering};
use std::sync::Arc;
use std::task::{Wake, Waker};

struct Counter {
    woken: AtomicUsize,
}

impl Wake for Counter {
    fn wake(self: Arc<Self>) {
        self.woken.fetch_add(1, Ordering::SeqCst);
    }
}

fn counter() -> (Arc<Counter>, Waker) {
    let c = Arc::new(Counter { woken: AtomicUsize::new(0) });
    let w = Waker::from(c.clone());
    (c, w)
}

fn registered(c: &Arc<Counter>) -> usize {
    Arc::strong_count(c) - 2
}

fn wakes(c: &Arc<Counter>) -> usize {
    c.woken.load(Ordering::SeqCst)
}

// A payload that records how often it is dropped.
struct Counted {
    id: u32,
    drops: Rc<Cell<u32>>,
}

impl Drop for Counted {
    fn drop(&mut self) {
        self.drops.set(self.drops.get() + 1);
    }
}

fn counted(id: u32) -> (Counted, Rc<Cell<u32>>) {
    let drops = Rc::new(Cell::new(0));
    (Counted { id, drops: drops.clone() }, drops)
}

#[test]
fn scenario_full_then_drain() {
    let (mut s, mut r, mut ring) = spsc::<i32>(1);
    assert_eq!(Ok(()), s.send(42).now(&mut s, &mut ring));
    assert_eq!(full(420), s.send(420).now(&mut s, &mut ring));
    assert_eq!(Ok(Some(42)), r.receive().now(&mut r, &mut ring));
    assert_eq!(Ok(None), r.receive().now(&mut r, &mut ring));
    assert_eq!(Ok(()), s.send(420).now(&mut s, &mut ring));
    assert_eq!(Ok(Some(420)), r.receive().now(&mut r, &mut ring));
}

#[test]
fn scenario_consumer_gone() {
    let (mut s, mut r, mut ring) = spsc::<i32>(1);
    r.close(&mut ring);
    assert_eq!(closed(42), s.send(42).now(&mut s, &mut ring));
}

#[test]
fn scenario_producer_gone_drains_then_closed() {
    let (mut s, mut r, mut ring) = spsc::<i32>(1);
    assert_eq!(Ok(()), s.send(42).now(&mut s, &mut ring));
    s.close(&mut ring);
    assert_eq!(Ok(Some(42)), r.receive().now(&mut r, &mut ring));
    assert_eq!(Err(Closed), r.receive().now(&mut r, &mut ring));
}

#[test]
fn scenario_receive_suspends_and_is_woken() {
    let (mut s, mut r, mut ring) = spsc::<i32>(1);
    let (c, w) = counter();
    let mut op = r.receive();
    assert_eq!(Polled::Pending, op.poll(&mut r, &mut ring, &w));
    assert_eq!(1, registered(&c));
    assert_eq!(Ok(()), s.send(42).now(&mut s, &mut ring));
    assert_eq!(1, wakes(&c));
    assert_eq!(0, registered(&c));
    assert_eq!(Polled::Ready(Ok(42)), op.poll(&mut r, &mut ring, &w));
}

#[test]
fn scenario_third_send_waits_for_space() {
    let (mut s, mut r, mut ring) = spsc::<i32>(2);
    let (c, w) = counter();
    let (_rc, rw) = counter();
    assert_eq!(Polled::Ready(Ok(())), s.send(1).poll(&mut s, &mut ring, &w));
    assert_eq!(Polled::Ready(Ok(())), s.send(2).poll(&mut s, &mut ring, &w));
    let mut third = s.send(3);
    assert_eq!(Polled::Pending, third.poll(&mut s, &mut ring, &w));
    assert_eq!(Polled::Ready(Ok(1)), r.receive().poll(&mut r, &mut ring, &rw));
    assert_eq!(1, wakes(&c));
    assert_eq!(Polled::Ready(Ok(())), third.poll(&mut s, &mut ring, &w));
    assert_eq!(Polled::Ready(Ok(2)), r.receive().poll(&mut r, &mut ring, &rw));
    assert_eq!(Polled::Ready(Ok(3)), r.receive().poll(&mut r, &mut ring, &rw));
}

#[test]
fn scenario_waiting_send_sees_close_and_teardown_drops_once() {
    let (mut s, mut r, mut ring) = spsc::<Counted>(1);
    let (c, w) = counter();
    let (seven, seven_drops) = counted(7);
    let (eight, eight_drops) = counted(8);
    assert!(s.send(seven).now(&mut s, &mut ring).is_ok());
    let mut second = s.send(eight);
    assert_eq!(Polled::Pending, second.poll(&mut s, &mut ring, &w).map_pending());
    r.close(&mut ring);
    assert_eq!(1, wakes(&c));
    match second.poll(&mut s, &mut ring, &w) {
        Polled::Ready(Err(e)) => {
            assert_eq!(SendErrorKind::Closed, e.kind);
            assert_eq!(8, e.value.id);
        }
        _ => panic!("the waiting send must resolve as closed"),
    }
    assert_eq!(1, eight_drops.get());
    assert_eq!(0, seven_drops.get());
    s.close(&mut ring);
    assert_eq!(1, seven_drops.get());
    drop(ring);
    assert_eq!(1, seven_drops.get());
}

trait MapPending {
    fn map_pending(self) -> Polled<()>;
}

impl<R> MapPending for Polled<R> {
    fn map_pending(self) -> Polled<()> {
        match self {
            Polled::Pending => Polled::Pending,
            Polled::Ready(_) => Polled::Ready(()),
        }
    }
}

#[test]
fn round_trip_delivers_the_value_sent() {
    let (mut s, mut r, mut ring) = spsc::<String>(3);
    assert_eq!(Ok(()), s.send("hello".to_string()).now(&mut s, &mut ring));
    assert_eq!(Ok(Some("hello".to_string())), r.receive().now(&mut r, &mut ring));
}

#[test]
fn closing_twice_is_closing_once() {
    let (mut s, mut r, mut ring) = spsc::<i32>(2);
    assert_eq!(Ok(()), s.send(5).now(&mut s, &mut ring));
    s.close(&mut ring);
    s.close(&mut ring);
    assert_eq!(Ok(Some(5)), r.receive().now(&mut r, &mut ring));
    assert_eq!(Err(Closed), r.receive().now(&mut r, &mut ring));
    r.close(&mut ring);
    r.close(&mut ring);
    assert_eq!(closed(6), s.send(6).now(&mut s, &mut ring));
}

#[test]
fn full_hands_back_the_same_value() {
    let (mut s, _r, mut ring) = spsc::<Vec<u8>>(1);
    assert_eq!(Ok(()), s.send(vec![1]).now(&mut s, &mut ring));
    let err = s.send(vec![9, 8, 7]).now(&mut s, &mut ring).unwrap_err();
    assert_eq!(SendErrorKind::Full, err.kind);
    assert_eq!(vec![9, 8, 7], err.value);
}

#[test]
fn capacity_one_holds_one_message() {
    let (mut s, _r, mut ring) = spsc::<i32>(1);
    let (_c, w) = counter();
    assert_eq!(Ok(()), s.send(1).now(&mut s, &mut ring));
    assert_eq!(full(2), s.send(2).now(&mut s, &mut ring));
    assert_eq!(Polled::Pending, s.send(2).poll(&mut s, &mut ring, &w));
}

#[test]
fn cursors_wrap_and_order_is_kept() {
    let (mut s, mut r, mut ring) = spsc::<u32>(3);
    for i in 0..7u32 {
        assert_eq!(Ok(()), s.send(i).now(&mut s, &mut ring));
        assert_eq!(Ok(Some(i)), r.receive().now(&mut r, &mut ring));
    }
    for i in 0..3u32 {
        assert_eq!(Ok(()), s.send(100 + i).now(&mut s, &mut ring));
    }
    assert_eq!(full(200), s.send(200).now(&mut s, &mut ring));
    for i in 0..3u32 {
        assert_eq!(Ok(Some(100 + i)), r.receive().now(&mut r, &mut ring));
    }
    assert_eq!(Ok(None), r.receive().now(&mut r, &mut ring));
}

#[test]
fn receive_never_reports_empty_after_producer_closes() {
    let (mut s, mut r, mut ring) = spsc::<i32>(4);
    for i in 0..3 {
        assert_eq!(Ok(()), s.send(i).now(&mut s, &mut ring));
    }
    s.close(&mut ring);
    for i in 0..3 {
        assert_eq!(Ok(Some(i)), r.receive().now(&mut r, &mut ring));
    }
    assert_eq!(Err(Closed), r.receive().now(&mut r, &mut ring));
}

#[test]
fn lost_race_takes_the_value_back() {
    // The producer's snapshot still shows the consumer open and not full,
    // so the send commits before it sees the close.
    let (mut s, mut r, mut ring) = spsc::<Counted>(2);
    let (a, a_drops) = counted(1);
    let (b, b_drops) = counted(2);
    assert!(s.send(a).now(&mut s, &mut ring).is_ok());
    r.close(&mut ring);
    let err = s.send(b).now(&mut s, &mut ring).unwrap_err();
    assert_eq!(SendErrorKind::Closed, err.kind);
    assert_eq!(2, err.value.id);
    drop(err);
    assert_eq!(1, b_drops.get());
    assert!(s.send(counted(3).0).now(&mut s, &mut ring).is_err());
    s.close(&mut ring);
    assert_eq!(1, a_drops.get());
    assert_eq!(1, b_drops.get());
}

#[test]
fn teardown_by_consumer_drops_in_flight() {
    let (mut s, mut r, mut ring) = spsc::<Counted>(3);
    let (a, a_drops) = counted(1);
    let (b, b_drops) = counted(2);
    assert!(s.send(a).now(&mut s, &mut ring).is_ok());
    assert!(s.send(b).now(&mut s, &mut ring).is_ok());
    s.close(&mut ring);
    match r.receive().now(&mut r, &mut ring) {
        Ok(Some(v)) => assert_eq!(1, v.id),
        _ => panic!("the first message must be delivered"),
    }
    assert_eq!(1, a_drops.get());
    r.close(&mut ring);
    assert_eq!(1, b_drops.get());
    drop(ring);
    assert_eq!(1, b_drops.get());
}

#[test]
fn close_wakes_the_waiting_receive() {
    let (mut s, mut r, mut ring) = spsc::<i32>(1);
    let (c, w) = counter();
    let mut op = r.receive();
    assert_eq!(Polled::Pending, op.poll(&mut r, &mut ring, &w));
    s.close(&mut ring);
    assert_eq!(1, wakes(&c));
    assert_eq!(Polled::Ready(Err(Closed)), op.poll(&mut r, &mut ring, &w));
}

#[test]
fn cancel_clears_the_register() {
    let (mut s, mut r, mut ring) = spsc::<i32>(1);
    let (c, w) = counter();
    let op = {
        let mut op = r.receive();
        assert_eq!(Polled::Pending, op.poll(&mut r, &mut ring, &w));
        op
    };
    assert_eq!(1, registered(&c));
    op.cancel(&mut ring);
    assert_eq!(0, registered(&c));
    assert_eq!(Ok(()), s.send(1).now(&mut s, &mut ring));
    assert_eq!(0, wakes(&c));
    let (d, dw) = counter();
    assert_eq!(full(2), s.send(2).now(&mut s, &mut ring));
    let mut send = s.send(3);
    assert_eq!(Polled::Pending, send.poll(&mut s, &mut ring, &dw));
    assert_eq!(1, registered(&d));
    send.cancel(&mut ring);
    assert_eq!(0, registered(&d));
}

#[test]
fn sender_accessors_read_the_snapshot() {
    let (mut s, mut r, mut ring) = spsc::<i32>(3);
    assert_eq!(3, s.capacity());
    assert_eq!(3, s.space());
    assert!(s.is_empty());
    assert!(!s.is_full());
    assert_eq!(Ok(()), s.send(1).now(&mut s, &mut ring));
    assert_eq!(2, s.space());
    assert!(!s.is_empty());
    assert_eq!(Ok(()), s.send(2).now(&mut s, &mut ring));
    assert_eq!(Ok(()), s.send(3).now(&mut s, &mut ring));
    assert!(s.is_full());
    assert_eq!(0, s.space());
    assert_eq!(Ok(Some(1)), r.receive().now(&mut r, &mut ring));
    // The snapshot only learns of the receive on the next send.
    assert_eq!(0, s.space());
    assert_eq!(Ok(()), s.send(4).now(&mut s, &mut ring));
    assert!(s.is_full());
}

#[test]
fn half_state_fields() {
    let h = HalfState(0x8000_0005);
    assert_eq!(5, h.position());
    assert!(h.is_closed());
    assert!(!HalfState(5).is_closed());
    assert_eq!(HalfState(0x8000_0005), HalfState(5).close());
    assert_eq!(HalfState(0), HalfState(5).advance(3, 1));
    assert_eq!(HalfState(0x8000_0001), HalfState(0x8000_0005).advance(3, 2));
    assert_eq!(HalfState(4), HalfState(1).advance(3, 3));
}

#[test]
fn state_halves_and_lengths() {
    let s = State(0x0000_0002_8000_0005);
    assert_eq!(HalfState(0x8000_0005), s.front());
    assert_eq!(HalfState(2), s.back());
    assert!(s.is_closed());
    assert!(!State(0x0000_0002_0000_0005).is_closed());
    assert!(State(0x8000_0000_0000_0000).is_closed());
    assert_eq!(State(0x0000_0002_0000_0001), s.with_front(HalfState(1)));
    assert_eq!(State(0x0000_0004_8000_0005), s.with_back(HalfState(4)));
    assert_eq!(3, State(0x0000_0002_0000_0005).len(3));
    assert!(State(0x0000_0002_0000_0005).is_full(3));
    assert_eq!(0, State(0x0000_0002_0000_0005).space(3));
    assert_eq!(2, State(0x0000_0004_0000_0000).len(3));
    assert_eq!(1, State(0x0000_0004_0000_0000).space(3));
    assert!(State(0x0000_0003_0000_0003).is_empty());
    assert_eq!(0, State(0x0000_0003_0000_0003).len(3));
}

#[test]
fn max_capacity_is_two_bits_short_of_a_half() {
    assert_eq!((1u32 << 30) - 1, MAX_CAPACITY);
}

#[test]
fn slice_cleanup_drops_the_window() {
    let mut cells: Slice<Counted> = Slice::new(3);
    assert_eq!(3, cells.capacity());
    let (a, a_drops) = counted(1);
    let (b, b_drops) = counted(2);
    cells.write(5, a);
    cells.write(6, b);
    let got = cells.read(5);
    assert_eq!(1, got.id);
    drop(got);
    assert_eq!(1, a_drops.get());
    cells.write(5, counted(3).0);
    cells.cleanup(State(0x0000_0005_0000_0001));
    assert_eq!(1, b_drops.get());
}
