use async_spsc::{closed, full, spsc, Closed, Polled};
use std::sync::atomic::{AtomicUsize, Ordering};
use std::sync::Arc;
use std::task::{Wake, Waker};

// A task handle that counts how often it is woken; the number of clones
// alive (beyond the test's own two references) is what a register holds.
struct Flag {
    woken: AtomicUsize,
}

impl Wake for Flag {
    fn wake(self: Arc<Self>) {
        self.woken.fetch_add(1, Ordering::SeqCst);
    }
    fn wake_by_ref(self: &Arc<Self>) {
        self.woken.fetch_add(1, Ordering::SeqCst);
    }
}

fn flag() -> (Arc<Flag>, Waker) {
    let f = Arc::new(Flag { woken: AtomicUsize::new(0) });
    let w = Waker::from(f.clone());
    (f, w)
}

fn held(f: &Arc<Flag>) -> usize {
    Arc::strong_count(f) - 2
}

fn woken(f: &Arc<Flag>) -> usize {
    f.woken.load(Ordering::SeqCst)
}

#[test]
fn create_destroy() {
    spsc::<i32>(1);
}

#[test]
fn ping_pong_sync_sync() {
    let (mut s, mut r, mut ring) = spsc::<i32>(1);
    for _ in 0..10 {
        assert_eq!(Ok(None), r.receive().now(&mut r, &mut ring));
        assert_eq!(Ok(()), s.send(42).now(&mut s, &mut ring));
        assert_eq!(full(420), s.send(420).now(&mut s, &mut ring));
        assert_eq!(Ok(Some(42)), r.receive().now(&mut r, &mut ring));
        assert_eq!(Ok(None), r.receive().now(&mut r, &mut ring));
        assert_eq!(Ok(()), s.send(420).now(&mut s, &mut ring));
        assert_eq!(Ok(Some(420)), r.receive().now(&mut r, &mut ring));
    }
}

#[test]
fn ping_pong_async_async() {
    let (mut s, mut r, mut ring) = spsc::<i32>(1);
    let (rf, rw) = flag();
    let (sf, sw) = flag();
    for i in 0..10 {
        let mut r2 = r.receive();
        assert_eq!(Polled::Pending, r2.poll(&mut r, &mut ring, &rw));
        assert_eq!((1, i), (held(&rf), woken(&rf)));
        assert_eq!(Polled::Pending, r2.poll(&mut r, &mut ring, &rw));
        assert_eq!((1, i), (held(&rf), woken(&rf)));
        let mut s2 = s.send(42);
        assert_eq!(Polled::Ready(Ok(())), s2.poll(&mut s, &mut ring, &sw));
        assert_eq!((0, i + 1), (held(&rf), woken(&rf)));
        let mut s2 = s.send(420);
        assert_eq!(Polled::Pending, s2.poll(&mut s, &mut ring, &sw));
        assert_eq!((1, i), (held(&sf), woken(&sf)));
        assert_eq!(Polled::Ready(Ok(42)), r2.poll(&mut r, &mut ring, &rw));
        assert_eq!((0, i + 1), (held(&sf), woken(&sf)));
        assert_eq!(Polled::Ready(Ok(())), s2.poll(&mut s, &mut ring, &sw));
        assert_eq!((0, i + 1), (held(&sf), woken(&sf)));
        let mut r2 = r.receive();
        assert_eq!(Polled::Ready(Ok(420)), r2.poll(&mut r, &mut ring, &rw));
        assert_eq!(0, held(&rf));
    }
}

#[test]
fn ping_pong_sync_async() {
    let (mut s, mut r, mut ring) = spsc::<i32>(1);
    let (rf, rw) = flag();
    for i in 0..10 {
        let mut r2 = r.receive();
        assert_eq!(Polled::Pending, r2.poll(&mut r, &mut ring, &rw));
        assert_eq!((1, i), (held(&rf), woken(&rf)));
        assert_eq!(Polled::Pending, r2.poll(&mut r, &mut ring, &rw));
        assert_eq!((1, i), (held(&rf), woken(&rf)));
        assert_eq!(Ok(()), s.send(42).now(&mut s, &mut ring));
        assert_eq!((0, i + 1), (held(&rf), woken(&rf)));
        assert_eq!(full(420), s.send(420).now(&mut s, &mut ring));
        assert_eq!(Polled::Ready(Ok(42)), r2.poll(&mut r, &mut ring, &rw));
        assert_eq!(Ok(()), s.send(420).now(&mut s, &mut ring));
        let mut r2 = r.receive();
        assert_eq!(Polled::Ready(Ok(420)), r2.poll(&mut r, &mut ring, &rw));
        assert_eq!(0, held(&rf));
    }
}

#[test]
fn ping_pong_async_sync() {
    let (mut s, mut r, mut ring) = spsc::<i32>(1);
    let (sf, sw) = flag();
    for i in 0..10 {
        assert_eq!(Ok(None), r.receive().now(&mut r, &mut ring));
        let mut s2 = s.send(42);
        assert_eq!(Polled::Ready(Ok(())), s2.poll(&mut s, &mut ring, &sw));
        assert_eq!((0, i), (held(&sf), woken(&sf)));
        let mut s2 = s.send(420);
        assert_eq!(Polled::Pending, s2.poll(&mut s, &mut ring, &sw));
        assert_eq!((1, i), (held(&sf), woken(&sf)));
        assert_eq!(Ok(Some(42)), r.receive().now(&mut r, &mut ring));
        assert_eq!((0, i + 1), (held(&sf), woken(&sf)));
        assert_eq!(Polled::Ready(Ok(())), s2.poll(&mut s, &mut ring, &sw));
        assert_eq!((0, i + 1), (held(&sf), woken(&sf)));
        assert_eq!(Ok(Some(420)), r.receive().now(&mut r, &mut ring));
    }
}

#[test]
fn drop_send_now() {
    let (mut s, mut r, mut ring) = spsc::<i32>(1);
    r.close(&mut ring);
    assert_eq!(closed(42), s.send(42).now(&mut s, &mut ring));
}

#[test]
fn drop_send() {
    let (mut s, mut r, mut ring) = spsc::<i32>(1);
    let (_sf, sw) = flag();
    r.close(&mut ring);
    let mut s2 = s.send(42);
    assert_eq!(Polled::Ready(closed(42)), s2.poll(&mut s, &mut ring, &sw));
}

#[test]
fn send_drop() {
    let (mut s, mut r, mut ring) = spsc::<i32>(1);
    let (sf, sw) = flag();
    let mut s2 = s.send(42);
    assert_eq!(Polled::Ready(Ok(())), s2.poll(&mut s, &mut ring, &sw));
    assert_eq!((0, 0), (held(&sf), woken(&sf)));
    let mut s2 = s.send(42);
    assert_eq!(Polled::Pending, s2.poll(&mut s, &mut ring, &sw));
    assert_eq!((1, 0), (held(&sf), woken(&sf)));
    r.close(&mut ring);
    assert_eq!((0, 1), (held(&sf), woken(&sf)));
    assert_eq!(Polled::Ready(closed(42)), s2.poll(&mut s, &mut ring, &sw));
    assert_eq!((0, 1), (held(&sf), woken(&sf)));
}

#[test]
fn drop_receive_now() {
    let (mut s, mut r, mut ring) = spsc::<i32>(1);
    s.close(&mut ring);
    assert_eq!(Err(Closed), r.receive().now(&mut r, &mut ring));
}

#[test]
fn drop_receive() {
    let (mut s, mut r, mut ring) = spsc::<i32>(1);
    let (_rf, rw) = flag();
    s.close(&mut ring);
    let mut r2 = r.receive();
    assert_eq!(Polled::Ready(Err(Closed)), r2.poll(&mut r, &mut ring, &rw));
}

#[test]
fn send_drop_receive_now() {
    let (mut s, mut r, mut ring) = spsc::<i32>(1);
    assert_eq!(Ok(()), s.send(42).now(&mut s, &mut ring));
    s.close(&mut ring);
    assert_eq!(Ok(Some(42)), r.receive().now(&mut r, &mut ring));
}

#[test]
fn send_drop_receive() {
    let (mut s, mut r, mut ring) = spsc::<i32>(1);
    let (_rf, rw) = flag();
    assert_eq!(Ok(()), s.send(42).now(&mut s, &mut ring));
    s.close(&mut ring);
    let mut r2 = r.receive();
    assert_eq!(Polled::Ready(Ok(42)), r2.poll(&mut r, &mut ring, &rw));
    let mut r2 = r.receive();
    assert_eq!(Polled::Ready(Err(Closed)), r2.poll(&mut r, &mut ring, &rw));
}
