//! The control block that the two handles share, and the protocol steps
//! that each side runs against it.
//!
//! Each step is one indivisible move of its side: the loads and
//! read-modify-writes of the state word happen inside it, and the block
//! is handed to the step by exclusive reference.
use vstd::prelude::*;
use vstd::arithmetic::div_mod::{
    lemma_fundamental_div_mod, lemma_fundamental_div_mod_converse, lemma_mod_mod,
    lemma_add_mod_noop, lemma_sub_mod_noop_right, lemma_mod_bound,
};
use std::task::Waker;
use crate::state::{Half, HalfState, State, MAX_CAPACITY, S_CLOSE, R_CLOSE, lemma_mod_window};
use crate::slice::{Slice, window, in_window, lemma_offset};
use crate::wake::WakeSlot;
use crate::model::{ChannelView, SendVerdict, ReceiveVerdict};
use crate::{SendError, SendErrorKind, Closed};

verus! {

/// The atomic part of the control block: the state word and one wakeup
/// register per side.
pub struct Atomics {
    state: u64,
    sender: WakeSlot,
    receiver: WakeSlot,
}

impl Atomics {
    pub closed spec fn word(&self) -> State {
        State(self.state)
    }

    pub closed spec fn sender_slot(&self) -> WakeSlot {
        self.sender
    }

    pub closed spec fn receiver_slot(&self) -> WakeSlot {
        self.receiver
    }

    /// Both cursors at zero, nobody closed, empty registers.
    pub fn new() -> (r: Atomics)
        ensures
            r.word() == State(0),
            !r.sender_slot().armed(),
            !r.receiver_slot().armed(),
            r.sender_slot().woken() == 0,
            r.receiver_slot().woken() == 0,
    {
        Atomics { state: 0, sender: WakeSlot::new(), receiver: WakeSlot::new() }
    }

    /// A fresh snapshot of the word.
    pub fn load(&self) -> (r: State)
        ensures
            r == self.word(),
    {
        State(self.state)
    }

    /// Flips the bits of `mask` in the word and returns the word as it was
    /// before.
    pub fn fetch_xor(&mut self, mask: u64) -> (r: State)
        ensures
            r == old(self).word(),
            final(self).word() == State(old(self).word().0 ^ mask),
            final(self).sender_slot() == old(self).sender_slot(),
            final(self).receiver_slot() == old(self).receiver_slot(),
    {
        let prev = self.state;
        self.state = prev ^ mask;
        State(prev)
    }

    /// Empties both registers without resuming anyone.
    pub fn drop_wakers(&mut self)
        ensures
            final(self).word() == old(self).word(),
            !final(self).sender_slot().armed(),
            !final(self).receiver_slot().armed(),
            final(self).sender_slot().woken() == old(self).sender_slot().woken(),
            final(self).receiver_slot().woken() == old(self).receiver_slot().woken(),
    {
        self.sender.clear();
        self.receiver.clear();
    }
}

/// Committing a move of the front cursor from `f` to `g` flips only the
/// front half.
pub proof fn lemma_commit_front(w: u64, f: u64, g: u64)
    requires
        w % 0x1_0000_0000 == f,
        g < 0x1_0000_0000,
    ensures
        (w ^ (f ^ g)) % 0x1_0000_0000 == g,
        (w ^ (f ^ g)) / 0x1_0000_0000 == w / 0x1_0000_0000,
{
    assert((w ^ (f ^ g)) % 0x1_0000_0000 == g && (w ^ (f ^ g)) / 0x1_0000_0000 == w
        / 0x1_0000_0000) by (bit_vector)
        requires
            w % 0x1_0000_0000 == f,
            g < 0x1_0000_0000,
    ;
}

/// Committing a move of the back cursor from `b` to `g` flips only the
/// back half.
pub proof fn lemma_commit_back(w: u64, b: u64, g: u64)
    requires
        w / 0x1_0000_0000 == b,
        g < 0x1_0000_0000,
    ensures
        (w ^ ((b ^ g) << 32)) % 0x1_0000_0000 == w % 0x1_0000_0000,
        (w ^ ((b ^ g) << 32)) / 0x1_0000_0000 == g,
{
    assert((w ^ ((b ^ g) << 32)) % 0x1_0000_0000 == w % 0x1_0000_0000 && (w ^ ((b ^ g) << 32))
        / 0x1_0000_0000 == g) by (bit_vector)
        requires
            w / 0x1_0000_0000 == b,
            g < 0x1_0000_0000,
    ;
}

/// Setting a close bit changes no position and no other bit.
pub proof fn lemma_close_bits(w: u64)
    ensures
        State(w ^ S_CLOSE).front_half().pos() == State(w).front_half().pos(),
        State(w ^ S_CLOSE).front_half().closed() == !State(w).front_half().closed(),
        State(w ^ S_CLOSE).back_half() == State(w).back_half(),
        State(w ^ R_CLOSE).back_half().pos() == State(w).back_half().pos(),
        State(w ^ R_CLOSE).back_half().closed() == !State(w).back_half().closed(),
        State(w ^ R_CLOSE).front_half() == State(w).front_half(),
{
    let x = w ^ 0x8000_0000u64;
    let y = w ^ 0x8000_0000_0000_0000u64;
    assert(x % 0x1_0000_0000 % 0x8000_0000 == w % 0x1_0000_0000 % 0x8000_0000) by (bit_vector)
        requires x == w ^ 0x8000_0000u64;
    assert((x % 0x1_0000_0000 >= 0x8000_0000) == !(w % 0x1_0000_0000 >= 0x8000_0000))
        by (bit_vector)
        requires x == w ^ 0x8000_0000u64;
    assert(x / 0x1_0000_0000 == w / 0x1_0000_0000) by (bit_vector)
        requires x == w ^ 0x8000_0000u64;
    assert(y / 0x1_0000_0000 % 0x8000_0000 == w / 0x1_0000_0000 % 0x8000_0000) by (bit_vector)
        requires y == w ^ 0x8000_0000_0000_0000u64;
    assert((y / 0x1_0000_0000 >= 0x8000_0000) == !(w / 0x1_0000_0000 >= 0x8000_0000))
        by (bit_vector)
        requires y == w ^ 0x8000_0000_0000_0000u64;
    assert(y % 0x1_0000_0000 == w % 0x1_0000_0000) by (bit_vector)
        requires y == w ^ 0x8000_0000_0000_0000u64;
}

/// A cursor without its close bit is its position.
pub proof fn lemma_open_half(h: HalfState)
    requires
        !h.closed(),
    ensures
        h.0 == h.pos(),
        h == HalfState(h.pos() as u32),
{
}

/// The cell of a position `n` past `b` is `n` cells past `b`'s cell.
pub proof fn lemma_cell_of(f: int, b: int, c: int)
    requires
        0 < c,
    ensures
        f % c == (b + (f - b) % (2 * c)) % c,
{
    lemma_mod_mod(f - b, c, 2);
    assert(c * 2 == 2 * c);
    lemma_add_mod_noop(b, (f - b) % (2 * c), c);
    lemma_add_mod_noop(b, f - b, c);
}

/// Moving either cursor by one changes the distance between them by one.
pub proof fn lemma_step(f: int, b: int, c: int)
    requires
        0 < c,
    ensures
        (f - b) % (2 * c) >= 1 ==> (f - (b + 1) % (2 * c)) % (2 * c) == (f - b) % (2 * c) - 1,
        (f - b) % (2 * c) + 1 < 2 * c ==> ((f + 1) % (2 * c) - b) % (2 * c) == (f - b) % (2 * c)
            + 1,
{
    let m = 2 * c;
    lemma_fundamental_div_mod(f - b, m);
    let q = (f - b) / m;
    let n = (f - b) % m;
    lemma_mod_bound(f - b, m);
    lemma_sub_mod_noop_right(f, b + 1, m);
    if n >= 1 {
        assert(f - (b + 1) == q * m + (n - 1)) by (nonlinear_arith)
            requires
                f - b == m * q + n,
        ;
        lemma_fundamental_div_mod_converse(f - (b + 1), m, q, n - 1);
    }
    lemma_sub_mod_noop_right(0 - b, 0 - (f + 1), m);
    lemma_fundamental_div_mod(f + 1, m);
    let p = (f + 1) / m;
    if n + 1 < m {
        assert((f + 1) % m - b == q * m + (n + 1) - p * m) by (nonlinear_arith)
            requires
                f - b == m * q + n,
                f + 1 == m * p + (f + 1) % m,
        ;
        assert((f + 1) % m - b == (q - p) * m + (n + 1)) by (nonlinear_arith)
            requires
                (f + 1) % m - b == q * m + (n + 1) - p * m,
        ;
        lemma_fundamental_div_mod_converse((f + 1) % m - b, m, q - p, n + 1);
    }
}

/// The cell `k` past the advanced back cursor is `k + 1` past the old one.
pub proof fn lemma_shift_cell(b: int, k: int, c: int)
    requires
        0 < c,
    ensures
        ((b + 1) % (2 * c) + k) % c == (b + 1 + k) % c,
{
    lemma_mod_mod(b + 1, c, 2);
    assert(c * 2 == 2 * c);
    lemma_add_mod_noop((b + 1) % (2 * c), k, c);
    lemma_add_mod_noop(b + 1, k, c);
}

/// The control block of a channel.
///
/// Besides the word, the registers and the cells it keeps, as ghost state,
/// each open handle's cached snapshot of the word, the producer's live
/// front (the cursor one past the newest message still in flight) and the
/// histories of sent, delivered and discarded messages.
pub struct Ring<T> {
    atomics: Atomics,
    buffer: Slice<T>,
    cap: Half,
    producer: Ghost<Option<State>>,
    consumer: Ghost<Option<State>>,
    live_front: Ghost<nat>,
    sent: Ghost<Seq<T>>,
    delivered: Ghost<Seq<T>>,
    discarded: Ghost<Seq<T>>,
}

impl<T> Ring<T> {
    pub closed spec fn word(&self) -> State {
        self.atomics.word()
    }

    pub closed spec fn spec_capacity(&self) -> Half {
        self.cap
    }

    /// The snapshot cached by the producer handle, while it is open.
    pub closed spec fn producer_cache(&self) -> Option<State> {
        self.producer@
    }

    /// The snapshot cached by the consumer handle, while it is open.
    pub closed spec fn consumer_cache(&self) -> Option<State> {
        self.consumer@
    }

    pub closed spec fn released(&self) -> bool {
        self.producer@ is None && self.consumer@ is None
    }

    /// The number of messages in flight.
    pub closed spec fn live_len(&self) -> nat {
        ((self.live_front@ - self.word().back_half().pos()) % (2 * self.cap as int)) as nat
    }

    /// The messages in flight, oldest first.
    pub closed spec fn contents(&self) -> Seq<T> {
        window(self.buffer@, self.word().back_half().pos() as int, self.live_len() as int)
    }

    /// What the producer's snapshot may be: its front is the live front
    /// and open; its back is a back cursor the consumer has had, at or
    /// behind the present one, and the present one once it shows the
    /// consumer closed.
    pub closed spec fn producer_agrees(&self, s: State) -> bool {
        let c = self.cap as nat;
        let w = self.word();
        &&& s.front_half() == HalfState(self.live_front@ as u32)
        &&& s.in_range(c)
        &&& self.live_len() <= s.length(c) <= c
        &&& s.back_half().closed() ==> s.back_half() == w.back_half()
        &&& !s.back_half().closed() ==> self.live_front@ == w.front_half().pos()
    }

    /// What the consumer's snapshot may be: its back is the present back
    /// cursor; its front is a front cursor the producer has had, at or
    /// behind the live front, and the present one once it shows the
    /// producer closed.
    pub closed spec fn consumer_agrees(&self, r: State) -> bool {
        let c = self.cap as nat;
        let w = self.word();
        &&& r.back_half() == w.back_half()
        &&& r.in_range(c)
        &&& r.length(c) <= self.live_len()
        &&& r.front_half().closed() ==> r.front_half() == w.front_half()
    }

    /// The protocol's invariant.
    pub closed spec fn wf(&self) -> bool {
        let c = self.cap as int;
        let w = self.word();
        let lf = self.live_front@ as int;
        let b = w.back_half().pos() as int;
        &&& 0 < self.cap <= MAX_CAPACITY
        &&& self.buffer@.len() == c
        &&& w.valid(self.cap as nat)
        &&& lf < 2 * c
        &&& self.live_len() <= w.length(self.cap as nat)
        &&& lf == w.front_half().pos() || (w.back_half().closed() && (lf + 1) % (2 * c)
            == w.front_half().pos() && w.length(self.cap as nat) >= 1)
        &&& w.front_half().closed() ==> self.producer@ is None
        &&& w.back_half().closed() ==> self.consumer@ is None
        &&& self.producer@ is None && !self.released() ==> w.front_half().closed()
        &&& self.consumer@ is None && !self.released() ==> w.back_half().closed()
        &&& self.producer@ is Some ==> self.producer_agrees(self.producer@->0)
        &&& self.consumer@ is Some ==> self.consumer_agrees(self.consumer@->0)
        &&& if self.released() {
            &&& forall|i: int| 0 <= i < c ==> (#[trigger] self.buffer@[i]) is None
            &&& self.sent@ == self.delivered@ + self.discarded@
            &&& !self.atomics.sender_slot().armed()
            &&& !self.atomics.receiver_slot().armed()
        } else {
            &&& forall|i: int|
                0 <= i < c ==> ((#[trigger] self.buffer@[i]) is Some <==> in_window(
                    i,
                    b,
                    self.live_len() as int,
                    c,
                ))
            &&& self.sent@ == self.delivered@ + self.contents()
        }
    }
}

impl<T> View for Ring<T> {
    type V = ChannelView<T>;

    closed spec fn view(&self) -> ChannelView<T> {
        ChannelView {
            capacity: self.cap as nat,
            queue: if self.released() {
                Seq::empty()
            } else {
                self.contents()
            },
            front: self.live_front@,
            back: self.word().back_half().pos(),
            producer_open: self.producer@ is Some,
            consumer_open: self.consumer@ is Some,
            sent: self.sent@,
            delivered: self.delivered@,
            discarded: self.discarded@,
            producer_armed: self.atomics.sender_slot().armed(),
            consumer_armed: self.atomics.receiver_slot().armed(),
            producer_woken: self.atomics.sender_slot().woken(),
            consumer_woken: self.atomics.receiver_slot().woken(),
        }
    }
}

impl<T> Ring<T> {
    /// A channel of `capacity` empty cells, both sides open with a zero
    /// snapshot.
    pub fn new(capacity: Half) -> (r: Ring<T>)
        requires
            0 < capacity <= MAX_CAPACITY,
        ensures
            r.wf(),
            r.producer_cache() == Some(State(0)),
            r.consumer_cache() == Some(State(0)),
            r@ == ChannelView::<T>::fresh(capacity as nat),
    {
        let r = Ring {
            atomics: Atomics::new(),
            buffer: Slice::new(capacity),
            cap: capacity,
            producer: Ghost(Some(State(0))),
            consumer: Ghost(Some(State(0))),
            live_front: Ghost(0),
            sent: Ghost(Seq::empty()),
            delivered: Ghost(Seq::empty()),
            discarded: Ghost(Seq::empty()),
        };
        assert(r.word().front_half() == HalfState(0) && r.word().back_half() == HalfState(0));
        proof {
            lemma_mod_window(0, 2 * capacity as int);
        }
        assert(r.live_len() == 0);
        assert(r.contents() =~= Seq::<T>::empty());
        assert(r.sent@ =~= r.delivered@ + r.contents());
        r
    }

    /// The facts about positions and cells that every step starts from.
    proof fn lemma_positions(&self)
        requires
            self.wf(),
        ensures
            self.live_len() <= self.cap,
            !self.released() ==> self.contents().len() == self.live_len(),
            self.consumer@ is Some ==> self.live_front@ == self.word().front_half().pos(),
            self.consumer@ is Some ==> self.live_len() == self.word().length(self.cap as nat),
            self.live_front@ as int % (self.cap as int) == (self.word().back_half().pos()
                + self.live_len()) as int % (self.cap as int),
    {
        lemma_cell_of(
            self.live_front@ as int,
            self.word().back_half().pos() as int,
            self.cap as int,
        );
    }

    /// One attempt of the producer to send `value`, against its snapshot
    /// `cache` of the word.
    ///
    /// The snapshot is trusted only to go ahead: a snapshot that shows the
    /// channel full is refreshed before the send is refused. The value is
    /// written, then the front cursor is committed with one exclusive-or
    /// that also reveals whether the consumer has closed; if it has, the
    /// value is taken back and the snapshot's front rewound, so that the
    /// cell counts as empty for the teardown.
    pub fn send_step(&mut self, cache: &mut State, value: T) -> (r: Result<(), SendError<T>>)
        requires
            old(self).wf(),
            old(self).producer_cache() == Some(*old(cache)),
        ensures
            final(self).wf(),
            final(self).producer_cache() == Some(*final(cache)),
            final(self).consumer_cache() == old(self).consumer_cache(),
            final(self).spec_capacity() == old(self).spec_capacity(),
            final(cache).valid(old(self).spec_capacity() as nat),
            match r {
                Ok(()) => {
                    &&& old(self)@.send_verdict() == SendVerdict::Accept
                    &&& final(self)@ == old(self)@.after_send(value)
                },
                Err(e) => {
                    &&& e.value == value
                    &&& final(self)@ == old(self)@
                    &&& (e.kind == SendErrorKind::Full) == (old(self)@.send_verdict()
                        == SendVerdict::Full)
                    &&& (e.kind == SendErrorKind::Closed) == (old(self)@.send_verdict()
                        == SendVerdict::Closed)
                },
            },
    {
        proof {
            self.lemma_positions();
        }
        let ghost v = value;
        let ghost n: int = self.live_len() as int;
        let ghost lf: int = self.live_front@ as int;
        let ghost b: int = self.word().back_half().pos() as int;
        let cap = self.cap;
        let mut state = *cache;
        if state.is_closed() {
            return Err(SendError { kind: SendErrorKind::Closed, value });
        }
        if state.is_full(cap) {
            state = self.atomics.load();
            *cache = state;
            self.producer = Ghost(Some(state));
            if state.is_closed() {
                return Err(SendError { kind: SendErrorKind::Closed, value });
            }
            if state.is_full(cap) {
                return Err(SendError { kind: SendErrorKind::Full, value });
            }
        }
        assert(lf == self.word().front_half().pos());
        assert(n < cap);
        assert(state.front_half() == HalfState(lf as u32));
        let s = state.front();
        proof {
            lemma_offset(lf % (cap as int), b, n, cap as int);
        }
        self.buffer.write(s.0, value);
        let next = s.advance(cap, 1);
        let mask = (s.0 as u64) ^ (next.0 as u64);
        let prev = self.atomics.fetch_xor(mask);
        proof {
            lemma_commit_front(prev.0, s.0 as u64, next.0 as u64);
            lemma_open_half(next);
            lemma_step(lf as int, b as int, cap as int);
        }
        let state2 = State(prev.0 ^ mask);
        assert(state2.front_half() == next);
        assert(state2.back_half() == prev.back_half());
        if state2.is_closed() {
            let value = self.buffer.read(s.0);
            let rewound = state2.with_front(s);
            *cache = rewound;
            self.producer = Ghost(Some(rewound));
            assert(self.buffer@ =~= old(self).buffer@);
            return Err(SendError { kind: SendErrorKind::Closed, value });
        }
        *cache = state2;
        self.producer = Ghost(Some(state2));
        self.live_front = Ghost(next.pos());
        self.sent = Ghost(self.sent@.push(v));
        self.atomics.receiver.wake();
        proof {
            assert forall|i: int| 0 <= i < cap implies ((#[trigger] self.buffer@[i]) is Some
                <==> in_window(i, b as int, n + 1, cap as int)) by {
                lemma_offset(i, b as int, n as int, cap as int);
            }
            assert forall|k: int| 0 <= k < n implies #[trigger] ((b + k) % (cap as int)) != lf % (cap as int) by {
                lemma_mod_bound(b + k, cap as int);
                lemma_offset((b + k) % (cap as int), b as int, k, cap as int);
                lemma_offset((b + k) % (cap as int), b as int, n as int, cap as int);
            }
            assert(self.contents() =~= old(self).contents().push(v));
            assert(self.sent@ =~= self.delivered@ + self.contents());
        }
        Ok(())
    }

    /// One attempt of the consumer to receive, against its snapshot `cache`
    /// of the word.
    ///
    /// A snapshot that shows messages is trusted; one that shows none is
    /// refreshed unless it already shows the producer closed. The value is
    /// moved out of its cell before the back cursor is committed.
    pub fn receive_step(&mut self, cache: &mut State) -> (r: Result<Option<T>, Closed>)
        requires
            old(self).wf(),
            old(self).consumer_cache() == Some(*old(cache)),
        ensures
            final(self).wf(),
            final(self).consumer_cache() == Some(*final(cache)),
            final(self).producer_cache() == old(self).producer_cache(),
            final(self).spec_capacity() == old(self).spec_capacity(),
            final(cache).valid(old(self).spec_capacity() as nat),
            match r {
                Ok(Some(v)) => {
                    &&& old(self)@.receive_verdict() == ReceiveVerdict::Deliver
                    &&& v == old(self)@.queue[0]
                    &&& final(self)@ == old(self)@.after_receive()
                },
                Ok(None) => {
                    &&& old(self)@.receive_verdict() == ReceiveVerdict::Empty
                    &&& final(self)@ == old(self)@
                },
                Err(_) => {
                    &&& old(self)@.receive_verdict() == ReceiveVerdict::Closed
                    &&& final(self)@ == old(self)@
                },
            },
    {
        proof {
            self.lemma_positions();
        }
        let ghost n: int = self.live_len() as int;
        let ghost lf: int = self.live_front@ as int;
        let ghost b: int = self.word().back_half().pos() as int;
        let ghost first = self.contents();
        let cap = self.cap;
        proof {
            lemma_mod_window(0, 2 * cap as int);
        }
        let mut state = *cache;
        if state.is_empty() {
            if state.is_closed() {
                return Err(Closed);
            }
            state = self.atomics.load();
            *cache = state;
            self.consumer = Ghost(Some(state));
            if state.is_empty() {
                if state.is_closed() {
                    return Err(Closed);
                }
                return Ok(None);
            }
        }
        proof {
            lemma_mod_window(state.front_half().pos() - b, 2 * cap as int);
        }
        assert(n > 0);
        assert(state.back_half() == HalfState(b as u32));
        let back = state.back();
        proof {
            lemma_mod_bound(b, cap as int);
            lemma_offset(b % (cap as int), b, 0, cap as int);
        }
        let value = self.buffer.read(back.0);
        let next = back.advance(cap, 1);
        let mask = ((back.0 as u64) ^ (next.0 as u64)) << 32;
        let prev = self.atomics.fetch_xor(mask);
        proof {
            lemma_commit_back(prev.0, back.0 as u64, next.0 as u64);
            lemma_open_half(next);
            lemma_step(lf, b, cap as int);
        }
        let state2 = State(prev.0 ^ mask);
        assert(state2.back_half() == next);
        assert(state2.front_half() == prev.front_half());
        *cache = state2;
        self.consumer = Ghost(Some(state2));
        self.delivered = Ghost(self.delivered@.push(value));
        if !state2.is_closed() {
            self.atomics.sender.wake();
        }
        proof {
            let b2 = next.pos() as int;
            assert forall|i: int| 0 <= i < cap implies ((#[trigger] self.buffer@[i]) is Some
                <==> in_window(i, b2, n - 1, cap as int)) by {
                lemma_offset(i, b, 0, cap as int);
                lemma_sub_mod_noop_right(i, b + 1, cap as int);
                lemma_mod_mod(b + 1, cap as int, 2);
                assert((cap as int) * 2 == 2 * (cap as int));
                lemma_sub_mod_noop_right(i, b2, cap as int);
                let o = (i - b) % (cap as int);
                let q = (i - b) / (cap as int);
                lemma_mod_bound(i - b, cap as int);
                lemma_fundamental_div_mod(i - b, cap as int);
                assert(q * (cap as int) == (cap as int) * q) by (nonlinear_arith);
                assert((q - 1) * (cap as int) == q * (cap as int) - cap) by (nonlinear_arith);
                if o >= 1 {
                    lemma_fundamental_div_mod_converse(
                        i - (b + 1),
                        cap as int,
                        (i - b) / (cap as int),
                        o - 1,
                    );
                } else {
                    lemma_fundamental_div_mod_converse(
                        i - (b + 1),
                        cap as int,
                        (i - b) / (cap as int) - 1,
                        cap as int - 1,
                    );
                }
            }
            assert forall|k: int| 0 <= k < n - 1 implies #[trigger] ((b2 + k) % (cap as int)) == (b
                + 1 + k) % (cap as int) by {
                lemma_shift_cell(b, k, cap as int);
            }
            assert forall|k: int| 0 <= k < n - 1 implies #[trigger] ((b + 1 + k) % (cap as int))
                != b % (cap as int) by {
                lemma_mod_bound(b + 1 + k, cap as int);
                lemma_offset((b + 1 + k) % (cap as int), b, k + 1, cap as int);
                lemma_offset((b + 1 + k) % (cap as int), b, 0, cap as int);
            }
            assert(self.contents() =~= first.drop_first());
            assert(self.sent@ =~= self.delivered@ + self.contents());
        }
        Ok(Some(value))
    }

    /// Drops the messages in flight in `state`, which must cover exactly
    /// the live window, and empties both registers.
    fn cleanup(&mut self, state: State)
        requires
            0 < old(self).cap <= MAX_CAPACITY,
            old(self).buffer@.len() == old(self).cap,
            state.valid(old(self).cap as nat),
            state.back_half().pos() == old(self).word().back_half().pos(),
            state.length(old(self).cap as nat) == old(self).live_len(),
            forall|i: int|
                0 <= i < old(self).cap ==> ((#[trigger] old(self).buffer@[i]) is Some
                    <==> in_window(
                    i,
                    old(self).word().back_half().pos() as int,
                    old(self).live_len() as int,
                    old(self).cap as int,
                )),
        ensures
            final(self).word() == old(self).word(),
            final(self).buffer@.len() == old(self).buffer@.len(),
            forall|i: int| 0 <= i < old(self).cap ==> (#[trigger] final(self).buffer@[i]) is None,
            !final(self).atomics.sender_slot().armed(),
            !final(self).atomics.receiver_slot().armed(),
            final(self).atomics.sender_slot().woken() == old(self).atomics.sender_slot().woken(),
            final(self).atomics.receiver_slot().woken() == old(self).atomics.receiver_slot().woken(),
            final(self).discarded@ == old(self).contents(),
            final(self).cap == old(self).cap,
            final(self).producer == old(self).producer,
            final(self).consumer == old(self).consumer,
            final(self).live_front == old(self).live_front,
            final(self).sent == old(self).sent,
            final(self).delivered == old(self).delivered,
    {
        let ghost q = self.contents();
        self.buffer.cleanup(state);
        self.atomics.drop_wakers();
        self.discarded = Ghost(q);
    }

    /// Closes the producer side, handing over its snapshot `cache`.
    ///
    /// If the snapshot already shows the consumer closed, or the exclusive-or
    /// that sets the producer's close bit reveals it, the producer is the
    /// last side and tears the channel down; otherwise it resumes the
    /// consumer so that it sees the close.
    pub fn close_producer(&mut self, cache: State)
        requires
            old(self).wf(),
            old(self).producer_cache() == Some(cache),
        ensures
            final(self).wf(),
            final(self).producer_cache() is None,
            final(self).consumer_cache() == old(self).consumer_cache(),
            final(self).spec_capacity() == old(self).spec_capacity(),
            final(self)@ == old(self)@.after_producer_close(),
    {
        proof {
            self.lemma_positions();
        }
        if cache.is_closed() {
            self.cleanup(cache);
            self.producer = Ghost(None);
            return;
        }
        let prev = self.atomics.fetch_xor(S_CLOSE);
        proof {
            lemma_close_bits(prev.0);
        }
        let post = State(prev.0 ^ S_CLOSE);
        self.producer = Ghost(None);
        if prev.is_closed() {
            self.cleanup(post);
        } else {
            self.atomics.receiver.wake();
        }
    }

    /// Closes the consumer side, handing over its snapshot `cache`; the
    /// mirror image of `close_producer`.
    pub fn close_consumer(&mut self, cache: State)
        requires
            old(self).wf(),
            old(self).consumer_cache() == Some(cache),
        ensures
            final(self).wf(),
            final(self).consumer_cache() is None,
            final(self).producer_cache() == old(self).producer_cache(),
            final(self).spec_capacity() == old(self).spec_capacity(),
            final(self)@ == old(self)@.after_consumer_close(),
    {
        proof {
            self.lemma_positions();
        }
        if cache.is_closed() {
            self.cleanup(cache);
            self.consumer = Ghost(None);
            return;
        }
        let prev = self.atomics.fetch_xor(R_CLOSE);
        proof {
            lemma_close_bits(prev.0);
        }
        let post = State(prev.0 ^ R_CLOSE);
        self.consumer = Ghost(None);
        if prev.is_closed() {
            self.cleanup(post);
        } else {
            self.atomics.sender.wake();
        }
    }

    /// Leaves `waker` in the producer's register, for a send that waits
    /// for space.
    pub fn register_producer(&mut self, waker: &Waker)
        requires
            old(self).wf(),
            old(self).producer_cache() is Some,
        ensures
            final(self).wf(),
            final(self).producer_cache() == old(self).producer_cache(),
            final(self).consumer_cache() == old(self).consumer_cache(),
            final(self).spec_capacity() == old(self).spec_capacity(),
            final(self)@ == (ChannelView { producer_armed: true, ..old(self)@ }),
    {
        self.atomics.sender.register(waker);
    }

    /// Empties the producer's register, for a send that no longer waits.
    pub fn clear_producer(&mut self)
        requires
            old(self).wf(),
        ensures
            final(self).wf(),
            final(self).producer_cache() == old(self).producer_cache(),
            final(self).consumer_cache() == old(self).consumer_cache(),
            final(self).spec_capacity() == old(self).spec_capacity(),
            final(self)@ == (ChannelView { producer_armed: false, ..old(self)@ }),
    {
        self.atomics.sender.clear();
    }

    /// Leaves `waker` in the consumer's register, for a receive that waits
    /// for a message.
    pub fn register_consumer(&mut self, waker: &Waker)
        requires
            old(self).wf(),
            old(self).consumer_cache() is Some,
        ensures
            final(self).wf(),
            final(self).producer_cache() == old(self).producer_cache(),
            final(self).consumer_cache() == old(self).consumer_cache(),
            final(self).spec_capacity() == old(self).spec_capacity(),
            final(self)@ == (ChannelView { consumer_armed: true, ..old(self)@ }),
    {
        self.atomics.receiver.register(waker);
    }

    /// Empties the consumer's register, for a receive that no longer waits.
    pub fn clear_consumer(&mut self)
        requires
            old(self).wf(),
        ensures
            final(self).wf(),
            final(self).producer_cache() == old(self).producer_cache(),
            final(self).consumer_cache() == old(self).consumer_cache(),
            final(self).spec_capacity() == old(self).spec_capacity(),
            final(self)@ == (ChannelView { consumer_armed: false, ..old(self)@ }),
    {
        self.atomics.receiver.clear();
    }

    /// The view's open flags are the handles' snapshots being present.
    pub proof fn lemma_open_flags(&self)
        ensures
            self@.producer_open == self.producer_cache() is Some,
            self@.consumer_open == self.consumer_cache() is Some,
            self@.capacity == self.spec_capacity(),
    {
    }

    /// Each handle's snapshot is a word the channel can hold.
    pub proof fn lemma_caches_valid(&self)
        requires
            self.wf(),
        ensures
            0 < self.spec_capacity() <= MAX_CAPACITY,
            self.producer_cache() is Some ==> self.producer_cache()->0.valid(
                self.spec_capacity() as nat,
            ),
            self.consumer_cache() is Some ==> self.consumer_cache()->0.valid(
                self.spec_capacity() as nat,
            ),
    {
        self.lemma_positions();
        if self.consumer@ is Some {
            let r = self.consumer@->0;
            assert(r.length(self.cap as nat) <= self.live_len());
        }
    }

    /// Delivery is first in, first out, without loss or duplication: in
    /// every reachable state, what was delivered followed by what is in
    /// flight is exactly what was sent, so the delivered messages are a
    /// prefix of the sent ones; and no more than a capacity of messages is
    /// ever in flight.
    pub proof fn lemma_fifo(&self)
        requires
            self.wf(),
        ensures
            !self@.released() ==> self@.sent == self@.delivered + self@.queue,
            self@.delivered.len() <= self@.sent.len(),
            self@.sent.subrange(0, self@.delivered.len() as int) == self@.delivered,
            self@.queue.len() <= self@.capacity,
    {
        self.lemma_positions();
        if self.released() {
            assert(self@.sent.subrange(0, self@.delivered.len() as int) =~= self@.delivered);
        } else {
            assert(self@.sent.subrange(0, self@.delivered.len() as int) =~= self@.delivered);
        }
    }

    /// Once both sides have closed, every message that was sent and never
    /// delivered has been dropped, once and in order, by the teardown;
    /// nothing is left in flight, and closing again changes nothing.
    pub proof fn lemma_teardown(&self)
        requires
            self.wf(),
            self@.released(),
        ensures
            self@.sent == self@.delivered + self@.discarded,
            self@.queue.len() == 0,
            self@.after_producer_close() == self@,
            self@.after_consumer_close() == self@,
    {
    }

    /// The producer's snapshot is a conservative hint: it never shows
    /// fewer messages in flight, and so never more room, than there are.
    pub proof fn lemma_producer_snapshot(&self)
        requires
            self.wf(),
            self.producer_cache() is Some,
        ensures
            self.producer_cache()->0.length(self.spec_capacity() as nat) >= self@.queue.len(),
    {
        self.lemma_positions();
    }

    /// The capacity of the channel.
    pub fn capacity(&self) -> (r: Half)
        ensures
            r == self.spec_capacity(),
    {
        self.cap
    }
}

} // verus!
