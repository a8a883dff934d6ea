//! The packed state word: front and back cursors with their close bits.
use vstd::prelude::*;
use vstd::arithmetic::div_mod::lemma_fundamental_div_mod_converse;

verus! {

/// A difference of two positions in `[0, m)`, reduced modulo `m`.
pub proof fn lemma_mod_window(x: int, m: int)
    requires
        0 < m,
        -m <= x < m,
    ensures
        x % m == if x >= 0 { x } else { x + m },
{
    if x >= 0 {
        lemma_fundamental_div_mod_converse(x, m, 0, x);
    } else {
        lemma_fundamental_div_mod_converse(x, m, -1, x + m);
    }
}

/// One half of the state word.
pub type Half = u32;

/// Width of a half, in bits.
pub const BITS: u64 = 32;

/// The close bit of a half.
pub const HIGH_BIT: Half = 0x8000_0000;

/// The producer's close bit, in the word.
pub const S_CLOSE: u64 = 0x8000_0000;

/// The consumer's close bit, in the word.
pub const R_CLOSE: u64 = 0x8000_0000_0000_0000;

/// Both close bits.
pub const ANY_CLOSE: u64 = 0x8000_0000_8000_0000;

/// The front half of the word.
pub const FRONT: u64 = 0xffff_ffff;

/// The back half of the word.
pub const BACK: u64 = 0xffff_ffff_0000_0000;

/// The largest capacity a channel may have: two bits less than a half.
pub const MAX_CAPACITY: Half = 0x3fff_ffff;

/// A cursor: a virtual position in the low bits and a close flag in the
/// high bit.
#[derive(Copy, Clone, Debug, PartialEq, Eq, Structural)]
pub struct HalfState(pub Half);

impl HalfState {
    /// The virtual position, without the close bit.
    pub open spec fn pos(self) -> nat {
        (self.0 % 0x8000_0000) as nat
    }

    /// Whether the close bit is set.
    pub open spec fn closed(self) -> bool {
        self.0 >= 0x8000_0000
    }

    pub fn position(self) -> (r: Half)
        ensures
            r == self.pos(),
    {
        let x = self.0;
        assert(x & 0x7fff_ffff == x % 0x8000_0000) by (bit_vector);
        x & 0x7fff_ffff
    }

    pub fn is_closed(self) -> (r: bool)
        ensures
            r == self.closed(),
    {
        let x = self.0;
        assert((x & 0x8000_0000 != 0) == (x >= 0x8000_0000)) by (bit_vector);
        (x & HIGH_BIT) != 0
    }

    /// Moves the position on by `by`, modulo twice the capacity, keeping
    /// the close bit.
    pub fn advance(self, cap: Half, by: Half) -> (r: HalfState)
        requires
            0 < cap <= MAX_CAPACITY,
        ensures
            r.pos() == (self.pos() + by) % (2 * cap as int),
            r.closed() == self.closed(),
    {
        let pos = self.position() as u64;
        let m = 2 * (cap as u64);
        let next = ((pos + by as u64) % m) as u32;
        assert(next < 0x8000_0000);
        let x = self.0;
        let hi = x & HIGH_BIT;
        assert(hi == 0 || hi == 0x8000_0000) by (bit_vector)
            requires hi == x & 0x8000_0000u32;
        assert((hi | next) % 0x8000_0000 == next && ((hi | next) >= 0x8000_0000) == (hi != 0))
            by (bit_vector)
            requires
                next < 0x8000_0000u32,
                hi == 0 || hi == 0x8000_0000u32;
        assert((hi != 0) == (x >= 0x8000_0000)) by (bit_vector)
            requires hi == x & 0x8000_0000u32;
        HalfState(hi | next)
    }

    /// Sets the close bit.
    pub fn close(self) -> (r: HalfState)
        ensures
            r.closed(),
            r.pos() == self.pos(),
    {
        let x = self.0;
        assert((x | 0x8000_0000) >= 0x8000_0000 && (x | 0x8000_0000) % 0x8000_0000 == x
            % 0x8000_0000) by (bit_vector);
        HalfState(x | HIGH_BIT)
    }
}


/// The whole word: the front half is written by the producer, the back
/// half by the consumer.
///
/// Each cursor wraps at twice the capacity and indexes the slots modulo the
/// capacity, so that empty (equal positions) and full (positions a capacity
/// apart) differ without a wasted slot.
#[derive(Copy, Clone, Debug, PartialEq, Eq, Structural)]
pub struct State(pub u64);

impl State {
    pub open spec fn front_half(self) -> HalfState {
        HalfState((self.0 % 0x1_0000_0000) as u32)
    }

    pub open spec fn back_half(self) -> HalfState {
        HalfState((self.0 / 0x1_0000_0000) as u32)
    }

    /// Messages in flight: the front's lead over the back, modulo twice the
    /// capacity.
    pub open spec fn length(self, cap: nat) -> nat {
        ((self.front_half().pos() - self.back_half().pos()) % (2 * cap as int)) as nat
    }

    /// Both positions lie in `[0, 2 * cap)` for a capacity in range.
    pub open spec fn in_range(self, cap: nat) -> bool {
        &&& 0 < cap <= MAX_CAPACITY
        &&& self.front_half().pos() < 2 * cap
        &&& self.back_half().pos() < 2 * cap
    }

    /// A word that a channel of capacity `cap` can hold.
    pub open spec fn valid(self, cap: nat) -> bool {
        &&& self.in_range(cap)
        &&& self.length(cap) <= cap
    }

    pub open spec fn any_closed(self) -> bool {
        self.front_half().closed() || self.back_half().closed()
    }

    pub fn front(self) -> (r: HalfState)
        ensures
            r == self.front_half(),
    {
        let x = self.0;
        assert((x & 0xffff_ffff) as u32 == (x % 0x1_0000_0000) as u32) by (bit_vector);
        HalfState((x & FRONT) as u32)
    }

    pub fn back(self) -> (r: HalfState)
        ensures
            r == self.back_half(),
    {
        let x = self.0;
        assert((x >> 32) as u32 == (x / 0x1_0000_0000) as u32) by (bit_vector);
        HalfState((x >> 32) as u32)
    }

    /// The word with its front half replaced.
    pub fn with_front(self, front: HalfState) -> (r: State)
        ensures
            r.front_half() == front,
            r.back_half() == self.back_half(),
    {
        let x = self.0;
        let f = front.0;
        assert(((x & 0xffff_ffff_0000_0000) | f as u64) % 0x1_0000_0000 == f as u64
            && ((x & 0xffff_ffff_0000_0000) | f as u64) / 0x1_0000_0000 == x / 0x1_0000_0000)
            by (bit_vector);
        State((x & BACK) | f as u64)
    }

    /// The word with its back half replaced.
    pub fn with_back(self, back: HalfState) -> (r: State)
        ensures
            r.front_half() == self.front_half(),
            r.back_half() == back,
    {
        let x = self.0;
        let b = back.0;
        assert(((x & 0xffff_ffff) | ((b as u64) << 32)) % 0x1_0000_0000 == x % 0x1_0000_0000
            && ((x & 0xffff_ffff) | ((b as u64) << 32)) / 0x1_0000_0000 == b as u64)
            by (bit_vector);
        State((x & FRONT) | ((b as u64) << 32))
    }

    /// Whether either side has closed.
    pub fn is_closed(self) -> (r: bool)
        ensures
            r == self.any_closed(),
    {
        let x = self.0;
        assert(((x & 0x8000_0000_8000_0000) != 0) == ((x % 0x1_0000_0000) as u32 >= 0x8000_0000
            || (x / 0x1_0000_0000) as u32 >= 0x8000_0000)) by (bit_vector);
        (x & ANY_CLOSE) != 0
    }

    /// The number of messages in flight.
    pub fn len(self, cap: Half) -> (r: Half)
        requires
            self.in_range(cap as nat),
        ensures
            r == self.length(cap as nat),
    {
        let f = self.front().position();
        let b = self.back().position();
        proof {
            lemma_mod_window(f - b, 2 * cap as int);
        }
        if f >= b {
            f - b
        } else {
            2 * cap - b + f
        }
    }

    pub fn is_full(self, cap: Half) -> (r: bool)
        requires
            self.in_range(cap as nat),
        ensures
            r == (self.length(cap as nat) == cap),
    {
        self.len(cap) == cap
    }

    pub fn is_empty(self) -> (r: bool)
        ensures
            r == (self.front_half().pos() == self.back_half().pos()),
    {
        self.front().position() == self.back().position()
    }

    /// The number of slots free for writing.
    pub fn space(self, cap: Half) -> (r: Half)
        requires
            self.valid(cap as nat),
        ensures
            r == cap - self.length(cap as nat),
    {
        cap - self.len(cap)
    }
}

} // verus!
