//! The ring's cells: `None` is an empty cell, `Some` holds a message in
//! flight.
use vstd::prelude::*;
use vstd::arithmetic::div_mod::{lemma_fundamental_div_mod, lemma_fundamental_div_mod_converse};
use crate::state::{Half, State, MAX_CAPACITY};

verus! {

/// The `n` values held in the cells from virtual position `start` on, in
/// order.
pub open spec fn window<T>(cells: Seq<Option<T>>, start: int, n: int) -> Seq<T> {
    Seq::new(n as nat, |k: int| cells[(start + k) % (cells.len() as int)].unwrap())
}

/// Cell `i` is among the `n` cells from virtual position `start` on.
pub open spec fn in_window(i: int, start: int, n: int, cap: int) -> bool {
    (i - start) % cap < n
}

/// Cell `i` is the `k`-th cell from position `start` exactly when `i` is
/// `k` cells past `start`.
pub proof fn lemma_offset(i: int, start: int, k: int, cap: int)
    requires
        0 <= i < cap,
        0 <= k < cap,
    ensures
        ((i - start) % cap == k) == (i == (start + k) % cap),
{
    lemma_fundamental_div_mod(i - start, cap);
    lemma_fundamental_div_mod(start + k, cap);
    let q1 = (i - start) / cap;
    let q2 = (start + k) / cap;
    if (i - start) % cap == k {
        assert(start + k == (-q1) * cap + i) by (nonlinear_arith)
            requires
                i - start == cap * q1 + k,
        ;
        lemma_fundamental_div_mod_converse(start + k, cap, -q1, i);
    }
    if i == (start + k) % cap {
        assert(i - start == (-q2) * cap + k) by (nonlinear_arith)
            requires
                start + k == cap * q2 + i,
        ;
        lemma_fundamental_div_mod_converse(i - start, cap, -q2, k);
    }
}

/// The cells of a ring.
pub struct Slice<T> {
    cells: Vec<Option<T>>,
}

impl<T> View for Slice<T> {
    type V = Seq<Option<T>>;

    closed spec fn view(&self) -> Seq<Option<T>> {
        self.cells@
    }
}

impl<T> Slice<T> {
    /// `cap` empty cells.
    pub fn new(cap: Half) -> (r: Slice<T>)
        ensures
            r@.len() == cap,
            forall|i: int| 0 <= i < cap ==> (#[trigger] r@[i]) is None,
    {
        let mut cells: Vec<Option<T>> = Vec::new();
        let mut n: Half = 0;
        while n < cap
            invariant
                n <= cap,
                cells@.len() == n,
                forall|i: int| 0 <= i < n ==> (#[trigger] cells@[i]) is None,
            decreases cap - n,
        {
            cells.push(None);
            n = n + 1;
        }
        Slice { cells }
    }

    pub fn capacity(&self) -> (r: Half)
        requires
            self@.len() <= u32::MAX,
        ensures
            r == self@.len(),
    {
        self.cells.len() as Half
    }

    /// Puts `value` into the empty cell at virtual position `index`.
    pub fn write(&mut self, index: Half, value: T)
        requires
            0 < old(self)@.len() <= u32::MAX,
            old(self)@[index as int % old(self)@.len() as int] is None,
        ensures
            final(self)@ == old(self)@.update(index as int % old(self)@.len() as int, Some(value)),
    {
        let cap = self.capacity();
        let i = (index % cap) as usize;
        self.cells.set(i, Some(value));
    }

    /// Moves the value out of the full cell at virtual position `index`,
    /// leaving it empty.
    pub fn read(&mut self, index: Half) -> (r: T)
        requires
            0 < old(self)@.len() <= u32::MAX,
            old(self)@[index as int % old(self)@.len() as int] is Some,
        ensures
            r == old(self)@[index as int % old(self)@.len() as int].unwrap(),
            final(self)@ == old(self)@.update(index as int % old(self)@.len() as int, None),
    {
        let cap = self.capacity();
        let i = (index % cap) as usize;
        let mut taken: Option<T> = None;
        self.cells.set_and_swap(i, &mut taken);
        taken.unwrap()
    }

    /// Drops every value in flight in `state`: the cells from the back
    /// cursor up to the front cursor.
    pub fn cleanup(&mut self, state: State)
        requires
            old(self)@.len() <= MAX_CAPACITY,
            state.valid(old(self)@.len()),
        ensures
            final(self)@.len() == old(self)@.len(),
            forall|i: int|
                0 <= i < old(self)@.len() ==> #[trigger] final(self)@[i] == if in_window(
                    i,
                    state.back_half().pos() as int,
                    state.length(old(self)@.len()) as int,
                    old(self)@.len() as int,
                ) {
                    None
                } else {
                    old(self)@[i]
                },
    {
        let cap = self.capacity();
        let n = state.len(cap);
        let start = state.back().position();
        let ghost first = self@;
        let mut k: Half = 0;
        while k < n
            invariant
                0 < cap <= MAX_CAPACITY,
                cap == first.len(),
                n == state.length(cap as nat),
                n <= cap,
                start == state.back_half().pos(),
                k <= n,
                self@.len() == cap,
                forall|i: int|
                    0 <= i < cap ==> #[trigger] self@[i] == if (i - start) % (cap as int) < k {
                        None
                    } else {
                        first[i]
                    },
            decreases n - k,
        {
            let i = ((start as u64 + k as u64) % cap as u64) as usize;
            self.cells.set(i, None);
            assert forall|j: int| 0 <= j < cap implies #[trigger] self@[j] == if (j - start) % (
            cap as int) < k + 1 {
                None
            } else {
                first[j]
            } by {
                lemma_offset(j, start as int, k as int, cap as int);
            }
            k = k + 1;
        }
    }
}

} // verus!
