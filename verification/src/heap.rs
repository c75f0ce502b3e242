//! The shared cell store and its allocator. Every node is a contiguous,
//! aligned run of cells; a freed cell is written with the FREE sentinel and
//! must never be read as live data until an allocation reinitializes it.
//! Allocation is a bump pointer over a fixed capacity: freed ranges are not
//! recycled, and exhaustion is fatal for the engine.

use vstd::prelude::*;
use vstd::pervasive::VecAdditionalExecFns;
use crate::port::{Port, Tag};
use crate::err::NetError;

verus! {

/// One heap cell: either the FREE sentinel or a live port value (the graph
/// endpoint or wire binding currently stored there).
#[derive(Clone, Copy, PartialEq, Eq, Structural, Debug)]
pub enum Cell {
    Free,
    Live(Port),
}

impl Cell {
    pub open spec fn spec_is_live(self) -> bool {
        self is Live
    }

    #[verifier::when_used_as_spec(spec_is_live)]
    pub fn is_live(self) -> (r: bool)
        ensures
            r == self.spec_is_live(),
    {
        matches!(self, Cell::Live(_))
    }

    /// The port held by a live cell.
    pub open spec fn spec_port(self) -> Port {
        match self {
            Cell::Live(p) => p,
            Cell::Free => Port { tag: Tag::Era, lab: 0u16, val: 0u64 },
        }
    }

    #[verifier::when_used_as_spec(spec_port)]
    pub fn port(self) -> (p: Port)
        ensures
            p == self.spec_port(),
    {
        match self {
            Cell::Live(p) => p,
            Cell::Free => Port { tag: Tag::Era, lab: 0, val: 0 },
        }
    }
}

/// 1 for a live cell, 0 for a FREE one.
pub open spec fn cell_weight(c: Cell) -> nat {
    if c is Live { 1nat } else { 0nat }
}

/// How many cells of the heap image are live (non-FREE).
pub open spec fn live_count(h: Seq<Cell>) -> nat
    decreases h.len(),
{
    if h.len() == 0 {
        0nat
    } else {
        live_count(h.drop_last()) + cell_weight(h.last())
    }
}

/// Writing one cell changes the live count by exactly the difference of
/// the weights of the new and old contents.
pub proof fn lemma_live_count_update(h: Seq<Cell>, i: int, c: Cell)
    requires
        0 <= i < h.len(),
    ensures
        live_count(h.update(i, c)) + cell_weight(h[i]) == live_count(h) + cell_weight(c),
    decreases h.len(),
{
    let hu = h.update(i, c);
    if i == h.len() - 1 {
        assert(hu.drop_last() =~= h.drop_last());
    } else {
        assert(hu.drop_last() =~= h.drop_last().update(i, c));
        assert(hu.last() == h.last());
        lemma_live_count_update(h.drop_last(), i, c);
    }
}

/// The smallest multiple of `s` at or above `x`.
pub open spec fn round_up(x: int, s: int) -> int
    recommends
        s >= 1,
{
    if x % s == 0 { x } else { x + (s - x % s) }
}

/// `round_up` lands on a multiple of `s` at or above `x`, less than `x + s`.
pub proof fn lemma_round_up(x: int, s: int)
    requires
        0 <= x,
        1 <= s,
    ensures
        round_up(x, s) % s == 0,
        x <= round_up(x, s) < x + s,
{
    assert(0 <= x % s < s) by (nonlinear_arith)
        requires 0 <= x && 1 <= s;
    if x % s != 0 {
        assert((x + (s - x % s)) % s == 0) by (nonlinear_arith)
            requires 1 <= s && 0 < x % s < s;
    }
}

/// The shared storage for node cells, with a bump allocator over a fixed
/// capacity.
pub struct Heap {
    cells: Vec<Cell>,
    next: usize,
}

impl View for Heap {
    type V = Seq<Cell>;

    closed spec fn view(&self) -> Seq<Cell> {
        self.cells@
    }
}

impl Heap {
    /// The bump pointer: every cell at or above it has never been handed
    /// out by the allocator.
    pub closed spec fn next_free(self) -> int {
        self.next as int
    }

    /// The bump pointer is a machine index, never negative.
    pub proof fn next_nonneg(&self)
        ensures
            self.next_free() >= 0,
    {
    }

    pub fn len(&self) -> (n: usize)
        ensures
            n == self@.len(),
    {
        self.cells.len()
    }

    /// How many cells the bump allocator has handed out so far.
    pub fn bump(&self) -> (n: usize)
        ensures
            n == self.next_free(),
    {
        self.next
    }

    pub fn get(&self, loc: u64) -> (c: Cell)
        requires
            loc < self@.len(),
        ensures
            c == self@[loc as int],
    {
        let _n = self.cells.len();
        self.cells[loc as usize]
    }

    pub fn set(&mut self, loc: u64, c: Cell)
        requires
            loc < old(self)@.len(),
        ensures
            final(self)@ == old(self)@.update(loc as int, c),
            final(self).next_free() == old(self).next_free(),
    {
        let _n = self.cells.len();
        self.cells.set(loc as usize, c);
    }

    /// Reserves `size` contiguous cells at a base aligned to `align`,
    /// bumping the pointer. The caller must have established that the heap
    /// has room.
    pub fn alloc_cells(&mut self, size: u64, align: u64) -> (base: u64)
        requires
            1 <= size,
            1 <= align,
            round_up(old(self).next_free(), align as int) + size <= old(self)@.len(),
        ensures
            base as int == round_up(old(self).next_free(), align as int),
            final(self)@ == old(self)@,
            final(self).next_free() == base + size,
    {
        proof {
            lemma_round_up(old(self).next_free(), align as int);
        }
        let _n = self.cells.len();
        let next64 = self.next as u64;
        let r = next64 % align;
        let base = if r == 0 { next64 } else { next64 + (align - r) };
        self.next = (base + size) as usize;
        base
    }

    /// Fallible allocation of one node's run: `Ok` exactly when the heap
    /// has room for `size` cells aligned to `size`, `Err(AllocExhausted)`
    /// (with nothing changed) when the capacity is insufficient.
    pub fn try_alloc(&mut self, size: u64) -> (r: Result<u64, NetError>)
        requires
            1 <= size,
        ensures
            match r {
                Ok(base) => {
                    &&& round_up(old(self).next_free(), size as int) + size <= old(self)@.len()
                    &&& base as int == round_up(old(self).next_free(), size as int)
                    &&& final(self)@ == old(self)@
                    &&& final(self).next_free() == base + size
                },
                Err(e) => {
                    &&& e == NetError::AllocExhausted
                    &&& round_up(old(self).next_free(), size as int) + size > old(self)@.len()
                    &&& final(self)@ == old(self)@
                    &&& final(self).next_free() == old(self).next_free()
                },
            },
    {
        if self.has_room(size, size) {
            Ok(self.alloc_cells(size, size))
        } else {
            Err(NetError::AllocExhausted)
        }
    }

    /// Whether `size` cells at a base aligned to `align` fit in what is
    /// left.
    pub fn has_room(&self, size: u64, align: u64) -> (r: bool)
        requires
            1 <= size,
            1 <= align,
        ensures
            r == (round_up(self.next_free(), align as int) + size <= self@.len()),
    {
        proof {
            lemma_round_up(self.next_free(), align as int);
        }
        let len64 = self.cells.len() as u64;
        let next64 = self.next as u64;
        if next64 >= len64 {
            return false;
        }
        if size > len64 {
            return false;
        }
        let r = next64 % align;
        let pad = if r == 0 { 0u64 } else { align - r };
        // round_up(next) + size <= len, rearranged to avoid overflow.
        pad <= len64 - next64 && size <= len64 - next64 - pad
    }

    /// Marks the cells at `loc` through `loc + size - 1` as reusable by
    /// writing the FREE sentinel over them.
    pub fn free(&mut self, loc: u64, size: u64)
        requires
            loc + size <= old(self)@.len(),
        ensures
            final(self)@.len() == old(self)@.len(),
            final(self).next_free() == old(self).next_free(),
            forall|j: int| loc <= j < loc + size ==> final(self)@[j] == Cell::Free,
            forall|j: int|
                0 <= j < old(self)@.len() && !(loc <= j < loc + size) ==> final(self)@[j] == old(
                    self,
                )@[j],
    {
        let n = self.len();
        let mut i: u64 = 0;
        while i < size
            invariant
                0 <= i <= size,
                loc + size <= n,
                n == self@.len(),
                self@.len() == old(self)@.len(),
                self.next_free() == old(self).next_free(),
                forall|j: int| loc <= j < loc + i ==> self@[j] == Cell::Free,
                forall|j: int|
                    0 <= j < old(self)@.len() && !(loc <= j < loc + i) ==> self@[j] == old(
                        self,
                    )@[j],
            decreases size - i,
        {
            self.set(loc + i, Cell::Free);
            i = i + 1;
        }
    }
}

/// Reserves the cell array: `capacity` cells, all FREE, nothing allocated.
pub fn init_heap(capacity: usize) -> (h: Heap)
    ensures
        h@.len() == capacity,
        forall|i: int| 0 <= i < capacity ==> h@[i] == Cell::Free,
        h.next_free() == 0,
{
    let mut cells: Vec<Cell> = Vec::new();
    let mut i: usize = 0;
    while i < capacity
        invariant
            0 <= i <= capacity,
            cells@.len() == i,
            forall|j: int| 0 <= j < i ==> cells@[j] == Cell::Free,
        decreases capacity - i,
    {
        cells.push(Cell::Free);
        i = i + 1;
    }
    Heap { cells, next: 0 }
}

} // verus!
