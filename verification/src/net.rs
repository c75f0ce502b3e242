//! The net: the shared heap, the queue of pending redexes, and the rewrite
//! counters, together with the linking primitives that establish wires.
//!
//! Every mutating operation has a spec-level transition function over the
//! net's mathematical image (`NetV`), and its contract pins the final state
//! to exactly that transition, so whole reduction sequences can be reasoned
//! about as compositions of pure functions.

use vstd::prelude::*;
use crate::port::{Port, Tag};
use crate::heap::{Heap, Cell, round_up};

verus! {

/// Counts of each rewrite kind performed so far, kept per worker shard and
/// merged when a pass ends.
#[derive(Clone, Copy, PartialEq, Eq, Structural, Debug)]
pub struct Rewrites {
    /// Annihilations of two same-tag, same-label agents.
    pub anni: u64,
    /// Commutations of two differing agents.
    pub comm: u64,
    /// Erasures of two skippable agents.
    pub eras: u64,
    /// Numeric folds and pattern-match steps.
    pub oper: u64,
}

impl Rewrites {
    pub fn new() -> (r: Rewrites)
        ensures
            r == (Rewrites { anni: 0u64, comm: 0u64, eras: 0u64, oper: 0u64 }),
    {
        Rewrites { anni: 0, comm: 0, eras: 0, oper: 0 }
    }

    /// Merges another shard's tallies into this one, once both shards have
    /// finished their work.
    pub fn merge(&mut self, other: &Rewrites)
        requires
            old(self).anni + other.anni <= u64::MAX,
            old(self).comm + other.comm <= u64::MAX,
            old(self).eras + other.eras <= u64::MAX,
            old(self).oper + other.oper <= u64::MAX,
        ensures
            final(self).anni == old(self).anni + other.anni,
            final(self).comm == old(self).comm + other.comm,
            final(self).eras == old(self).eras + other.eras,
            final(self).oper == old(self).oper + other.oper,
    {
        self.anni = self.anni + other.anni;
        self.comm = self.comm + other.comm;
        self.eras = self.eras + other.eras;
        self.oper = self.oper + other.oper;
    }
}

/// The mathematical image of a net: the heap cells, the bump pointer, the
/// redex queue, and the counters.
#[verifier::ext_equal]
pub ghost struct NetV {
    pub heap: Seq<Cell>,
    pub next: int,
    pub rdex: Seq<(Port, Port)>,
    pub rwts: Rewrites,
}

impl NetV {
    pub open spec fn bump_anni(self) -> NetV {
        NetV { rwts: Rewrites { anni: (self.rwts.anni + 1) as u64, ..self.rwts }, ..self }
    }

    pub open spec fn bump_comm(self) -> NetV {
        NetV { rwts: Rewrites { comm: (self.rwts.comm + 1) as u64, ..self.rwts }, ..self }
    }

    pub open spec fn bump_eras(self) -> NetV {
        NetV { rwts: Rewrites { eras: (self.rwts.eras + 1) as u64, ..self.rwts }, ..self }
    }

    pub open spec fn bump_oper(self) -> NetV {
        NetV { rwts: Rewrites { oper: (self.rwts.oper + 1) as u64, ..self.rwts }, ..self }
    }
}

/// A port that may be written through: if it is a wire half, the cell it
/// points back into must exist.
pub open spec fn var_ok(p: Port, len: nat) -> bool {
    p.is_var() ==> p.val < len
}

/// A half-open wire that may be resolved: its cell is in range, still live,
/// and whatever it currently binds can itself be written through.
pub open spec fn wire_ok(n: NetV, w: u64) -> bool {
    &&& w < n.heap.len()
    &&& n.heap[w as int] is Live
    &&& var_ok(n.heap[w as int].port(), n.heap.len())
}

/// Transition of `link_port_port`: two principal ports form a new redex;
/// otherwise each wire half among the two is resolved by writing the
/// opposite port into the cell it points at.
pub open spec fn lpp_spec(n: NetV, p: Port, q: Port) -> NetV {
    if p.is_pri() && q.is_pri() {
        NetV { rdex: n.rdex.push((p, q)), ..n }
    } else {
        let h1 = if p.is_var() { n.heap.update(p.val as int, Cell::Live(q)) } else { n.heap };
        let h2 = if q.is_var() { h1.update(q.val as int, Cell::Live(p)) } else { h1 };
        NetV { heap: h2, ..n }
    }
}

/// Transition of `link_wire_port`: the half-open wire at `w` is consumed
/// (its cell freed) and whatever it bound is linked to `p`.
pub open spec fn lwp_spec(n: NetV, w: u64, p: Port) -> NetV {
    let t = n.heap[w as int].port();
    lpp_spec(NetV { heap: n.heap.update(w as int, Cell::Free), ..n }, t, p)
}

/// Transition of `link_wire_wire`: both half-open wires are consumed and
/// their bindings linked to each other.
pub open spec fn lww_spec(n: NetV, w1: u64, w2: u64) -> NetV {
    let t1 = n.heap[w1 as int].port();
    let t2 = n.heap[w2 as int].port();
    let h = n.heap.update(w1 as int, Cell::Free).update(w2 as int, Cell::Free);
    lpp_spec(NetV { heap: h, ..n }, t1, t2)
}

/// Whether a fresh node of the given tag fits in the heap's remaining
/// bump-allocated space.
pub open spec fn node_fits(n: NetV, tag: Tag) -> bool {
    round_up(n.next, tag.spec_align() as int) + tag.spec_align() <= n.heap.len()
}

/// Transition of `create_node`: the bump pointer advances over an aligned
/// run for the node and the node's principal port is handed back. The
/// node's cells stay FREE until they are linked.
pub open spec fn create_spec(n: NetV, tag: Tag, lab: u16) -> (NetV, Port) {
    let base = round_up(n.next, tag.spec_align() as int);
    (
        NetV { next: base + tag.spec_align(), ..n },
        Port { tag, lab, val: base as u64 },
    )
}


/// The slice of the pending queue that shard `t` of `tids` owns after a
/// fork.
pub open spec fn shard_slice(rdex: Seq<(Port, Port)>, tids: int, t: int) -> Seq<(Port, Port)> {
    rdex.subrange(t * rdex.len() / tids, (t + 1) * rdex.len() / tids)
}

impl Net {
    /// Splits the then-pending redex queue into `tids` shard queues, shard
    /// `t` receiving the contiguous slice from `t*len/tids` up to
    /// `(t+1)*len/tids`; together the shards carry every pending redex
    /// exactly once, and this net's own queue is left empty. Each shard
    /// queue is then reduced with its own counters, merged when the pass
    /// ends.
    pub fn fork_redexes(&mut self, tids: usize) -> (qs: Vec<Vec<(Port, Port)>>)
        requires
            1 <= tids,
            tids * old(self)@.rdex.len() <= usize::MAX,
        ensures
            qs@.len() == tids,
            forall|t: int|
                0 <= t < tids ==> (#[trigger] qs@[t])@ == shard_slice(
                    old(self)@.rdex,
                    tids as int,
                    t,
                ),
            final(self)@.rdex == Seq::<(Port, Port)>::empty(),
            final(self)@.heap == old(self)@.heap,
            final(self)@.next == old(self)@.next,
            final(self)@.rwts == old(self)@.rwts,
    {
        let len = self.rdex.len();
        let mut qs: Vec<Vec<(Port, Port)>> = Vec::new();
        let mut t: usize = 0;
        while t < tids
            invariant
                0 <= t <= tids,
                1 <= tids,
                len == self@.rdex.len(),
                self@.rdex == old(self)@.rdex,
                self@.heap == old(self)@.heap,
                self@.next == old(self)@.next,
                self@.rwts == old(self)@.rwts,
                tids * len <= usize::MAX,
                qs@.len() == t,
                forall|k: int|
                    0 <= k < t ==> (#[trigger] qs@[k])@ == shard_slice(
                        old(self)@.rdex,
                        tids as int,
                        k,
                    ),
            decreases tids - t,
        {
            proof {
                assert(t * len <= tids * len && (t + 1) * len <= tids * len) by (nonlinear_arith)
                    requires 0 <= t && t + 1 <= tids && 0 <= len;
                assert(t * len <= (t + 1) * len) by (nonlinear_arith)
                    requires 0 <= t && 0 <= len;
                vstd::arithmetic::div_mod::lemma_div_is_ordered(
                    (t * len) as int,
                    ((t + 1) * len) as int,
                    tids as int,
                );
                vstd::arithmetic::div_mod::lemma_div_is_ordered(
                    ((t + 1) * len) as int,
                    (tids * len) as int,
                    tids as int,
                );
                assert((tids * len) as int == (len as int) * (tids as int)) by (nonlinear_arith);
                vstd::arithmetic::div_mod::lemma_div_by_multiple(len as int, tids as int);
            }
            let from = t * len / tids;
            let to = (t + 1) * len / tids;
            let mut q: Vec<(Port, Port)> = Vec::new();
            let mut i: usize = from;
            while i < to
                invariant
                    from <= i <= to,
                    to <= len,
                    len == self@.rdex.len(),
                    q@ == self@.rdex.subrange(from as int, i as int),
                decreases to - i,
            {
                let (x, y) = self.rdex[i];
                q.push((x, y));
                proof {
                    assert(q@ =~= self@.rdex.subrange(from as int, i + 1));
                }
                i = i + 1;
            }
            qs.push(q);
            t = t + 1;
        }
        self.rdex.clear();
        proof {
            assert(self@.rdex =~= Seq::<(Port, Port)>::empty());
        }
        qs
    }
}

/// A net: heap, pending redexes, and rewrite counters.
pub struct Net {
    pub heap: Heap,
    pub rdex: Vec<(Port, Port)>,
    pub rwts: Rewrites,
}

impl View for Net {
    type V = NetV;

    open spec fn view(&self) -> NetV {
        NetV {
            heap: self.heap@,
            next: self.heap.next_free(),
            rdex: self.rdex@,
            rwts: self.rwts,
        }
    }
}

impl Net {
    /// A fresh net over the given heap, with no pending work.
    pub fn new(heap: Heap) -> (net: Net)
        ensures
            net@.heap == heap@,
            net@.next == heap.next_free(),
            net@.rdex == Seq::<(Port, Port)>::empty(),
            net@.rwts == (Rewrites { anni: 0u64, comm: 0u64, eras: 0u64, oper: 0u64 }),
    {
        let net = Net { heap, rdex: Vec::new(), rwts: Rewrites::new() };
        proof {
            assert(net@.rdex =~= Seq::<(Port, Port)>::empty());
        }
        net
    }

    /// Allocates a fresh node for an agent of the given tag and label and
    /// returns its principal port.
    pub fn create_node(&mut self, tag: Tag, lab: u16) -> (p: Port)
        requires
            node_fits(old(self)@, tag),
        ensures
            final(self)@ == create_spec(old(self)@, tag, lab).0,
            p == create_spec(old(self)@, tag, lab).1,
            p.val as int == round_up(old(self)@.next, tag.spec_align() as int),
            tag.spec_arity() <= crate::port::MAX_ARITY ==> p.val + tag.spec_arity() < final(self)@.heap.len(),
    {
        let align = tag.align();
        let base = self.heap.alloc_cells(align as u64, align as u64);
        Port { tag, lab, val: base }
    }

    /// Whether `create_node` may be called for this tag.
    pub fn fits(&self, tag: Tag) -> (r: bool)
        ensures
            r == node_fits(self@, tag),
    {
        let align = tag.align();
        self.heap.has_room(align as u64, align as u64)
    }

    /// Connects two concrete ports. Two principal ports form a new redex,
    /// pushed onto this net's queue; a wire half among the two is resolved
    /// by writing the opposite port into the cell it points back at.
    pub fn link_port_port(&mut self, p: Port, q: Port)
        requires
            var_ok(p, old(self)@.heap.len()),
            var_ok(q, old(self)@.heap.len()),
        ensures
            final(self)@ == lpp_spec(old(self)@, p, q),
    {
        if p.is_pri() && q.is_pri() {
            self.rdex.push((p, q));
        } else {
            if p.is_var() {
                self.heap.set(p.val, Cell::Live(q));
            }
            if q.is_var() {
                self.heap.set(q.val, Cell::Live(p));
            }
        }
    }

    /// Resolves the half-open wire at `w` to the concrete port `p`: the
    /// wire cell is consumed (freed) and whatever it bound is linked to
    /// `p`. If both ends turn out concrete, the redex is emitted exactly
    /// once.
    pub fn link_wire_port(&mut self, w: u64, p: Port)
        requires
            wire_ok(old(self)@, w),
            var_ok(p, old(self)@.heap.len()),
        ensures
            final(self)@ == lwp_spec(old(self)@, w, p),
    {
        let t = self.heap.get(w).port();
        self.heap.set(w, Cell::Free);
        self.link_port_port(t, p);
    }

    /// Connects two half-open wires to each other: both wire cells are
    /// consumed and their bindings linked, so the logical edge is
    /// established exactly once.
    pub fn link_wire_wire(&mut self, w1: u64, w2: u64)
        requires
            wire_ok(old(self)@, w1),
            wire_ok(old(self)@, w2),
        ensures
            final(self)@ == lww_spec(old(self)@, w1, w2),
    {
        let t1 = self.heap.get(w1).port();
        let t2 = self.heap.get(w2).port();
        self.heap.set(w1, Cell::Free);
        self.heap.set(w2, Cell::Free);
        self.link_port_port(t1, t2);
    }
}

} // verus!
