//! The interaction rules and the dispatcher. Each rule consumes a redex —
//! two principal ports wired to each other — and rewrites the net around
//! it: annihilation cross-links the agents' auxiliary wires, commutation
//! duplicates each agent across the other's ports, numeric folding applies
//! an operator, pattern matching branches on a numeral, and erasure
//! discards two payload-free agents. Every rule's contract pins the final
//! net to a spec-level transition, and each rule's requires is exactly what
//! the reducer checks at run time before dispatching.

use vstd::prelude::*;
use crate::port::{Port, Tag, port_ok, MAX_ARITY};
use crate::heap::Cell;
use crate::err::{NetError, ReduceEnd};
use crate::net::{Net, NetV, Rewrites, lpp_spec, lwp_spec, lww_spec, var_ok, wire_ok, node_fits, create_spec};
use crate::ops::{IntOp, spec_op_at, op_of_lab};
use crate::heap::{round_up, lemma_round_up};

verus! {

/// The location of agent `a`'s `i`-th auxiliary cell.
pub open spec fn auxw(a: Port, i: int) -> u64 {
    (a.val + i) as u64
}

/// Every auxiliary cell of agent `a` is a live, resolvable wire half.
pub open spec fn aux_wires_ok(n: NetV, a: Port) -> bool {
    forall|i: int| 1 <= i <= a.spec_arity() ==> wire_ok(n, #[trigger] auxw(a, i))
}

/// The two agents' bodies do not overlap, so consuming one's wires cannot
/// corrupt the other's.
pub open spec fn aux_disjoint(a: Port, b: Port) -> bool {
    ||| a.val + a.spec_arity() <= b.val
    ||| b.val + b.spec_arity() <= a.val
}

/// No rewrite counter is saturated, so a rule may record its step.
pub open spec fn rwts_ok(r: Rewrites) -> bool {
    &&& r.anni < u64::MAX
    &&& r.comm < u64::MAX
    &&& r.eras < u64::MAX
    &&& r.oper < u64::MAX
}

impl Net {
    /// Runtime check for `aux_wires_ok`, used before dispatching a redex.
    pub fn check_aux(&self, a: Port) -> (r: bool)
        requires
            port_ok(a, self@.heap.len()),
            a.spec_arity() <= MAX_ARITY,
        ensures
            r == aux_wires_ok(self@, a),
    {
        let ar = a.arity();
        let len = self.heap.len();
        let mut i: u8 = 1;
        while i <= ar
            invariant
                1 <= i <= ar + 1,
                ar as nat == a.spec_arity(),
                port_ok(a, self@.heap.len()),
                a.spec_arity() <= MAX_ARITY,
                len == self@.heap.len(),
                forall|j: int| 1 <= j < i ==> wire_ok(self@, #[trigger] auxw(a, j)),
            decreases ar + 1 - i,
        {
            let w = a.aux_port(i);
            let c = self.heap.get(w);
            proof {
                assert(w == auxw(a, i as int));
            }
            match c {
                Cell::Free => {
                    proof {
                        assert(!wire_ok(self@, auxw(a, i as int)));
                    }
                    return false;
                },
                Cell::Live(t) => {
                    if t.is_var() && !(t.val < len as u64) {
                        proof {
                            assert(!wire_ok(self@, auxw(a, i as int)));
                        }
                        return false;
                    }
                },
            }
            i = i + 1;
        }
        true
    }
}

/// Resolving one wire pair leaves every other resolvable wire cell
/// resolvable: the freed cells are not `w`, and any cell the step wrote
/// got a live, writable port.
pub proof fn lemma_lww_preserves(n: NetV, w1: u64, w2: u64, w: u64)
    requires
        wire_ok(n, w1),
        wire_ok(n, w2),
        wire_ok(n, w),
        w != w1,
        w != w2,
    ensures
        wire_ok(lww_spec(n, w1, w2), w),
        lww_spec(n, w1, w2).heap.len() == n.heap.len(),
{
}

/// Resolving one wire half to a port leaves every other resolvable wire
/// cell resolvable.
pub proof fn lemma_lwp_preserves(n: NetV, w0: u64, p: Port, w: u64)
    requires
        wire_ok(n, w0),
        var_ok(p, n.heap.len()),
        wire_ok(n, w),
        w != w0,
    ensures
        wire_ok(lwp_spec(n, w0, p), w),
        lwp_spec(n, w0, p).heap.len() == n.heap.len(),
{
}

/// Writing a fresh live cell (with a writable port) leaves every
/// resolvable wire cell resolvable and makes the written cell resolvable.
pub proof fn lemma_lpp_preserves(n: NetV, p: Port, q: Port, w: u64)
    requires
        var_ok(p, n.heap.len()),
        var_ok(q, n.heap.len()),
        wire_ok(n, w),
    ensures
        wire_ok(lpp_spec(n, p, q), w),
        lpp_spec(n, p, q).heap.len() == n.heap.len(),
{
}

// ---------------------------------------------------------------------
// Annihilation
// ---------------------------------------------------------------------

/// The first `k` auxiliary wire pairs of `a` and `b`, cross-linked in
/// order.
pub open spec fn anni_steps(n: NetV, a: Port, b: Port, k: int) -> NetV
    decreases k,
{
    if k <= 0 {
        n
    } else {
        lww_spec(anni_steps(n, a, b, k - 1), auxw(a, k), auxw(b, k))
    }
}

/// Transition of annihilation: count the rewrite, then cross-link the two
/// agents' auxiliary wires pairwise; both agent bodies are consumed cell
/// by cell as the wires resolve.
pub open spec fn anni_spec(n: NetV, a: Port, b: Port) -> NetV {
    anni_steps(n.bump_anni(), a, b, a.spec_arity() as int)
}

/// What annihilation needs of the net: two same-arity agents with disjoint
/// bodies whose auxiliary cells are all live, resolvable wire halves.
pub open spec fn anni_pre(n: NetV, a: Port, b: Port) -> bool {
    &&& a.spec_arity() == b.spec_arity()
    &&& a.spec_arity() <= MAX_ARITY
    &&& port_ok(a, n.heap.len())
    &&& port_ok(b, n.heap.len())
    &&& aux_disjoint(a, b)
    &&& aux_wires_ok(n, a)
    &&& aux_wires_ok(n, b)
}

/// Linking steps never touch the counters.
pub proof fn lemma_anni_steps_rwts(n: NetV, a: Port, b: Port, k: int)
    ensures
        anni_steps(n, a, b, k).rwts == n.rwts,
        anni_steps(n, a, b, k).next == n.next,
    decreases k,
{
    if k > 0 {
        lemma_anni_steps_rwts(n, a, b, k - 1);
    }
}

impl Net {
    /// Annihilates two agents of the same tag and label: their auxiliary
    /// ports are cross-linked pairwise (first with first, second with
    /// second, and so on) and both agent bodies are discarded.
    #[verifier::rlimit(100)]
    #[verifier::spinoff_prover]
    pub fn anni(&mut self, a: Port, b: Port)
        requires
            anni_pre(old(self)@, a, b),
            old(self)@.rwts.anni < u64::MAX,
        ensures
            final(self)@ == anni_spec(old(self)@, a, b),
    {
        let len = self.heap.len();
        self.rwts.anni = self.rwts.anni + 1;
        let ghost n1 = old(self)@.bump_anni();
        let ar = a.arity();
        let mut i: u8 = 1;
        while i <= ar
            invariant
                1 <= i <= ar + 1,
                ar as nat == a.spec_arity(),
                anni_pre(old(self)@, a, b),
                self@ == anni_steps(n1, a, b, i - 1),
                self@.heap.len() == old(self)@.heap.len(),
                len == old(self)@.heap.len(),
                forall|j: int|
                    i <= j <= ar ==> wire_ok(self@, #[trigger] auxw(a, j)) && wire_ok(
                        self@,
                        auxw(b, j),
                    ),
            decreases ar + 1 - i,
        {
            let wa = a.aux_port(i);
            let wb = b.aux_port(i);
            proof {
                assert(wa == auxw(a, i as int));
                assert(wb == auxw(b, i as int));
            }
            let ghost pre = self@;
            self.link_wire_wire(wa, wb);
            proof {
                assert forall|j: int| i + 1 <= j <= ar implies wire_ok(
                    self@,
                    #[trigger] auxw(a, j),
                ) && wire_ok(self@, auxw(b, j)) by {
                    assert(wire_ok(pre, auxw(a, i as int)));
                    assert(wire_ok(pre, auxw(b, i as int)));
                    assert(wire_ok(pre, auxw(a, j)));
                    assert(wire_ok(pre, auxw(b, j)));
                    assert(a.val + j <= a.val + a.spec_arity());
                    assert(auxw(a, j) != auxw(a, i as int));
                    assert(auxw(a, j) != auxw(b, i as int));
                    assert(auxw(b, j) != auxw(a, i as int));
                    assert(auxw(b, j) != auxw(b, i as int));
                    lemma_lww_preserves(pre, auxw(a, i as int), auxw(b, i as int), auxw(a, j));
                    lemma_lww_preserves(pre, auxw(a, i as int), auxw(b, i as int), auxw(b, j));
                }
            }
            i = i + 1;
        }
    }

    /// Annihilates two binary agents: the specialization of `anni` for
    /// arity 2, the overwhelmingly common case.
    pub fn anni2(&mut self, a: Port, b: Port)
        requires
            anni_pre(old(self)@, a, b),
            a.spec_arity() == 2,
            old(self)@.rwts.anni < u64::MAX,
        ensures
            final(self)@ == anni_spec(old(self)@, a, b),
    {
        let _len = self.heap.len();
        self.rwts.anni = self.rwts.anni + 1;
        let ghost n1 = old(self)@.bump_anni();
        let a1 = a.aux_port(1);
        let a2 = a.aux_port(2);
        let b1 = b.aux_port(1);
        let b2 = b.aux_port(2);
        proof {
            assert(wire_ok(old(self)@, auxw(a, 1)));
            assert(wire_ok(old(self)@, auxw(a, 2)));
            assert(wire_ok(old(self)@, auxw(b, 1)));
            assert(wire_ok(old(self)@, auxw(b, 2)));
            assert(a1 == auxw(a, 1) && a2 == auxw(a, 2) && b1 == auxw(b, 1) && b2 == auxw(b, 2));
        }
        let ghost pre = self@;
        self.link_wire_wire(a1, b1);
        proof {
            lemma_lww_preserves(pre, auxw(a, 1), auxw(b, 1), auxw(a, 2));
            lemma_lww_preserves(pre, auxw(a, 1), auxw(b, 1), auxw(b, 2));
        }
        self.link_wire_wire(a2, b2);
        proof {
            assert(anni_steps(n1, a, b, 0) == n1);
            assert(anni_steps(n1, a, b, 1) == lww_spec(n1, auxw(a, 1), auxw(b, 1)));
            assert(anni_steps(n1, a, b, 2) == lww_spec(
                anni_steps(n1, a, b, 1),
                auxw(a, 2),
                auxw(b, 2),
            ));
        }
    }
}

// ---------------------------------------------------------------------
// Commutation
// ---------------------------------------------------------------------

/// The fresh var port standing for `p`'s `i`-th auxiliary slot.
pub open spec fn vp(p: Port, i: int) -> Port {
    Port { tag: Tag::Var, lab: 0u16, val: auxw(p, i) }
}

/// The first `k` auxiliary wires of `b`, each resolved to a copy of the
/// nilary agent `a`.
pub open spec fn comm02_steps(n: NetV, a: Port, b: Port, k: int) -> NetV
    decreases k,
{
    if k <= 0 {
        n
    } else {
        lwp_spec(comm02_steps(n, a, b, k - 1), auxw(b, k), a)
    }
}

/// Transition of nilary commutation: the payload-free agent `a` is copied
/// into each auxiliary wire of `b`, and `b`'s body is consumed.
pub open spec fn comm02_spec(n: NetV, a: Port, b: Port) -> NetV {
    comm02_steps(n.bump_comm(), a, b, b.spec_arity() as int)
}

pub open spec fn comm02_pre(n: NetV, a: Port, b: Port) -> bool {
    &&& a.is_pri()
    &&& a.spec_arity() == 0
    &&& b.spec_arity() <= MAX_ARITY
    &&& port_ok(b, n.heap.len())
    &&& aux_wires_ok(n, b)
}

pub proof fn lemma_comm02_steps_rwts(n: NetV, a: Port, b: Port, k: int)
    ensures
        comm02_steps(n, a, b, k).rwts == n.rwts,
        comm02_steps(n, a, b, k).next == n.next,
    decreases k,
{
    if k > 0 {
        lemma_comm02_steps_rwts(n, a, b, k - 1);
    }
}

/// Whether four fresh binary nodes fit: what binary commutation allocates.
pub open spec fn comm22_fits(n: NetV) -> bool {
    round_up(n.next, 4) + 16 <= n.heap.len()
}

/// Transition of binary commutation: two copies of each agent are
/// allocated, the copies are cross-wired into each other's auxiliary
/// slots, and each original wire is resolved to the principal port of the
/// opposite agent's copy.
pub open spec fn comm22_spec(n: NetV, a: Port, b: Port) -> NetV {
    let n0 = n.bump_comm();
    let (n1, x1) = create_spec(n0, a.tag, a.lab);
    let (n2, x2) = create_spec(n1, a.tag, a.lab);
    let (n3, y1) = create_spec(n2, b.tag, b.lab);
    let (n4, y2) = create_spec(n3, b.tag, b.lab);
    let n5 = lpp_spec(n4, vp(x1, 1), vp(y1, 1));
    let n6 = lpp_spec(n5, vp(x1, 2), vp(y2, 1));
    let n7 = lpp_spec(n6, vp(x2, 1), vp(y1, 2));
    let n8 = lpp_spec(n7, vp(x2, 2), vp(y2, 2));
    let n9 = lwp_spec(n8, auxw(a, 1), y1);
    let n10 = lwp_spec(n9, auxw(a, 2), y2);
    let n11 = lwp_spec(n10, auxw(b, 1), x1);
    lwp_spec(n11, auxw(b, 2), x2)
}

pub open spec fn comm22_pre(n: NetV, a: Port, b: Port) -> bool {
    &&& a.spec_arity() == 2
    &&& b.spec_arity() == 2
    &&& a.is_pri()
    &&& b.is_pri()
    &&& port_ok(a, n.heap.len())
    &&& port_ok(b, n.heap.len())
    &&& aux_disjoint(a, b)
    &&& aux_wires_ok(n, a)
    &&& aux_wires_ok(n, b)
    &&& comm22_fits(n)
}

impl Net {
    /// Commutes a nilary agent `a` (an eraser, a numeral, or another
    /// payload-free principal) past the agent `b`: `a` is duplicated once
    /// per auxiliary port of `b`, without fresh allocation.
    pub fn comm02(&mut self, a: Port, b: Port)
        requires
            comm02_pre(old(self)@, a, b),
            old(self)@.rwts.comm < u64::MAX,
        ensures
            final(self)@ == comm02_spec(old(self)@, a, b),
    {
        let len = self.heap.len();
        self.rwts.comm = self.rwts.comm + 1;
        let ghost n1 = old(self)@.bump_comm();
        let ar = b.arity();
        let mut i: u8 = 1;
        while i <= ar
            invariant
                1 <= i <= ar + 1,
                ar as nat == b.spec_arity(),
                comm02_pre(old(self)@, a, b),
                self@ == comm02_steps(n1, a, b, i - 1),
                self@.heap.len() == old(self)@.heap.len(),
                len == old(self)@.heap.len(),
                forall|j: int| i <= j <= ar ==> wire_ok(self@, #[trigger] auxw(b, j)),
            decreases ar + 1 - i,
        {
            let wb = b.aux_port(i);
            proof {
                assert(wb == auxw(b, i as int));
            }
            let ghost pre = self@;
            self.link_wire_port(wb, a);
            proof {
                assert forall|j: int| i + 1 <= j <= ar implies wire_ok(
                    self@,
                    #[trigger] auxw(b, j),
                ) by {
                    lemma_lwp_preserves(pre, auxw(b, i as int), a, auxw(b, j));
                }
            }
            i = i + 1;
        }
    }

    /// Commutes two binary agents: each is duplicated once per auxiliary
    /// port of the other, and the four copies are threaded through each
    /// other's slots.
    #[verifier::rlimit(50)]
    pub fn comm22(&mut self, a: Port, b: Port)
        requires
            comm22_pre(old(self)@, a, b),
            old(self)@.rwts.comm < u64::MAX,
        ensures
            final(self)@ == comm22_spec(old(self)@, a, b),
    {
        let _len = self.heap.len();
        self.rwts.comm = self.rwts.comm + 1;
        proof {
            old(self).heap.next_nonneg();
            lemma_round_up(old(self)@.next, 4);
            assert(a.tag.spec_align() == 4);
            assert(b.tag.spec_align() == 4);
        }
        let x1 = self.create_node(a.tag, a.lab);
        let x2 = self.create_node(a.tag, a.lab);
        let y1 = self.create_node(b.tag, b.lab);
        let y2 = self.create_node(b.tag, b.lab);
        proof {
            assert(wire_ok(self@, auxw(a, 1)));
            assert(wire_ok(self@, auxw(a, 2)));
            assert(wire_ok(self@, auxw(b, 1)));
            assert(wire_ok(self@, auxw(b, 2)));
        }
        let ghost s4 = self@;
        self.link_port_port(Port::new_var(x1.val + 1), Port::new_var(y1.val + 1));
        let ghost s5 = self@;
        proof {
            lemma_lpp_preserves(s4, vp(x1, 1), vp(y1, 1), auxw(a, 1));
            lemma_lpp_preserves(s4, vp(x1, 1), vp(y1, 1), auxw(a, 2));
            lemma_lpp_preserves(s4, vp(x1, 1), vp(y1, 1), auxw(b, 1));
            lemma_lpp_preserves(s4, vp(x1, 1), vp(y1, 1), auxw(b, 2));
        }
        self.link_port_port(Port::new_var(x1.val + 2), Port::new_var(y2.val + 1));
        let ghost s6 = self@;
        proof {
            lemma_lpp_preserves(s5, vp(x1, 2), vp(y2, 1), auxw(a, 1));
            lemma_lpp_preserves(s5, vp(x1, 2), vp(y2, 1), auxw(a, 2));
            lemma_lpp_preserves(s5, vp(x1, 2), vp(y2, 1), auxw(b, 1));
            lemma_lpp_preserves(s5, vp(x1, 2), vp(y2, 1), auxw(b, 2));
        }
        self.link_port_port(Port::new_var(x2.val + 1), Port::new_var(y1.val + 2));
        let ghost s7 = self@;
        proof {
            lemma_lpp_preserves(s6, vp(x2, 1), vp(y1, 2), auxw(a, 1));
            lemma_lpp_preserves(s6, vp(x2, 1), vp(y1, 2), auxw(a, 2));
            lemma_lpp_preserves(s6, vp(x2, 1), vp(y1, 2), auxw(b, 1));
            lemma_lpp_preserves(s6, vp(x2, 1), vp(y1, 2), auxw(b, 2));
        }
        self.link_port_port(Port::new_var(x2.val + 2), Port::new_var(y2.val + 2));
        let ghost s8 = self@;
        proof {
            lemma_lpp_preserves(s7, vp(x2, 2), vp(y2, 2), auxw(a, 1));
            lemma_lpp_preserves(s7, vp(x2, 2), vp(y2, 2), auxw(a, 2));
            lemma_lpp_preserves(s7, vp(x2, 2), vp(y2, 2), auxw(b, 1));
            lemma_lpp_preserves(s7, vp(x2, 2), vp(y2, 2), auxw(b, 2));
        }
        let wa1 = a.aux_port(1);
        let wa2 = a.aux_port(2);
        let wb1 = b.aux_port(1);
        let wb2 = b.aux_port(2);
        self.link_wire_port(wa1, y1);
        let ghost s9 = self@;
        proof {
            lemma_lwp_preserves(s8, auxw(a, 1), y1, auxw(a, 2));
            lemma_lwp_preserves(s8, auxw(a, 1), y1, auxw(b, 1));
            lemma_lwp_preserves(s8, auxw(a, 1), y1, auxw(b, 2));
        }
        self.link_wire_port(wa2, y2);
        let ghost s10 = self@;
        proof {
            lemma_lwp_preserves(s9, auxw(a, 2), y2, auxw(b, 1));
            lemma_lwp_preserves(s9, auxw(a, 2), y2, auxw(b, 2));
        }
        self.link_wire_port(wb1, x1);
        proof {
            lemma_lwp_preserves(s10, auxw(b, 1), x1, auxw(b, 2));
        }
        self.link_wire_port(wb2, x2);
    }
}

// ---------------------------------------------------------------------
// Numeric fold
// ---------------------------------------------------------------------

/// Transition of the operator rule. When the first auxiliary wire already
/// binds a numeral, the operator folds: the numeral cell is consumed, the
/// operator is applied, and the result flows out of the second auxiliary
/// wire, with no allocation. Otherwise the operand has not arrived yet:
/// a fresh node with the swapped operator is built, the known numeral is
/// stored as its first operand, and evaluation resumes when the missing
/// operand arrives.
pub open spec fn op_num_spec(n: NetV, a: Port, b: Port) -> NetV {
    let a1 = auxw(a, 1);
    let a2 = auxw(a, 2);
    let t = n.heap[a1 as int].port();
    let op = spec_op_at(a.lab);
    if t.is_num() {
        let out = op.spec_eval(b.val, t.val);
        let n1 = n.bump_oper();
        let n2 = NetV { heap: n1.heap.update(a1 as int, Cell::Free), ..n1 };
        lwp_spec(n2, a2, Port { tag: Tag::Num, lab: 0u16, val: out })
    } else {
        let (n1, x) = create_spec(n, Tag::Op, op.spec_swap().spec_lab());
        let n2 = lpp_spec(n1, vp(x, 1), b);
        let n3 = lwp_spec(n2, auxw(a, 2), vp(x, 2));
        lwp_spec(n3, auxw(a, 1), x)
    }
}

pub open spec fn op_num_pre(n: NetV, a: Port, b: Port) -> bool {
    &&& a.tag is Op
    &&& b.tag is Num
    &&& port_ok(a, n.heap.len())
    &&& aux_wires_ok(n, a)
    &&& (!n.heap[auxw(a, 1) as int].port().is_num() ==> node_fits(n, Tag::Op))
}

impl Net {
    /// Interacts a binary operator agent `a` with the numeral `b` on its
    /// principal port.
    pub fn op_num(&mut self, a: Port, b: Port)
        requires
            op_num_pre(old(self)@, a, b),
            old(self)@.rwts.oper < u64::MAX,
        ensures
            final(self)@ == op_num_spec(old(self)@, a, b),
    {
        let _len = self.heap.len();
        let a1 = a.aux_port(1);
        let a2 = a.aux_port(2);
        proof {
            assert(a1 == auxw(a, 1) && a2 == auxw(a, 2));
            assert(wire_ok(self@, auxw(a, 1)));
            assert(wire_ok(self@, auxw(a, 2)));
        }
        let t = self.heap.get(a1).port();
        let op = match op_of_lab(a.lab) {
            Some(o) => o,
            None => IntOp::Add,
        };
        if t.is_num() {
            self.rwts.oper = self.rwts.oper + 1;
            let out = op.eval(b.num(), t.num());
            self.heap.set(a1, Cell::Free);
            self.link_wire_port(a2, Port::new_num(out));
        } else {
            proof {
                assert(Tag::Op.spec_align() == 4);
            }
            let x = self.create_node(Tag::Op, op.swap().lab());
            let ghost s1 = self@;
            self.link_port_port(Port::new_var(x.val + 1), b);
            let ghost s2 = self@;
            proof {
                lemma_lpp_preserves(s1, vp(x, 1), b, auxw(a, 1));
                lemma_lpp_preserves(s1, vp(x, 1), b, auxw(a, 2));
            }
            self.link_wire_port(a2, Port::new_var(x.val + 2));
            proof {
                lemma_lwp_preserves(s2, auxw(a, 2), vp(x, 2), auxw(a, 1));
            }
            self.link_wire_port(a1, x);
        }
    }
}

// ---------------------------------------------------------------------
// Pattern match
// ---------------------------------------------------------------------

/// How many fresh cells the match rule needs for this numeral.
pub open spec fn mat_fits(n: NetV, b: Port) -> bool {
    if b.val == 0 {
        round_up(n.next, 4) + 4 <= n.heap.len()
    } else {
        round_up(n.next, 4) + 8 <= n.heap.len()
    }
}

/// Transition of the match rule. On numeral zero, a fresh pair node is
/// built whose first slot takes the match's result wire and whose second
/// is erased, so the zero branch is selected and the successor branch is
/// discarded. On a positive numeral, a second pair carries the
/// decremented numeral into the successor branch, and the zero branch is
/// erased.
pub open spec fn mat_num_spec(n: NetV, a: Port, b: Port) -> NetV {
    let era = Port { tag: Tag::Era, lab: 0u16, val: 0u64 };
    let n0 = n.bump_oper();
    if b.val == 0 {
        let (n1, x) = create_spec(n0, Tag::Ctr(2), 0u16);
        let n2 = lpp_spec(n1, vp(x, 2), era);
        let n3 = lwp_spec(n2, auxw(a, 2), vp(x, 1));
        lwp_spec(n3, auxw(a, 1), x)
    } else {
        let (n1, x) = create_spec(n0, Tag::Ctr(2), 0u16);
        let (n2, y) = create_spec(n1, Tag::Ctr(2), 0u16);
        let n3 = lpp_spec(n2, vp(x, 1), era);
        let n4 = lpp_spec(n3, vp(x, 2), y);
        let n5 = lpp_spec(n4, vp(y, 1), Port { tag: Tag::Num, lab: 0u16, val: (b.val - 1) as u64 });
        let n6 = lwp_spec(n5, auxw(a, 2), vp(y, 2));
        lwp_spec(n6, auxw(a, 1), x)
    }
}

pub open spec fn mat_num_pre(n: NetV, a: Port, b: Port) -> bool {
    &&& a.tag is Mat
    &&& b.tag is Num
    &&& port_ok(a, n.heap.len())
    &&& aux_wires_ok(n, a)
    &&& mat_fits(n, b)
}

impl Net {
    /// Interacts a numeral pattern-match agent `a` with the numeral `b` on
    /// its principal port, selecting the zero branch or feeding the
    /// decremented numeral to the successor branch.
    #[verifier::rlimit(50)]
    pub fn mat_num(&mut self, a: Port, b: Port)
        requires
            mat_num_pre(old(self)@, a, b),
            old(self)@.rwts.oper < u64::MAX,
        ensures
            final(self)@ == mat_num_spec(old(self)@, a, b),
    {
        let _len = self.heap.len();
        let a1 = a.aux_port(1);
        let a2 = a.aux_port(2);
        proof {
            assert(a1 == auxw(a, 1) && a2 == auxw(a, 2));
            assert(wire_ok(self@, auxw(a, 1)));
            assert(wire_ok(self@, auxw(a, 2)));
            assert(Tag::Ctr(2).spec_align() == 4);
            old(self).heap.next_nonneg();
            lemma_round_up(old(self)@.next, 4);
        }
        self.rwts.oper = self.rwts.oper + 1;
        let era = Port::new_era();
        if b.num() == 0 {
            let x = self.create_node(Tag::Ctr(2), 0);
            let ghost s1 = self@;
            self.link_port_port(Port::new_var(x.val + 2), era);
            let ghost s2 = self@;
            proof {
                lemma_lpp_preserves(s1, vp(x, 2), era, auxw(a, 1));
                lemma_lpp_preserves(s1, vp(x, 2), era, auxw(a, 2));
            }
            self.link_wire_port(a2, Port::new_var(x.val + 1));
            proof {
                lemma_lwp_preserves(s2, auxw(a, 2), vp(x, 1), auxw(a, 1));
            }
            self.link_wire_port(a1, x);
        } else {
            let x = self.create_node(Tag::Ctr(2), 0);
            let y = self.create_node(Tag::Ctr(2), 0);
            let ghost s1 = self@;
            self.link_port_port(Port::new_var(x.val + 1), era);
            let ghost s2 = self@;
            proof {
                lemma_lpp_preserves(s1, vp(x, 1), era, auxw(a, 1));
                lemma_lpp_preserves(s1, vp(x, 1), era, auxw(a, 2));
            }
            self.link_port_port(Port::new_var(x.val + 2), y);
            let ghost s3 = self@;
            proof {
                lemma_lpp_preserves(s2, vp(x, 2), y, auxw(a, 1));
                lemma_lpp_preserves(s2, vp(x, 2), y, auxw(a, 2));
            }
            self.link_port_port(Port::new_var(y.val + 1), Port::new_num(b.num() - 1));
            let ghost s4 = self@;
            proof {
                lemma_lpp_preserves(s3, vp(y, 1), Port { tag: Tag::Num, lab: 0u16, val: (b.val - 1) as u64 }, auxw(a, 1));
                lemma_lpp_preserves(s3, vp(y, 1), Port { tag: Tag::Num, lab: 0u16, val: (b.val - 1) as u64 }, auxw(a, 2));
            }
            self.link_wire_port(a2, Port::new_var(y.val + 2));
            proof {
                lemma_lwp_preserves(s4, auxw(a, 2), vp(y, 2), auxw(a, 1));
            }
            self.link_wire_port(a1, x);
        }
    }
}

// ---------------------------------------------------------------------
// Generalized commutation
// ---------------------------------------------------------------------

/// The bump pointer after `k` nodes of alignment `al` have been
/// allocated in a row.
pub open spec fn next_after(next: int, al: int, k: int) -> int
    decreases k,
{
    if k <= 0 {
        next
    } else {
        round_up(next_after(next, al, k - 1), al) + al
    }
}

/// Whether a row of `k` nodes of alignment `al` fits below `len`.
pub open spec fn creates_fit(next: int, len: nat, al: int, k: int) -> bool
    decreases k,
{
    if k <= 0 {
        true
    } else {
        creates_fit(next, len, al, k - 1) && round_up(next_after(next, al, k - 1), al) + al <= len
    }
}

/// The principal port of the `j`-th (0-based) copy in a row of nodes
/// allocated from `next`.
pub open spec fn copy_port(next: int, tag: Tag, lab: u16, j: int) -> Port {
    Port {
        tag,
        lab,
        val: (round_up(next_after(next, tag.spec_align() as int, j), tag.spec_align() as int)) as u64,
    }
}

/// If a whole row fits, each step of it fits.
pub proof fn lemma_creates_fit_step(next: int, len: nat, al: int, k: int, j: int)
    requires
        creates_fit(next, len, al, k),
        0 <= j < k,
    ensures
        round_up(next_after(next, al, j), al) + al <= len,
    decreases k,
{
    if j < k - 1 {
        lemma_creates_fit_step(next, len, al, k - 1, j);
    }
}

/// The first `k` cross-links of commutation, in row-major order: the
/// `bi`-th auxiliary slot of the copy `avs[ai]` is wired to the `ai`-th
/// auxiliary slot of the copy `bs[bi]`.
pub open spec fn cross_spec(n: NetV, avs: Seq<Port>, bs: Seq<Port>, ba: int, k: int) -> NetV
    decreases k,
{
    if k <= 0 {
        n
    } else {
        let j = k - 1;
        let bi = j / ba;
        let ai = j % ba;
        lpp_spec(cross_spec(n, avs, bs, ba, k - 1), vp(avs[ai], bi + 1), vp(bs[bi], ai + 1))
    }
}

/// The first `k` original wires of agent `p`, each resolved to the
/// principal port of the corresponding fresh copy.
pub open spec fn outs_spec(n: NetV, p: Port, qs: Seq<Port>, k: int) -> NetV
    decreases k,
{
    if k <= 0 {
        n
    } else {
        lwp_spec(outs_spec(n, p, qs, k - 1), auxw(p, k), qs[k - 1])
    }
}

/// Whether the copies that commuting `a` and `b` needs — one copy of `b`
/// per auxiliary port of `a` and one copy of `a` per auxiliary port of
/// `b` — fit in the heap's remaining space.
pub open spec fn comm_fits(n: NetV, a: Port, b: Port) -> bool {
    let al_a = a.tag.spec_align() as int;
    let al_b = b.tag.spec_align() as int;
    let aa = a.spec_arity() as int;
    let ba = b.spec_arity() as int;
    &&& creates_fit(n.next, n.heap.len(), al_b, aa)
    &&& creates_fit(next_after(n.next, al_b, aa), n.heap.len(), al_a, ba)
}

/// Transition of generalized commutation for mixed arities: allocate the
/// copies, cross-wire them through each other's auxiliary slots, and
/// resolve each original wire to the principal of the opposite agent's
/// copy.
pub open spec fn comm_spec(n: NetV, a: Port, b: Port) -> NetV {
    let al_a = a.tag.spec_align() as int;
    let al_b = b.tag.spec_align() as int;
    let aa = a.spec_arity() as int;
    let ba = b.spec_arity() as int;
    let n0 = n.bump_comm();
    let next_b = next_after(n.next, al_b, aa);
    let n1 = NetV { next: next_after(next_b, al_a, ba), ..n0 };
    let bs = Seq::new(aa as nat, |i: int| copy_port(n.next, b.tag, b.lab, i));
    let avs = Seq::new(ba as nat, |i: int| copy_port(next_b, a.tag, a.lab, i));
    let n2 = cross_spec(n1, avs, bs, ba, aa * ba);
    let n3 = outs_spec(n2, a, bs, aa);
    outs_spec(n3, b, avs, ba)
}

pub open spec fn comm_pre(n: NetV, a: Port, b: Port) -> bool {
    &&& a.is_pri()
    &&& b.is_pri()
    &&& 1 <= a.spec_arity() <= MAX_ARITY
    &&& 1 <= b.spec_arity() <= MAX_ARITY
    &&& port_ok(a, n.heap.len())
    &&& port_ok(b, n.heap.len())
    &&& aux_disjoint(a, b)
    &&& aux_wires_ok(n, a)
    &&& aux_wires_ok(n, b)
    &&& comm_fits(n, a, b)
}

pub proof fn lemma_cross_spec_rwts(n: NetV, avs: Seq<Port>, bs: Seq<Port>, ba: int, k: int)
    ensures
        cross_spec(n, avs, bs, ba, k).rwts == n.rwts,
        cross_spec(n, avs, bs, ba, k).next == n.next,
    decreases k,
{
    if k > 0 {
        lemma_cross_spec_rwts(n, avs, bs, ba, k - 1);
    }
}

pub proof fn lemma_outs_spec_rwts(n: NetV, p: Port, qs: Seq<Port>, k: int)
    ensures
        outs_spec(n, p, qs, k).rwts == n.rwts,
        outs_spec(n, p, qs, k).next == n.next,
    decreases k,
{
    if k > 0 {
        lemma_outs_spec_rwts(n, p, qs, k - 1);
    }
}

impl Net {
    /// Runtime check for `comm_fits`: simulates the allocation row of both
    /// copy sets against the bump pointer.
    pub fn check_comm_fits(&self, a: Port, b: Port) -> (r: bool)
        requires
            1 <= a.spec_arity() <= MAX_ARITY,
            1 <= b.spec_arity() <= MAX_ARITY,
        ensures
            r == comm_fits(self@, a, b),
    {
        let len = self.heap.len() as u64;
        let start = self.heap.bump() as u64;
        let al_b = b.tag.align() as u64;
        let aa = a.tag.arity();
        if start > len {
            proof {
                if comm_fits(self@, a, b) {
                    self.heap.next_nonneg();
                    lemma_creates_fit_step(
                        self@.next,
                        self@.heap.len(),
                        al_b as int,
                        a.spec_arity() as int,
                        0,
                    );
                    crate::heap::lemma_round_up(self@.next, al_b as int);
                }
            }
            return false;
        }
        match sim_creates(start, len, al_b, aa) {
            None => false,
            Some(next_b) => {
                let al_a = a.tag.align() as u64;
                let ba = b.tag.arity();
                match sim_creates(next_b, len, al_a, ba) {
                    None => false,
                    Some(_) => true,
                }
            },
        }
    }
}

/// Simulates `k` aligned allocations from `next`: the bump pointer after
/// them, or `None` as soon as one does not fit below `len`.
pub fn sim_creates(next: u64, len: u64, al: u64, k: u8) -> (r: Option<u64>)
    requires
        1 <= al <= 16,
    ensures
        match r {
            Some(v) => creates_fit(next as int, len as nat, al as int, k as int) && v
                == next_after(next as int, al as int, k as int),
            None => !creates_fit(next as int, len as nat, al as int, k as int),
        },
{
    let mut v = next;
    let mut i: u8 = 0;
    while i < k
        invariant
            0 <= i <= k,
            1 <= al <= 16,
            v == next_after(next as int, al as int, i as int),
            i > 0 ==> v <= len,
            creates_fit(next as int, len as nat, al as int, i as int),
        decreases k - i,
    {
        let r = v % al;
        let pad = if r == 0 { 0u64 } else { al - r };
        if pad > len || v > len - pad || al > len - pad - v {
            proof {
                assert(!creates_fit(next as int, len as nat, al as int, k as int)) by {
                    if creates_fit(next as int, len as nat, al as int, k as int) {
                        lemma_creates_fit_step(
                            next as int,
                            len as nat,
                            al as int,
                            k as int,
                            i as int,
                        );
                    }
                }
            }
            return None;
        }
        v = v + pad + al;
        i = i + 1;
    }
    Some(v)
}

impl Net {
    /// Commutes two agents of arbitrary arities: each agent is duplicated
    /// once per auxiliary port of the other, the copies are cross-wired
    /// through each other's auxiliary slots, and each original wire
    /// resolves to the principal port of the opposite agent's copy.
    #[verifier::rlimit(100)]
    #[verifier::spinoff_prover]
    pub fn comm(&mut self, a: Port, b: Port)
        requires
            comm_pre(old(self)@, a, b),
            old(self)@.rwts.comm < u64::MAX,
        ensures
            final(self)@ == comm_spec(old(self)@, a, b),
    {
        let len = self.heap.len();
        let ghost n_orig = old(self)@;
        self.rwts.comm = self.rwts.comm + 1;
        let ghost n0 = n_orig.bump_comm();
        let aa = a.arity();
        let ba = b.arity();
        let al_b = b.tag.align();
        let al_a = a.tag.align();
        let ghost next_b = next_after(n_orig.next, al_b as int, aa as int);

        // one copy of b per auxiliary port of a
        let mut bs: Vec<Port> = Vec::new();
        let mut i: u8 = 0;
        while i < aa
            invariant
                0 <= i <= aa,
                aa as nat == a.spec_arity(),
                ba as nat == b.spec_arity(),
                al_b as nat == b.tag.spec_align(),
                comm_pre(n_orig, a, b),
                len == n_orig.heap.len(),
                self@.heap == n_orig.heap,
                self@.rdex == n_orig.rdex,
                self@.rwts == n0.rwts,
                self@.next == next_after(n_orig.next, al_b as int, i as int),
                bs@.len() == i,
                forall|j: int| 0 <= j < i ==> bs@[j] == copy_port(n_orig.next, b.tag, b.lab, j),
                forall|j: int| 0 <= j < i ==> (#[trigger] bs@[j]).val + ba < len,
            decreases aa - i,
        {
            proof {
                lemma_creates_fit_step(
                    n_orig.next,
                    n_orig.heap.len(),
                    al_b as int,
                    aa as int,
                    i as int,
                );
            }
            let p = self.create_node(b.tag, b.lab);
            bs.push(p);
            i = i + 1;
        }

        // one copy of a per auxiliary port of b
        let mut avs: Vec<Port> = Vec::new();
        let mut i1: u8 = 0;
        while i1 < ba
            invariant
                0 <= i1 <= ba,
                aa as nat == a.spec_arity(),
                ba as nat == b.spec_arity(),
                al_a as nat == a.tag.spec_align(),
                al_b as nat == b.tag.spec_align(),
                comm_pre(n_orig, a, b),
                len == n_orig.heap.len(),
                next_b == next_after(n_orig.next, al_b as int, aa as int),
                self@.heap == n_orig.heap,
                self@.rdex == n_orig.rdex,
                self@.rwts == n0.rwts,
                self@.next == next_after(next_b, al_a as int, i1 as int),
                avs@.len() == i1,
                forall|j: int| 0 <= j < i1 ==> avs@[j] == copy_port(next_b, a.tag, a.lab, j),
                forall|j: int| 0 <= j < i1 ==> (#[trigger] avs@[j]).val + aa < len,
            decreases ba - i1,
        {
            proof {
                lemma_creates_fit_step(next_b, n_orig.heap.len(), al_a as int, ba as int, i1 as int);
            }
            let p = self.create_node(a.tag, a.lab);
            avs.push(p);
            i1 = i1 + 1;
        }

        let ghost n1 = NetV { next: next_after(next_b, al_a as int, ba as int), ..n0 };
        let ghost bsv = bs@;
        let ghost avsv = avs@;
        proof {
            assert(self@ =~= n1);
            assert(bsv =~= Seq::new(
                a.spec_arity(),
                |j: int| copy_port(n_orig.next, b.tag, b.lab, j),
            ));
            assert(avsv =~= Seq::new(b.spec_arity(), |j: int| copy_port(next_b, a.tag, a.lab, j)));
            assert forall|i2: int| 1 <= i2 <= aa implies wire_ok(self@, #[trigger] auxw(a, i2)) by {
                assert(wire_ok(n_orig, auxw(a, i2)));
            }
            assert forall|i2: int| 1 <= i2 <= ba implies wire_ok(self@, #[trigger] auxw(b, i2)) by {
                assert(wire_ok(n_orig, auxw(b, i2)));
            }
        }

        // cross-wire the copies through each other's auxiliary slots
        proof {
            assert(aa <= 8 && ba <= 8);
            assert((aa as u16) * (ba as u16) <= 64) by (nonlinear_arith)
                requires aa <= 8 && ba <= 8;
        }
        let total: u16 = (aa as u16) * (ba as u16);
        let mut k: u16 = 0;
        while k < total
            invariant
                0 <= k <= total,
                total == (aa as u16) * (ba as u16),
                aa as nat == a.spec_arity(),
                ba as nat == b.spec_arity(),
                comm_pre(n_orig, a, b),
                len == n_orig.heap.len(),
                bsv == bs@,
                avsv == avs@,
                bsv.len() == aa,
                avsv.len() == ba,
                forall|j: int| 0 <= j < aa ==> (#[trigger] bsv[j]).val + ba < len && bsv[j].tag == b.tag,
                forall|j: int| 0 <= j < ba ==> (#[trigger] avsv[j]).val + aa < len && avsv[j].tag == a.tag,
                self@ == cross_spec(n1, avsv, bsv, ba as int, k as int),
                self@.heap.len() == len,
                forall|i2: int| 1 <= i2 <= aa ==> wire_ok(self@, #[trigger] auxw(a, i2)),
                forall|i2: int| 1 <= i2 <= ba ==> wire_ok(self@, #[trigger] auxw(b, i2)),
            decreases total - k,
        {
            proof {
                assert(k / (ba as u16) < aa as u16 && total == aa as u16 * ba as u16)
                    by (nonlinear_arith)
                    requires
                        k < total,
                        total == (aa as u16) * (ba as u16),
                        1 <= ba as u16,
                        1 <= aa as u16,
                ;
            }
            let bi = k / (ba as u16);
            let ai = k % (ba as u16);
            let pa = avs[ai as usize];
            let pb = bs[bi as usize];
            let va = Port::new_var(pa.val + (bi as u64 + 1));
            let vb = Port::new_var(pb.val + (ai as u64 + 1));
            let ghost pre = self@;
            self.link_port_port(va, vb);
            proof {
                assert(va == vp(avsv[ai as int], bi + 1));
                assert(vb == vp(bsv[bi as int], ai + 1));
                assert(self@ == cross_spec(n1, avsv, bsv, ba as int, k + 1));
                assert forall|i2: int| 1 <= i2 <= aa implies wire_ok(
                    self@,
                    #[trigger] auxw(a, i2),
                ) by {
                    lemma_lpp_preserves(pre, va, vb, auxw(a, i2));
                }
                assert forall|i2: int| 1 <= i2 <= ba implies wire_ok(
                    self@,
                    #[trigger] auxw(b, i2),
                ) by {
                    lemma_lpp_preserves(pre, va, vb, auxw(b, i2));
                }
            }
            k = k + 1;
        }

        // resolve the originals' wires to the copies' principal ports
        let ghost n2 = cross_spec(n1, avsv, bsv, ba as int, (aa as u16 * ba as u16) as int);
        let mut i3: u8 = 1;
        while i3 <= aa
            invariant
                1 <= i3 <= aa + 1,
                aa as nat == a.spec_arity(),
                ba as nat == b.spec_arity(),
                comm_pre(n_orig, a, b),
                len == n_orig.heap.len(),
                bsv == bs@,
                avsv == avs@,
                bsv.len() == aa,
                avsv.len() == ba,
                forall|j: int| 0 <= j < aa ==> (#[trigger] bsv[j]).tag == b.tag,
                forall|j: int| 0 <= j < ba ==> (#[trigger] avsv[j]).tag == a.tag,
                self@ == outs_spec(n2, a, bsv, i3 - 1),
                self@.heap.len() == len,
                forall|i2: int| i3 <= i2 <= aa ==> wire_ok(self@, #[trigger] auxw(a, i2)),
                forall|i2: int| 1 <= i2 <= ba ==> wire_ok(self@, #[trigger] auxw(b, i2)),
            decreases aa + 1 - i3,
        {
            let w = a.aux_port(i3);
            let p = bs[(i3 - 1) as usize];
            proof {
                assert(w == auxw(a, i3 as int));
            }
            let ghost pre = self@;
            self.link_wire_port(w, p);
            proof {
                assert(self@ == outs_spec(n2, a, bsv, i3 as int));
                assert forall|i2: int| i3 + 1 <= i2 <= aa implies wire_ok(
                    self@,
                    #[trigger] auxw(a, i2),
                ) by {
                    lemma_lwp_preserves(pre, auxw(a, i3 as int), p, auxw(a, i2));
                }
                assert forall|i2: int| 1 <= i2 <= ba implies wire_ok(
                    self@,
                    #[trigger] auxw(b, i2),
                ) by {
                    lemma_lwp_preserves(pre, auxw(a, i3 as int), p, auxw(b, i2));
                }
            }
            i3 = i3 + 1;
        }

        let ghost n3 = outs_spec(n2, a, bsv, aa as int);
        let mut i4: u8 = 1;
        while i4 <= ba
            invariant
                1 <= i4 <= ba + 1,
                aa as nat == a.spec_arity(),
                ba as nat == b.spec_arity(),
                comm_pre(n_orig, a, b),
                len == n_orig.heap.len(),
                avsv == avs@,
                avsv.len() == ba,
                forall|j: int| 0 <= j < ba ==> (#[trigger] avsv[j]).tag == a.tag,
                self@ == outs_spec(n3, b, avsv, i4 - 1),
                self@.heap.len() == len,
                forall|i2: int| i4 <= i2 <= ba ==> wire_ok(self@, #[trigger] auxw(b, i2)),
            decreases ba + 1 - i4,
        {
            let w = b.aux_port(i4);
            let p = avs[(i4 - 1) as usize];
            proof {
                assert(w == auxw(b, i4 as int));
            }
            let ghost pre = self@;
            self.link_wire_port(w, p);
            proof {
                assert(self@ == outs_spec(n3, b, avsv, i4 as int));
                assert forall|i2: int| i4 + 1 <= i2 <= ba implies wire_ok(
                    self@,
                    #[trigger] auxw(b, i2),
                ) by {
                    lemma_lwp_preserves(pre, auxw(b, i4 as int), p, auxw(b, i2));
                }
            }
            i4 = i4 + 1;
        }
        proof {
            assert(bsv =~= Seq::new(
                a.spec_arity(),
                |j: int| copy_port(n_orig.next, b.tag, b.lab, j),
            ));
            assert(avsv =~= Seq::new(b.spec_arity(), |j: int| copy_port(next_b, a.tag, a.lab, j)));
        }
    }
}

// ---------------------------------------------------------------------
// Dispatch
// ---------------------------------------------------------------------

/// Two agents that annihilate: same tag and label for constructors, same
/// operator for arithmetic agents, and any two match agents.
pub open spec fn anni_pair(a: Port, b: Port) -> bool {
    ||| (a.tag == b.tag && a.lab == b.lab && a.tag is Ctr)
    ||| (a.tag is Op && b.tag is Op && a.lab == b.lab)
    ||| (a.tag is Mat && b.tag is Mat)
}

/// Tag pairs whose interaction is deliberately left open as an extension
/// point: the algebraic-constructor field distribution, same-label
/// algebraic pairs, mismatched operator pairs, and the specialized
/// match-on-pair step. Dispatching one of these fails loudly instead of
/// guessing a binding order.
pub open spec fn unsupported_pair(a: Port, b: Port) -> bool {
    ||| ((a.tag is Adt || a.tag is AdtZ) && b.tag is Ctr && a.lab == b.lab)
    ||| (a.tag is Ctr && (b.tag is Adt || b.tag is AdtZ) && a.lab == b.lab)
    ||| ((a.tag is Adt || a.tag is AdtZ) && (b.tag is Adt || b.tag is AdtZ) && a.lab == b.lab)
    ||| (a.tag is Op && b.tag is Op && a.lab != b.lab)
    ||| (a.tag is Ctr && b.tag is Mat && a.lab == 0)
    ||| (a.tag is Mat && b.tag is Ctr && b.lab == 0)
}

/// What, if anything, is wrong with dispatching the redex `(a, b)` on this
/// net: a contract violation (wire or redirection ports, out-of-range
/// locations, consumed cells, overlapping bodies, an unknown definition
/// id), exhaustion of the heap, or an interaction left open. `None` means
/// the redex may be dispatched.
pub open spec fn interact_err(n: NetV, book: crate::def::Book, a: Port, b: Port) -> Option<
    NetError,
> {
    let len = n.heap.len();
    if !a.is_pri() || !b.is_pri() {
        Some(NetError::ContractViolation)
    } else if !port_ok(a, len) || !port_ok(b, len) {
        Some(NetError::ContractViolation)
    } else if a.is_ref() && !b.is_era() {
        if a.val < book.spec_defs().len() {
            if crate::def::call_fits(n, book.spec_defs()[a.val as int]) {
                None
            } else {
                Some(NetError::AllocExhausted)
            }
        } else {
            Some(NetError::ContractViolation)
        }
    } else if b.is_ref() && !a.is_era() {
        if b.val < book.spec_defs().len() {
            if crate::def::call_fits(n, book.spec_defs()[b.val as int]) {
                None
            } else {
                Some(NetError::AllocExhausted)
            }
        } else {
            Some(NetError::ContractViolation)
        }
    } else if a.is_nil() && b.is_nil() {
        None
    } else if anni_pair(a, b) {
        if aux_wires_ok(n, a) && aux_wires_ok(n, b) && aux_disjoint(a, b) {
            None
        } else {
            Some(NetError::ContractViolation)
        }
    } else if unsupported_pair(a, b) {
        Some(NetError::Unsupported)
    } else if a.tag is Op && b.tag is Num {
        if aux_wires_ok(n, a) {
            if n.heap[auxw(a, 1) as int].port().is_num() || node_fits(n, Tag::Op) {
                None
            } else {
                Some(NetError::AllocExhausted)
            }
        } else {
            Some(NetError::ContractViolation)
        }
    } else if a.tag is Num && b.tag is Op {
        if aux_wires_ok(n, b) {
            if n.heap[auxw(b, 1) as int].port().is_num() || node_fits(n, Tag::Op) {
                None
            } else {
                Some(NetError::AllocExhausted)
            }
        } else {
            Some(NetError::ContractViolation)
        }
    } else if a.tag is Mat && b.tag is Num {
        if aux_wires_ok(n, a) {
            if mat_fits(n, b) {
                None
            } else {
                Some(NetError::AllocExhausted)
            }
        } else {
            Some(NetError::ContractViolation)
        }
    } else if a.tag is Num && b.tag is Mat {
        if aux_wires_ok(n, b) {
            if mat_fits(n, a) {
                None
            } else {
                Some(NetError::AllocExhausted)
            }
        } else {
            Some(NetError::ContractViolation)
        }
    } else if a.spec_arity() == 0 {
        if aux_wires_ok(n, b) && b.spec_arity() <= MAX_ARITY {
            None
        } else {
            Some(NetError::ContractViolation)
        }
    } else if b.spec_arity() == 0 {
        if aux_wires_ok(n, a) && a.spec_arity() <= MAX_ARITY {
            None
        } else {
            Some(NetError::ContractViolation)
        }
    } else if a.spec_arity() == 2 && b.spec_arity() == 2 {
        if aux_wires_ok(n, a) && aux_wires_ok(n, b) && aux_disjoint(a, b) {
            if comm22_fits(n) {
                None
            } else {
                Some(NetError::AllocExhausted)
            }
        } else {
            Some(NetError::ContractViolation)
        }
    } else {
        if aux_wires_ok(n, a) && aux_wires_ok(n, b) && aux_disjoint(a, b) {
            if comm_fits(n, a, b) {
                None
            } else {
                Some(NetError::AllocExhausted)
            }
        } else {
            Some(NetError::ContractViolation)
        }
    }
}

/// Transition of one dispatched interaction, defined over the same case
/// analysis as `interact_err`; it is only meaningful where `interact_err`
/// is `None`.
pub open spec fn interact_spec(n: NetV, book: crate::def::Book, a: Port, b: Port) -> NetV {
    if a.is_ref() && !b.is_era() {
        crate::def::call_spec(n, book.spec_defs()[a.val as int], b)
    } else if b.is_ref() && !a.is_era() {
        crate::def::call_spec(n, book.spec_defs()[b.val as int], a)
    } else if a.is_nil() && b.is_nil() {
        n.bump_eras()
    } else if anni_pair(a, b) {
        anni_spec(n, a, b)
    } else if unsupported_pair(a, b) {
        n
    } else if a.tag is Op && b.tag is Num {
        op_num_spec(n, a, b)
    } else if a.tag is Num && b.tag is Op {
        op_num_spec(n, b, a)
    } else if a.tag is Mat && b.tag is Num {
        mat_num_spec(n, a, b)
    } else if a.tag is Num && b.tag is Mat {
        mat_num_spec(n, b, a)
    } else if a.spec_arity() == 0 {
        comm02_spec(n, a, b)
    } else if b.spec_arity() == 0 {
        comm02_spec(n, b, a)
    } else if a.spec_arity() == 2 && b.spec_arity() == 2 {
        comm22_spec(n, a, b)
    } else {
        comm_spec(n, a, b)
    }
}

/// One interaction moves each rewrite counter up by at most one.
pub proof fn lemma_interact_rwts(n: NetV, book: crate::def::Book, a: Port, b: Port)
    ensures
        interact_spec(n, book, a, b).rwts.anni <= n.rwts.anni + 1,
        interact_spec(n, book, a, b).rwts.comm <= n.rwts.comm + 1,
        interact_spec(n, book, a, b).rwts.eras <= n.rwts.eras + 1,
        interact_spec(n, book, a, b).rwts.oper <= n.rwts.oper + 1,
{
    if a.is_ref() && !b.is_era() {
    } else if b.is_ref() && !a.is_era() {
    } else if a.is_nil() && b.is_nil() {
    } else if anni_pair(a, b) {
        lemma_anni_steps_rwts(n.bump_anni(), a, b, a.spec_arity() as int);
    } else if unsupported_pair(a, b) {
    } else if a.tag is Op && b.tag is Num {
    } else if a.tag is Num && b.tag is Op {
    } else if a.tag is Mat && b.tag is Num {
    } else if a.tag is Num && b.tag is Mat {
    } else if a.spec_arity() == 0 {
        lemma_comm02_steps_rwts(n.bump_comm(), a, b, b.spec_arity() as int);
    } else if b.spec_arity() == 0 {
        lemma_comm02_steps_rwts(n.bump_comm(), b, a, a.spec_arity() as int);
    } else if a.spec_arity() == 2 && b.spec_arity() == 2 {
    } else {
        let al_a = a.tag.spec_align() as int;
        let al_b = b.tag.spec_align() as int;
        let aa = a.spec_arity() as int;
        let ba = b.spec_arity() as int;
        let n0 = n.bump_comm();
        let next_b = next_after(n.next, al_b, aa);
        let n1 = NetV { next: next_after(next_b, al_a, ba), ..n0 };
        let bs = Seq::new(aa as nat, |i: int| copy_port(n.next, b.tag, b.lab, i));
        let avs = Seq::new(ba as nat, |i: int| copy_port(next_b, a.tag, a.lab, i));
        lemma_cross_spec_rwts(n1, avs, bs, ba, aa * ba);
        let n2 = cross_spec(n1, avs, bs, ba, aa * ba);
        lemma_outs_spec_rwts(n2, a, bs, aa);
        let n3 = outs_spec(n2, a, bs, aa);
        lemma_outs_spec_rwts(n3, b, avs, ba);
    }
}

impl Net {
    /// Runtime check of everything `interact` demands of the redex
    /// `(a, b)`, returning the diagnosis of a redex that must not be
    /// dispatched.
    pub fn check_redex(&self, book: &crate::def::Book, a: Port, b: Port) -> (r: Option<NetError>)
        ensures
            r == interact_err(self@, *book, a, b),
    {
        let len = self.heap.len();
        if !a.is_pri() || !b.is_pri() {
            return Some(NetError::ContractViolation);
        }
        if !crate::port::check_port(&a, len) || !crate::port::check_port(&b, len) {
            return Some(NetError::ContractViolation);
        }
        if a.is_ref() && !b.is_era() {
            let nb = book.len();
            if a.val < nb as u64 {
                let d = book.get(a.val as usize);
                let dl = d.cells.len();
                if dl == 0 || self.heap.has_room(dl as u64, 16) {
                    return None;
                }
                return Some(NetError::AllocExhausted);
            }
            return Some(NetError::ContractViolation);
        }
        if b.is_ref() && !a.is_era() {
            let nb = book.len();
            if b.val < nb as u64 {
                let d = book.get(b.val as usize);
                let dl = d.cells.len();
                if dl == 0 || self.heap.has_room(dl as u64, 16) {
                    return None;
                }
                return Some(NetError::AllocExhausted);
            }
            return Some(NetError::ContractViolation);
        }
        if a.is_nil() && b.is_nil() {
            return None;
        }
        let anni_p = (a.tag == b.tag && a.lab == b.lab && a.is_ctr()) || (matches!(
            a.tag,
            Tag::Op,
        ) && matches!(b.tag, Tag::Op) && a.lab == b.lab) || (matches!(a.tag, Tag::Mat) && matches!(
            b.tag,
            Tag::Mat,
        ));
        if anni_p {
            if self.check_aux(a) && self.check_aux(b) && check_disjoint(a, b) {
                return None;
            }
            return Some(NetError::ContractViolation);
        }
        if unsupported_pair_check(a, b) {
            return Some(NetError::Unsupported);
        }
        if matches!(a.tag, Tag::Op) && b.is_num() {
            if self.check_aux(a) {
                let t = self.heap.get(a.aux_port(1)).port();
                if t.is_num() || self.fits(Tag::Op) {
                    return None;
                }
                return Some(NetError::AllocExhausted);
            }
            return Some(NetError::ContractViolation);
        }
        if a.is_num() && matches!(b.tag, Tag::Op) {
            if self.check_aux(b) {
                let t = self.heap.get(b.aux_port(1)).port();
                if t.is_num() || self.fits(Tag::Op) {
                    return None;
                }
                return Some(NetError::AllocExhausted);
            }
            return Some(NetError::ContractViolation);
        }
        if matches!(a.tag, Tag::Mat) && b.is_num() {
            if self.check_aux(a) {
                if self.check_mat_fits(b) {
                    return None;
                }
                return Some(NetError::AllocExhausted);
            }
            return Some(NetError::ContractViolation);
        }
        if a.is_num() && matches!(b.tag, Tag::Mat) {
            if self.check_aux(b) {
                if self.check_mat_fits(a) {
                    return None;
                }
                return Some(NetError::AllocExhausted);
            }
            return Some(NetError::ContractViolation);
        }
        if a.arity() == 0 {
            if self.check_aux(b) && b.arity() <= MAX_ARITY {
                return None;
            }
            return Some(NetError::ContractViolation);
        }
        if b.arity() == 0 {
            if self.check_aux(a) && a.arity() <= MAX_ARITY {
                return None;
            }
            return Some(NetError::ContractViolation);
        }
        if a.arity() == 2 && b.arity() == 2 {
            if self.check_aux(a) && self.check_aux(b) && check_disjoint(a, b) {
                if self.heap.has_room(16, 4) {
                    return None;
                }
                return Some(NetError::AllocExhausted);
            }
            return Some(NetError::ContractViolation);
        }
        if self.check_aux(a) && self.check_aux(b) && check_disjoint(a, b) {
            if self.check_comm_fits(a, b) {
                return None;
            }
            return Some(NetError::AllocExhausted);
        }
        Some(NetError::ContractViolation)
    }

    /// Runtime check for `mat_fits`.
    fn check_mat_fits(&self, b: Port) -> (r: bool)
        ensures
            r == mat_fits(self@, b),
    {
        if b.num() == 0 {
            self.heap.has_room(4, 4)
        } else {
            self.heap.has_room(8, 4)
        }
    }

    /// Performs an interaction between two connected principal ports,
    /// dispatching on the pair of tags to annihilation, commutation,
    /// erasure, numeric folding, pattern matching, or materialization of a
    /// referenced definition.
    pub fn interact(&mut self, book: &crate::def::Book, a: Port, b: Port)
        requires
            book.wf(),
            interact_err(old(self)@, *book, a, b) is None,
            rwts_ok(old(self)@.rwts),
        ensures
            final(self)@ == interact_spec(old(self)@, *book, a, b),
    {
        if a.is_ref() && !b.is_era() {
            self.call(book, a, b);
        } else if b.is_ref() && !a.is_era() {
            self.call(book, b, a);
        } else if a.is_nil() && b.is_nil() {
            self.rwts.eras = self.rwts.eras + 1;
        } else if (a.tag == b.tag && a.lab == b.lab && a.is_ctr()) || (matches!(a.tag, Tag::Op)
            && matches!(b.tag, Tag::Op) && a.lab == b.lab) || (matches!(a.tag, Tag::Mat)
            && matches!(b.tag, Tag::Mat)) {
            if a.arity() == 2 {
                self.anni2(a, b);
            } else {
                self.anni(a, b);
            }
        } else if unsupported_pair_check(a, b) {
            proof {
                assert(false);
            }
        } else if matches!(a.tag, Tag::Op) && b.is_num() {
            self.op_num(a, b);
        } else if a.is_num() && matches!(b.tag, Tag::Op) {
            self.op_num(b, a);
        } else if matches!(a.tag, Tag::Mat) && b.is_num() {
            self.mat_num(a, b);
        } else if a.is_num() && matches!(b.tag, Tag::Mat) {
            self.mat_num(b, a);
        } else if a.arity() == 0 {
            self.comm02(a, b);
        } else if b.arity() == 0 {
            self.comm02(b, a);
        } else if a.arity() == 2 && b.arity() == 2 {
            self.comm22(a, b);
        } else {
            self.comm(a, b);
        }
    }
}

/// Runtime check for `aux_disjoint`.
pub fn check_disjoint(a: Port, b: Port) -> (r: bool)
    requires
        a.val + a.spec_arity() <= u64::MAX,
        b.val + b.spec_arity() <= u64::MAX,
    ensures
        r == aux_disjoint(a, b),
{
    a.val + a.arity() as u64 <= b.val || b.val + b.arity() as u64 <= a.val
}

/// Runtime check for `unsupported_pair`.
pub fn unsupported_pair_check(a: Port, b: Port) -> (r: bool)
    ensures
        r == unsupported_pair(a, b),
{
    let a_adt = matches!(a.tag, Tag::Adt(_) | Tag::AdtZ);
    let b_adt = matches!(b.tag, Tag::Adt(_) | Tag::AdtZ);
    ||| (a_adt && b.is_ctr() && a.lab == b.lab)
    ||| (a.is_ctr() && b_adt && a.lab == b.lab)
    ||| (a_adt && b_adt && a.lab == b.lab)
    ||| (matches!(a.tag, Tag::Op) && matches!(b.tag, Tag::Op) && a.lab != b.lab)
    ||| (a.is_ctr() && matches!(b.tag, Tag::Mat) && a.lab == 0)
    ||| (matches!(a.tag, Tag::Mat) && b.is_ctr() && b.lab == 0)
}

// ---------------------------------------------------------------------
// Reduction
// ---------------------------------------------------------------------

/// The reduction relation as a function: pop the most recent redex, check
/// it, dispatch it, and recurse, until the queue empties (normal form),
/// the budget runs out (valid but unfinished), or a fatal condition is
/// diagnosed on the popped redex.
pub open spec fn reduce_spec(n: NetV, book: crate::def::Book, fuel: nat) -> (NetV, ReduceEnd)
    decreases fuel,
{
    if n.rdex.len() == 0 {
        (n, ReduceEnd::Normal)
    } else if fuel == 0 {
        (n, ReduceEnd::Budget)
    } else {
        let a = n.rdex.last().0;
        let b = n.rdex.last().1;
        let n1 = NetV { rdex: n.rdex.drop_last(), ..n };
        match interact_err(n1, book, a, b) {
            Some(e) => (n1, ReduceEnd::Fail(e)),
            None => reduce_spec(interact_spec(n1, book, a, b), book, (fuel - 1) as nat),
        }
    }
}

/// All four counters have room for `fuel` more rewrites.
pub open spec fn rwts_headroom(r: Rewrites, fuel: u64) -> bool {
    &&& r.anni + fuel <= u64::MAX
    &&& r.comm + fuel <= u64::MAX
    &&& r.eras + fuel <= u64::MAX
    &&& r.oper + fuel <= u64::MAX
}

impl Net {
    /// Reduces this net until no redex remains or at most `limit` redexes
    /// have been dispatched, checking each popped redex before dispatch
    /// and stopping with a fatal diagnosis instead of corrupting the heap.
    pub fn reduce(&mut self, book: &crate::def::Book, limit: u64) -> (r: ReduceEnd)
        requires
            book.wf(),
            rwts_headroom(old(self)@.rwts, limit),
        ensures
            final(self)@ == reduce_spec(old(self)@, *book, limit as nat).0,
            r == reduce_spec(old(self)@, *book, limit as nat).1,
    {
        let ghost orig = old(self)@;
        let mut fuel: u64 = limit;
        while fuel > 0
            invariant
                book.wf(),
                orig == old(self)@,
                rwts_headroom(self@.rwts, fuel),
                reduce_spec(orig, *book, limit as nat) == reduce_spec(self@, *book, fuel as nat),
            decreases fuel,
        {
            let ghost pre = self@;
            let popped = self.rdex.pop();
            match popped {
                None => {
                    proof {
                        assert(self@ =~= pre);
                        assert(reduce_spec(pre, *book, fuel as nat) == (pre, ReduceEnd::Normal));
                    }
                    return ReduceEnd::Normal;
                },
                Some((a, b)) => {
                    let ghost n1 = NetV { rdex: pre.rdex.drop_last(), ..pre };
                    proof {
                        assert(self@.rdex =~= pre.rdex.drop_last());
                        assert(self@ =~= n1);
                        assert((a, b) == pre.rdex.last());
                    }
                    match self.check_redex(book, a, b) {
                        Some(e) => {
                            proof {
                                assert(reduce_spec(pre, *book, fuel as nat) == (
                                    n1,
                                    ReduceEnd::Fail(e),
                                ));
                            }
                            return ReduceEnd::Fail(e);
                        },
                        None => {
                            proof {
                                lemma_interact_rwts(n1, *book, a, b);
                            }
                            self.interact(book, a, b);
                            proof {
                                assert(reduce_spec(pre, *book, fuel as nat) == reduce_spec(
                                    interact_spec(n1, *book, a, b),
                                    *book,
                                    (fuel - 1) as nat,
                                ));
                            }
                        },
                    }
                },
            }
            fuel = fuel - 1;
        }
        if self.rdex.len() == 0 {
            ReduceEnd::Normal
        } else {
            ReduceEnd::Budget
        }
    }
}

} // verus!
