//! The global laws of the runtime, proved from the spec-level transitions
//! that every executable operation is contractually pinned to: linearity
//! accounting for the rewrite rules, order-independence of racing link
//! resolutions, the annihilation identity, and determinism of reduction.

use vstd::prelude::*;
use crate::port::{Port, Tag, port_ok};
use crate::heap::{Cell, live_count, lemma_live_count_update, round_up};
use crate::err::ReduceEnd;
use crate::net::{NetV, lpp_spec, lwp_spec, lww_spec, wire_ok, var_ok};
use crate::interact::{auxw, aux_wires_ok, aux_disjoint, anni_spec, anni_steps, comm22_spec, reduce_spec};
use crate::def::Book;

verus! {

/// Writing through two resolvable ports leaves the live-cell count
/// unchanged: a new redex touches no cell, and a write through a wire half
/// lands on a cell that was already live.
pub proof fn lemma_lpp_live(n: NetV, p: Port, q: Port)
    requires
        p.is_var() ==> p.val < n.heap.len() && n.heap[p.val as int] is Live,
        q.is_var() ==> q.val < n.heap.len() && n.heap[q.val as int] is Live,
    ensures
        live_count(lpp_spec(n, p, q).heap) == live_count(n.heap),
{
    if p.is_pri() && q.is_pri() {
    } else {
        if p.is_var() {
            lemma_live_count_update(n.heap, p.val as int, Cell::Live(q));
        }
        let h1 = if p.is_var() {
            n.heap.update(p.val as int, Cell::Live(q))
        } else {
            n.heap
        };
        if q.is_var() {
            lemma_live_count_update(h1, q.val as int, Cell::Live(p));
        }
    }
}

/// Resolving a half-open wire to a principal port consumes exactly one
/// live cell, provided the wire's binding does not point back into the
/// cell being consumed.
pub proof fn lemma_lwp_live_delta(n: NetV, w: u64, p: Port)
    requires
        wire_ok(n, w),
        p.is_pri(),
        n.heap[w as int].port().is_var() ==> n.heap[n.heap[w as int].port().val as int] is Live
            && n.heap[w as int].port().val != w,
    ensures
        live_count(lwp_spec(n, w, p).heap) + 1 == live_count(n.heap),
{
    let t = n.heap[w as int].port();
    let h1 = n.heap.update(w as int, Cell::Free);
    lemma_live_count_update(n.heap, w as int, Cell::Free);
    lemma_lpp_live(NetV { heap: h1, ..n }, t, p);
}

/// Connecting two half-open wires consumes exactly two live cells,
/// provided neither wire's binding points back into the consumed pair.
pub proof fn lemma_lww_live_delta(n: NetV, w1: u64, w2: u64)
    requires
        wire_ok(n, w1),
        wire_ok(n, w2),
        w1 != w2,
        n.heap[w1 as int].port().is_var() ==> n.heap[n.heap[w1 as int].port().val as int] is Live
            && n.heap[w1 as int].port().val != w1
            && n.heap[w1 as int].port().val != w2,
        n.heap[w2 as int].port().is_var() ==> n.heap[n.heap[w2 as int].port().val as int] is Live
            && n.heap[w2 as int].port().val != w1
            && n.heap[w2 as int].port().val != w2,
    ensures
        live_count(lww_spec(n, w1, w2).heap) + 2 == live_count(n.heap),
{
    let t1 = n.heap[w1 as int].port();
    let t2 = n.heap[w2 as int].port();
    let h1 = n.heap.update(w1 as int, Cell::Free);
    let h2 = h1.update(w2 as int, Cell::Free);
    lemma_live_count_update(n.heap, w1 as int, Cell::Free);
    lemma_live_count_update(h1, w2 as int, Cell::Free);
    lemma_lpp_live(NetV { heap: h2, ..n }, t1, t2);
}

/// The cell `t` is none of the two agents' own auxiliary cells.
pub open spec fn outside_pair(t: u64, a: Port, b: Port) -> bool {
    forall|j: int| 1 <= j <= a.spec_arity() ==> t != #[trigger] auxw(a, j) && t != auxw(b, j)
}

/// The wire half at `w` binds either a principal port or a wire whose
/// target cell is live and lies outside the two agents' own cells.
pub open spec fn no_loopback_n(n: NetV, w: u64, a: Port, b: Port) -> bool {
    n.heap[w as int].port().is_var() ==> {
        let t = n.heap[w as int].port().val;
        &&& n.heap[t as int] is Live
        &&& outside_pair(t, a, b)
    }
}

/// The common hypotheses of the annihilation accounting: two same-arity
/// agents with disjoint bodies, every auxiliary cell a live resolvable
/// wire half, and no auxiliary wire looping back into the pair's own
/// cells.
pub open spec fn anni_linear_pre(n: NetV, a: Port, b: Port) -> bool {
    &&& a.spec_arity() == b.spec_arity()
    &&& a.spec_arity() <= crate::port::MAX_ARITY
    &&& port_ok(a, n.heap.len())
    &&& port_ok(b, n.heap.len())
    &&& aux_disjoint(a, b)
    &&& n.heap.len() <= usize::MAX
    &&& forall|i: int|
        1 <= i <= a.spec_arity() ==> wire_ok(n, #[trigger] auxw(a, i)) && wire_ok(n, auxw(b, i))
    &&& forall|i: int|
        1 <= i <= a.spec_arity() ==> no_loopback_n(n, #[trigger] auxw(a, i), a, b)
            && no_loopback_n(n, auxw(b, i), a, b)
}

/// Each cross-linking step consumes exactly two live cells and leaves the
/// not-yet-consumed auxiliary cells, and every live cell outside the
/// pair, untouched or live.
pub proof fn lemma_anni_steps_linearity(n0: NetV, a: Port, b: Port, k: int)
    requires
        anni_linear_pre(n0, a, b),
        0 <= k <= a.spec_arity(),
    ensures
        live_count(anni_steps(n0, a, b, k).heap) + 2 * k == live_count(n0.heap),
        anni_steps(n0, a, b, k).heap.len() == n0.heap.len(),
        forall|j: int|
            k < j <= a.spec_arity() ==> anni_steps(n0, a, b, k).heap[auxw(a, j) as int]
                == n0.heap[#[trigger] auxw(a, j) as int] && anni_steps(n0, a, b, k).heap[auxw(
                b,
                j,
            ) as int] == n0.heap[auxw(b, j) as int],
        forall|c: int|
            0 <= c < n0.heap.len() && n0.heap[c] is Live && outside_pair(c as u64, a, b) ==> anni_steps(
                n0,
                a,
                b,
                k,
            ).heap[c] is Live,
    decreases k,
{
    if k > 0 {
        lemma_anni_steps_linearity(n0, a, b, k - 1);
        let prev = anni_steps(n0, a, b, k - 1);
        let wa = auxw(a, k);
        let wb = auxw(b, k);
        assert(wire_ok(n0, wa) && wire_ok(n0, wb));
        assert(prev.heap[wa as int] == n0.heap[wa as int]);
        assert(prev.heap[wb as int] == n0.heap[wb as int]);
        assert(wire_ok(prev, wa) && wire_ok(prev, wb));
        let ta = n0.heap[wa as int].port();
        let tb = n0.heap[wb as int].port();
        if ta.is_var() {
            assert(no_loopback_n(n0, wa, a, b));
            assert(outside_pair(ta.val, a, b));
            assert(ta.val != wa && ta.val != wb);
            assert(prev.heap[ta.val as int] is Live);
        }
        if tb.is_var() {
            assert(no_loopback_n(n0, wb, a, b));
            assert(outside_pair(tb.val, a, b));
            assert(tb.val != wa && tb.val != wb);
            assert(prev.heap[tb.val as int] is Live);
        }
        lemma_lww_live_delta(prev, wa, wb);
    }
}

/// Linearity of annihilation: the interaction consumes exactly the two
/// agent bodies — two live cells per arity — and makes nothing else live
/// or dead, provided no auxiliary wire of the pair loops back into the
/// pair's own cells.
pub proof fn lemma_anni_linearity(n: NetV, a: Port, b: Port)
    requires
        anni_linear_pre(n, a, b),
    ensures
        live_count(anni_spec(n, a, b).heap) + 2 * a.spec_arity() == live_count(n.heap),
{
    let n0 = n.bump_anni();
    assert(anni_linear_pre(n0, a, b));
    lemma_anni_steps_linearity(n0, a, b, a.spec_arity() as int);
}

/// Order-independence of the racing resolution of one shared wire: two
/// ends of a fully linked wire, each resolved to a principal port by a
/// different party, reach the same final heap in either order — both wire
/// cells freed exactly once — and the redex pairing the two ports is
/// emitted exactly once (its two orientations name the same unordered
/// edge). No edge is lost and none is duplicated, whichever write wins.
pub proof fn lemma_wire_race_order_independent(n: NetV, w1: u64, w2: u64, p: Port, q: Port)
    requires
        w1 != w2,
        w1 < n.heap.len(),
        w2 < n.heap.len(),
        n.heap[w1 as int] == Cell::Live(Port { tag: Tag::Var, lab: 0u16, val: w2 }),
        n.heap[w2 as int] == Cell::Live(Port { tag: Tag::Var, lab: 0u16, val: w1 }),
        p.is_pri(),
        q.is_pri(),
    ensures
        ({
            let na = lwp_spec(lwp_spec(n, w1, p), w2, q);
            let nb = lwp_spec(lwp_spec(n, w2, q), w1, p);
            &&& na.heap =~= nb.heap
            &&& na.heap[w1 as int] == Cell::Free
            &&& na.heap[w2 as int] == Cell::Free
            &&& forall|j: int| 0 <= j < n.heap.len() && j != w1 && j != w2 ==> na.heap[j] == n.heap[j]
            &&& na.rdex == n.rdex.push((p, q))
            &&& nb.rdex == n.rdex.push((q, p))
            &&& na.rwts == n.rwts && nb.rwts == n.rwts
            &&& na.next == n.next && nb.next == n.next
        }),
{
    let na1 = lwp_spec(n, w1, p);
    assert(na1.heap =~= n.heap.update(w1 as int, Cell::Free).update(w2 as int, Cell::Live(p)));
    let na = lwp_spec(na1, w2, q);
    let nb1 = lwp_spec(n, w2, q);
    assert(nb1.heap =~= n.heap.update(w2 as int, Cell::Free).update(w1 as int, Cell::Live(q)));
    let nb = lwp_spec(nb1, w1, p);
    assert(na.heap =~= nb.heap);
}

/// Determinism of reduction: the reduction relation is a function of the
/// starting net, the book, and the budget, so running reduction to
/// completion twice on structurally identical starting nets yields the
/// same counter totals, the same final heap image, and the same outcome.
/// (Every executable step is contractually equal to its spec transition,
/// so this pins the behaviour of `Net::reduce` itself.)
pub proof fn lemma_reduction_deterministic(
    n1: NetV,
    n2: NetV,
    book: Book,
    fuel: nat,
)
    requires
        n1 == n2,
    ensures
        reduce_spec(n1, book, fuel) == reduce_spec(n2, book, fuel),
        reduce_spec(n1, book, fuel).0.rwts == reduce_spec(n2, book, fuel).0.rwts,
        reduce_spec(n1, book, fuel).0.heap == reduce_spec(n2, book, fuel).0.heap,
{
}

/// The annihilation identity: two same-tag, same-label binary agents wired
/// principal to principal, each auxiliary port bound to a numeral, reduce
/// to completion (the annihilation, then the erasure of the two resulting
/// numeral-numeral redexes) with zero remaining redexes and zero remaining
/// live cells from the two agent bodies: exactly one annihilation and two
/// erasures are counted, the four body cells end FREE, every other cell is
/// untouched, and no allocation happens.
#[verifier::rlimit(100)]
#[verifier::spinoff_prover]
pub proof fn lemma_annihilation_identity(
    n: NetV,
    book: Book,
    a: Port,
    b: Port,
    v1: u64,
    v2: u64,
    v3: u64,
    v4: u64,
)
    requires
        a.tag == Tag::Ctr(2),
        b.tag == Tag::Ctr(2),
        a.lab == b.lab,
        port_ok(a, n.heap.len()),
        port_ok(b, n.heap.len()),
        aux_disjoint(a, b),
        n.heap[auxw(a, 1) as int] == Cell::Live(Port { tag: Tag::Num, lab: 0u16, val: v1 }),
        n.heap[auxw(a, 2) as int] == Cell::Live(Port { tag: Tag::Num, lab: 0u16, val: v2 }),
        n.heap[auxw(b, 1) as int] == Cell::Live(Port { tag: Tag::Num, lab: 0u16, val: v3 }),
        n.heap[auxw(b, 2) as int] == Cell::Live(Port { tag: Tag::Num, lab: 0u16, val: v4 }),
        n.rdex == Seq::<(Port, Port)>::empty().push((a, b)),
        n.rwts.anni < u64::MAX,
        n.rwts.eras + 2 <= u64::MAX,
        n.heap.len() <= usize::MAX,
    ensures
        ({
            let (nf, end) = reduce_spec(n, book, 3);
            &&& end == ReduceEnd::Normal
            &&& nf.rdex.len() == 0
            &&& nf.heap[auxw(a, 1) as int] == Cell::Free
            &&& nf.heap[auxw(a, 2) as int] == Cell::Free
            &&& nf.heap[auxw(b, 1) as int] == Cell::Free
            &&& nf.heap[auxw(b, 2) as int] == Cell::Free
            &&& forall|j: int|
                0 <= j < n.heap.len() && j != auxw(a, 1) && j != auxw(a, 2) && j != auxw(b, 1)
                    && j != auxw(b, 2) ==> nf.heap[j] == n.heap[j]
            &&& live_count(nf.heap) + 4 == live_count(n.heap)
            &&& nf.rwts.anni == n.rwts.anni + 1
            &&& nf.rwts.eras == n.rwts.eras + 2
            &&& nf.rwts.comm == n.rwts.comm
            &&& nf.rwts.oper == n.rwts.oper
            &&& nf.next == n.next
        }),
{
    let a1 = auxw(a, 1);
    let a2 = auxw(a, 2);
    let b1 = auxw(b, 1);
    let b2 = auxw(b, 2);
    let p1 = Port { tag: Tag::Num, lab: 0u16, val: v1 };
    let p2 = Port { tag: Tag::Num, lab: 0u16, val: v2 };
    let p3 = Port { tag: Tag::Num, lab: 0u16, val: v3 };
    let p4 = Port { tag: Tag::Num, lab: 0u16, val: v4 };

    // Step 1: pop (a, b); it dispatches to annihilation.
    assert(n.rdex.last() == (a, b));
    let n1 = NetV { rdex: n.rdex.drop_last(), ..n };
    assert(n1.rdex =~= Seq::<(Port, Port)>::empty());
    assert(wire_ok(n1, a1) && wire_ok(n1, a2) && wire_ok(n1, b1) && wire_ok(n1, b2));
    assert(aux_wires_ok(n1, a)) by {
        assert forall|i: int| 1 <= i <= a.spec_arity() implies wire_ok(n1, #[trigger] auxw(a, i)) by {
            assert(i == 1 || i == 2);
        }
    }
    assert(aux_wires_ok(n1, b)) by {
        assert forall|i: int| 1 <= i <= b.spec_arity() implies wire_ok(n1, #[trigger] auxw(b, i)) by {
            assert(i == 1 || i == 2);
        }
    }
    assert(crate::interact::interact_err(n1, book, a, b) is None);
    let s0 = n1.bump_anni();
    let s1 = lww_spec(s0, a1, b1);
    assert(s1.heap =~= n.heap.update(a1 as int, Cell::Free).update(b1 as int, Cell::Free));
    assert(s1.rdex =~= Seq::<(Port, Port)>::empty().push((p1, p3)));
    let s2 = lww_spec(s1, a2, b2);
    assert(s2.heap =~= s1.heap.update(a2 as int, Cell::Free).update(b2 as int, Cell::Free));
    assert(s2.rdex =~= Seq::<(Port, Port)>::empty().push((p1, p3)).push((p2, p4)));
    assert(anni_steps(s0, a, b, 0) == s0);
    assert(anni_steps(s0, a, b, 1) == s1);
    assert(anni_steps(s0, a, b, 2) == s2);
    assert(crate::interact::interact_spec(n1, book, a, b) == s2);

    // Steps 2 and 3: the two numeral-numeral redexes erase.
    assert(s2.rdex.last() == (p2, p4));
    let t1 = NetV { rdex: s2.rdex.drop_last(), ..s2 };
    assert(t1.rdex =~= Seq::<(Port, Port)>::empty().push((p1, p3)));
    assert(crate::interact::interact_err(t1, book, p2, p4) is None);
    let t2 = t1.bump_eras();
    assert(crate::interact::interact_spec(t1, book, p2, p4) == t2);
    assert(t2.rdex.last() == (p1, p3));
    let u1 = NetV { rdex: t2.rdex.drop_last(), ..t2 };
    assert(u1.rdex =~= Seq::<(Port, Port)>::empty());
    assert(crate::interact::interact_err(u1, book, p1, p3) is None);
    let u2 = u1.bump_eras();
    assert(crate::interact::interact_spec(u1, book, p1, p3) == u2);
    assert(u2.rdex.len() == 0);
    assert(reduce_spec(u2, book, 0) == (u2, ReduceEnd::Normal));
    assert(reduce_spec(n, book, 3) == reduce_spec(s2, book, 2));
    assert(reduce_spec(s2, book, 2) == reduce_spec(t2, book, 1));
    assert(reduce_spec(t2, book, 1) == reduce_spec(u2, book, 0));
    assert(reduce_spec(n, book, 3) == (u2, ReduceEnd::Normal));

    // Live-cell accounting: the four body cells are consumed, nothing else.
    lemma_live_count_update(n.heap, a1 as int, Cell::Free);
    lemma_live_count_update(n.heap.update(a1 as int, Cell::Free), b1 as int, Cell::Free);
    lemma_live_count_update(s1.heap, a2 as int, Cell::Free);
    lemma_live_count_update(s1.heap.update(a2 as int, Cell::Free), b2 as int, Cell::Free);
    assert(s1.heap == n.heap.update(a1 as int, Cell::Free).update(b1 as int, Cell::Free));
    assert(u2.heap == s1.heap.update(a2 as int, Cell::Free).update(b2 as int, Cell::Free));
}

/// Linearity of binary commutation: the interaction makes live exactly the
/// eight auxiliary cells of the four duplicated copies and consumes the
/// four cells of the two original bodies — a net gain of four live cells —
/// provided the allocator's untouched region is FREE and no auxiliary wire
/// of the pair loops back into the pair's own cells.
#[verifier::rlimit(100)]
#[verifier::spinoff_prover]
pub proof fn lemma_comm22_linearity(n: NetV, a: Port, b: Port)
    requires
        a.spec_arity() == 2,
        b.spec_arity() == 2,
        a.is_pri(),
        b.is_pri(),
        port_ok(a, n.heap.len()),
        port_ok(b, n.heap.len()),
        aux_disjoint(a, b),
        aux_wires_ok(n, a),
        aux_wires_ok(n, b),
        crate::interact::comm22_fits(n),
        0 <= n.next,
        n.heap.len() <= usize::MAX,
        forall|j: int| n.next <= j < n.heap.len() ==> n.heap[j] == Cell::Free,
        no_loopback_n(n, auxw(a, 1), a, b),
        no_loopback_n(n, auxw(a, 2), a, b),
        no_loopback_n(n, auxw(b, 1), a, b),
        no_loopback_n(n, auxw(b, 2), a, b),
    ensures
        live_count(comm22_spec(n, a, b).heap) == live_count(n.heap) + 4,
{
    crate::heap::lemma_round_up(n.next, 4);
    let base = round_up(n.next, 4);
    let n0 = n.bump_comm();
    let x1 = Port { tag: a.tag, lab: a.lab, val: base as u64 };
    let x2 = Port { tag: a.tag, lab: a.lab, val: (base + 4) as u64 };
    let y1 = Port { tag: b.tag, lab: b.lab, val: (base + 8) as u64 };
    let y2 = Port { tag: b.tag, lab: b.lab, val: (base + 12) as u64 };

    // The two original agents' cells are live, so they lie below the
    // untouched region.
    assert(auxw(a, 1) < n.next && auxw(a, 2) < n.next && auxw(b, 1) < n.next && auxw(b, 2)
        < n.next);

    // The four cross-links each write two FREE cells of the fresh region.
    let m4 = crate::net::create_spec(
        crate::net::create_spec(
            crate::net::create_spec(crate::net::create_spec(n0, a.tag, a.lab).0, a.tag, a.lab).0,
            b.tag,
            b.lab,
        ).0,
        b.tag,
        b.lab,
    ).0;
    let m5 = lpp_spec(m4, crate::interact::vp(x1, 1), crate::interact::vp(y1, 1));
    let m6 = lpp_spec(m5, crate::interact::vp(x1, 2), crate::interact::vp(y2, 1));
    let m7 = lpp_spec(m6, crate::interact::vp(x2, 1), crate::interact::vp(y1, 2));
    let m8 = lpp_spec(m7, crate::interact::vp(x2, 2), crate::interact::vp(y2, 2));
    lemma_live_count_update(m4.heap, auxw(x1, 1) as int, Cell::Live(crate::interact::vp(y1, 1)));
    lemma_live_count_update(
        m4.heap.update(auxw(x1, 1) as int, Cell::Live(crate::interact::vp(y1, 1))),
        auxw(y1, 1) as int,
        Cell::Live(crate::interact::vp(x1, 1)),
    );
    lemma_live_count_update(m5.heap, auxw(x1, 2) as int, Cell::Live(crate::interact::vp(y2, 1)));
    lemma_live_count_update(
        m5.heap.update(auxw(x1, 2) as int, Cell::Live(crate::interact::vp(y2, 1))),
        auxw(y2, 1) as int,
        Cell::Live(crate::interact::vp(x1, 2)),
    );
    lemma_live_count_update(m6.heap, auxw(x2, 1) as int, Cell::Live(crate::interact::vp(y1, 2)));
    lemma_live_count_update(
        m6.heap.update(auxw(x2, 1) as int, Cell::Live(crate::interact::vp(y1, 2))),
        auxw(y1, 2) as int,
        Cell::Live(crate::interact::vp(x2, 1)),
    );
    lemma_live_count_update(m7.heap, auxw(x2, 2) as int, Cell::Live(crate::interact::vp(y2, 2)));
    lemma_live_count_update(
        m7.heap.update(auxw(x2, 2) as int, Cell::Live(crate::interact::vp(y2, 2))),
        auxw(y2, 2) as int,
        Cell::Live(crate::interact::vp(x2, 2)),
    );
    assert(live_count(m8.heap) == live_count(n.heap) + 8);

    // The four original wires are consumed, one live cell each.
    assert(wire_ok(m8, auxw(a, 1)) && wire_ok(m8, auxw(a, 2)) && wire_ok(m8, auxw(b, 1))
        && wire_ok(m8, auxw(b, 2)));
    let m9 = lwp_spec(m8, auxw(a, 1), y1);
    lemma_lwp_live_delta(m8, auxw(a, 1), y1);
    let m10 = lwp_spec(m9, auxw(a, 2), y2);
    lemma_lwp_live_delta(m9, auxw(a, 2), y2);
    let m11 = lwp_spec(m10, auxw(b, 1), x1);
    lemma_lwp_live_delta(m10, auxw(b, 1), x1);
    let m12 = lwp_spec(m11, auxw(b, 2), x2);
    lemma_lwp_live_delta(m11, auxw(b, 2), x2);
    assert(comm22_spec(n, a, b) == m12);
}

/// Determinism of the operator fold: an operator agent whose first
/// auxiliary wire already binds the numeral `m`, meeting the numeral `b`
/// on its principal port, writes exactly the numeral `op(b, m)` through
/// its second auxiliary wire, counts one numeric rewrite, performs no
/// allocation, and frees exactly its own two cells.
#[verifier::rlimit(100)]
#[verifier::spinoff_prover]
pub proof fn lemma_operator_fold(n: NetV, a: Port, b: Port, m: u64, r: u64)
    requires
        a.tag is Op,
        b.tag is Num,
        port_ok(a, n.heap.len()),
        n.heap[auxw(a, 1) as int] == Cell::Live(Port { tag: Tag::Num, lab: 0u16, val: m }),
        n.heap[auxw(a, 2) as int] == Cell::Live(Port { tag: Tag::Var, lab: 0u16, val: r }),
        r < n.heap.len(),
        n.heap[r as int] is Live,
        r != auxw(a, 1),
        r != auxw(a, 2),
        n.rwts.oper < u64::MAX,
        n.heap.len() <= usize::MAX,
    ensures
        ({
            let nf = crate::interact::op_num_spec(n, a, b);
            let out = crate::ops::spec_op_at(a.lab).spec_eval(b.val, m);
            &&& nf.heap[auxw(a, 1) as int] == Cell::Free
            &&& nf.heap[auxw(a, 2) as int] == Cell::Free
            &&& nf.heap[r as int] == Cell::Live(Port { tag: Tag::Num, lab: 0u16, val: out })
            &&& forall|j: int|
                0 <= j < n.heap.len() && j != auxw(a, 1) && j != auxw(a, 2) && j != r
                    ==> nf.heap[j] == n.heap[j]
            &&& nf.rwts.oper == n.rwts.oper + 1
            &&& nf.rwts.anni == n.rwts.anni
            &&& nf.rwts.comm == n.rwts.comm
            &&& nf.rwts.eras == n.rwts.eras
            &&& nf.next == n.next
            &&& nf.rdex == n.rdex
            &&& live_count(nf.heap) + 2 == live_count(n.heap)
        }),
{
    let a1 = auxw(a, 1);
    let a2 = auxw(a, 2);
    let out = crate::ops::spec_op_at(a.lab).spec_eval(b.val, m);
    let n1 = n.bump_oper();
    let n2 = NetV { heap: n1.heap.update(a1 as int, Cell::Free), ..n1 };
    let nf = lwp_spec(n2, a2, Port { tag: Tag::Num, lab: 0u16, val: out });
    assert(crate::interact::op_num_spec(n, a, b) == nf);
    lemma_live_count_update(n.heap, a1 as int, Cell::Free);
    assert(wire_ok(n2, a2));
    lemma_lwp_live_delta(n2, a2, Port { tag: Tag::Num, lab: 0u16, val: out });
}

/// Match branching on zero: a match agent whose wires lead to the case
/// pair (at `c`) and the result (at `r`), meeting numeral 0, builds one
/// selector pair whose first slot is wired to the result and whose second
/// slot is an eraser — so when the case pair arrives, the zero branch is
/// wired to the result and the successor branch is discarded.
#[verifier::rlimit(100)]
#[verifier::spinoff_prover]
pub proof fn lemma_match_zero(n: NetV, a: Port, b: Port, c: u64, r: u64)
    requires
        a.tag is Mat,
        b.tag == Tag::Num,
        b.val == 0,
        port_ok(a, n.heap.len()),
        n.heap[auxw(a, 1) as int] == Cell::Live(Port { tag: Tag::Var, lab: 0u16, val: c }),
        n.heap[auxw(a, 2) as int] == Cell::Live(Port { tag: Tag::Var, lab: 0u16, val: r }),
        c < n.heap.len(),
        r < n.heap.len(),
        n.heap[c as int] is Live,
        n.heap[r as int] is Live,
        c != r,
        c != auxw(a, 1) && c != auxw(a, 2) && r != auxw(a, 1) && r != auxw(a, 2),
        0 <= n.next,
        round_up(n.next, 4) + 4 <= n.heap.len(),
        forall|j: int| n.next <= j < n.heap.len() ==> n.heap[j] == Cell::Free,
        n.rwts.oper < u64::MAX,
        n.heap.len() <= usize::MAX,
    ensures
        ({
            let nf = crate::interact::mat_num_spec(n, a, b);
            let x = Port { tag: Tag::Ctr(2), lab: 0u16, val: round_up(n.next, 4) as u64 };
            &&& nf.heap[c as int] == Cell::Live(x)
            &&& nf.heap[auxw(x, 1) as int] == Cell::Live(Port { tag: Tag::Var, lab: 0u16, val: r })
            &&& nf.heap[r as int] == Cell::Live(Port { tag: Tag::Var, lab: 0u16, val: auxw(x, 1) })
            &&& nf.heap[auxw(x, 2) as int] == Cell::Live(Port { tag: Tag::Era, lab: 0u16, val: 0u64 })
            &&& nf.heap[auxw(a, 1) as int] == Cell::Free
            &&& nf.heap[auxw(a, 2) as int] == Cell::Free
            &&& nf.rwts.oper == n.rwts.oper + 1
            &&& nf.rdex == n.rdex
            &&& nf.next == round_up(n.next, 4) + 4
        }),
{
    crate::heap::lemma_round_up(n.next, 4);
    let a1 = auxw(a, 1);
    let a2 = auxw(a, 2);
    let era = Port { tag: Tag::Era, lab: 0u16, val: 0u64 };
    let n0 = n.bump_oper();
    let x = crate::net::create_spec(n0, Tag::Ctr(2), 0u16).1;
    let n1 = crate::net::create_spec(n0, Tag::Ctr(2), 0u16).0;
    let n2 = lpp_spec(n1, crate::interact::vp(x, 2), era);
    let n3 = lwp_spec(n2, a2, crate::interact::vp(x, 1));
    let nf = lwp_spec(n3, a1, x);
    assert(crate::interact::mat_num_spec(n, a, b) == nf);
    assert(auxw(a, 1) < n.next && auxw(a, 2) < n.next && c < n.next && r < n.next);
}

/// Match branching on a successor: a match agent wired as above, meeting
/// numeral `k > 0`, builds a selector whose first slot is an eraser (the
/// zero branch is discarded) and whose second slot carries the pair of the
/// decremented numeral `k - 1` and the result wire into the successor
/// branch.
#[verifier::rlimit(100)]
#[verifier::spinoff_prover]
pub proof fn lemma_match_succ(n: NetV, a: Port, b: Port, c: u64, r: u64)
    requires
        a.tag is Mat,
        b.tag == Tag::Num,
        b.val > 0,
        port_ok(a, n.heap.len()),
        n.heap[auxw(a, 1) as int] == Cell::Live(Port { tag: Tag::Var, lab: 0u16, val: c }),
        n.heap[auxw(a, 2) as int] == Cell::Live(Port { tag: Tag::Var, lab: 0u16, val: r }),
        c < n.heap.len(),
        r < n.heap.len(),
        n.heap[c as int] is Live,
        n.heap[r as int] is Live,
        c != r,
        c != auxw(a, 1) && c != auxw(a, 2) && r != auxw(a, 1) && r != auxw(a, 2),
        0 <= n.next,
        round_up(n.next, 4) + 8 <= n.heap.len(),
        forall|j: int| n.next <= j < n.heap.len() ==> n.heap[j] == Cell::Free,
        n.rwts.oper < u64::MAX,
        n.heap.len() <= usize::MAX,
    ensures
        ({
            let nf = crate::interact::mat_num_spec(n, a, b);
            let x = Port { tag: Tag::Ctr(2), lab: 0u16, val: round_up(n.next, 4) as u64 };
            let y = Port { tag: Tag::Ctr(2), lab: 0u16, val: (round_up(n.next, 4) + 4) as u64 };
            &&& nf.heap[c as int] == Cell::Live(x)
            &&& nf.heap[auxw(x, 1) as int] == Cell::Live(Port { tag: Tag::Era, lab: 0u16, val: 0u64 })
            &&& nf.heap[auxw(x, 2) as int] == Cell::Live(y)
            &&& nf.heap[auxw(y, 1) as int] == Cell::Live(
                Port { tag: Tag::Num, lab: 0u16, val: (b.val - 1) as u64 },
            )
            &&& nf.heap[auxw(y, 2) as int] == Cell::Live(Port { tag: Tag::Var, lab: 0u16, val: r })
            &&& nf.heap[r as int] == Cell::Live(Port { tag: Tag::Var, lab: 0u16, val: auxw(y, 2) })
            &&& nf.heap[auxw(a, 1) as int] == Cell::Free
            &&& nf.heap[auxw(a, 2) as int] == Cell::Free
            &&& nf.rwts.oper == n.rwts.oper + 1
            &&& nf.rdex == n.rdex
            &&& nf.next == round_up(n.next, 4) + 8
        }),
{
    crate::heap::lemma_round_up(n.next, 4);
    let a1 = auxw(a, 1);
    let a2 = auxw(a, 2);
    let era = Port { tag: Tag::Era, lab: 0u16, val: 0u64 };
    let n0 = n.bump_oper();
    let x = crate::net::create_spec(n0, Tag::Ctr(2), 0u16).1;
    let n1 = crate::net::create_spec(n0, Tag::Ctr(2), 0u16).0;
    assert(round_up(n.next, 4) % 4 == 0);
    assert(n1.next == round_up(n.next, 4) + 4);
    assert(n1.next % 4 == 0);
    assert(round_up(n1.next, 4) == n1.next);
    let y = crate::net::create_spec(n1, Tag::Ctr(2), 0u16).1;
    let n2 = crate::net::create_spec(n1, Tag::Ctr(2), 0u16).0;
    assert(y.val == (round_up(n.next, 4) + 4) as u64);
    let n3 = lpp_spec(n2, crate::interact::vp(x, 1), era);
    let n4 = lpp_spec(n3, crate::interact::vp(x, 2), y);
    let n5 = lpp_spec(
        n4,
        crate::interact::vp(y, 1),
        Port { tag: Tag::Num, lab: 0u16, val: (b.val - 1) as u64 },
    );
    let n6 = lwp_spec(n5, a2, crate::interact::vp(y, 2));
    let nf = lwp_spec(n6, a1, x);
    assert(crate::interact::mat_num_spec(n, a, b) == nf);
    assert(auxw(a, 1) < n.next && auxw(a, 2) < n.next && c < n.next && r < n.next);
}

/// Order-independence of two parties resolving adjacent wires of a chain:
/// with three fully linked wires (wa, wb), (wc, wd), (we, wf), one party
/// connecting wb to wc and another connecting wd to we reach, in either
/// order, the same final heap — a single direct wire between wa and wf,
/// with all four middle cells freed exactly once, no redex emitted, and
/// nothing else touched.
#[verifier::rlimit(100)]
#[verifier::spinoff_prover]
pub proof fn lemma_chain_race_order_independent(
    n: NetV,
    wa: u64,
    wb: u64,
    wc: u64,
    wd: u64,
    we: u64,
    wf: u64,
)
    requires
        wa < n.heap.len() && wb < n.heap.len() && wc < n.heap.len() && wd < n.heap.len() && we
            < n.heap.len() && wf < n.heap.len(),
        wa != wb && wa != wc && wa != wd && wa != we && wa != wf,
        wb != wc && wb != wd && wb != we && wb != wf,
        wc != wd && wc != we && wc != wf,
        wd != we && wd != wf,
        we != wf,
        n.heap[wa as int] == Cell::Live(Port { tag: Tag::Var, lab: 0u16, val: wb }),
        n.heap[wb as int] == Cell::Live(Port { tag: Tag::Var, lab: 0u16, val: wa }),
        n.heap[wc as int] == Cell::Live(Port { tag: Tag::Var, lab: 0u16, val: wd }),
        n.heap[wd as int] == Cell::Live(Port { tag: Tag::Var, lab: 0u16, val: wc }),
        n.heap[we as int] == Cell::Live(Port { tag: Tag::Var, lab: 0u16, val: wf }),
        n.heap[wf as int] == Cell::Live(Port { tag: Tag::Var, lab: 0u16, val: we }),
    ensures
        ({
            let na = lww_spec(lww_spec(n, wb, wc), wd, we);
            let nb = lww_spec(lww_spec(n, wd, we), wb, wc);
            &&& na.heap =~= nb.heap
            &&& na.heap[wa as int] == Cell::Live(Port { tag: Tag::Var, lab: 0u16, val: wf })
            &&& na.heap[wf as int] == Cell::Live(Port { tag: Tag::Var, lab: 0u16, val: wa })
            &&& na.heap[wb as int] == Cell::Free
            &&& na.heap[wc as int] == Cell::Free
            &&& na.heap[wd as int] == Cell::Free
            &&& na.heap[we as int] == Cell::Free
            &&& forall|j: int|
                0 <= j < n.heap.len() && j != wa && j != wb && j != wc && j != wd && j != we && j
                    != wf ==> na.heap[j] == n.heap[j]
            &&& na.rdex == n.rdex && nb.rdex == n.rdex
            &&& na.rwts == n.rwts && nb.rwts == n.rwts
            &&& na.next == n.next && nb.next == n.next
        }),
{
    let pa = Port { tag: Tag::Var, lab: 0u16, val: wa };
    let pd = Port { tag: Tag::Var, lab: 0u16, val: wd };
    let pf = Port { tag: Tag::Var, lab: 0u16, val: wf };
    let pc = Port { tag: Tag::Var, lab: 0u16, val: wc };
    let na1 = lww_spec(n, wb, wc);
    assert(na1.heap =~= n.heap.update(wb as int, Cell::Free).update(wc as int, Cell::Free).update(
        wa as int,
        Cell::Live(pd),
    ).update(wd as int, Cell::Live(pa)));
    let na = lww_spec(na1, wd, we);
    let nb1 = lww_spec(n, wd, we);
    assert(nb1.heap =~= n.heap.update(wd as int, Cell::Free).update(we as int, Cell::Free).update(
        wc as int,
        Cell::Live(pf),
    ).update(wf as int, Cell::Live(pc)));
    let nb = lww_spec(nb1, wb, wc);
    assert(na.heap =~= nb.heap);
}

/// The cell `t` is none of agent `b`'s own auxiliary cells.
pub open spec fn outside_agent(t: u64, b: Port) -> bool {
    forall|j: int| 1 <= j <= b.spec_arity() ==> t != #[trigger] auxw(b, j)
}

/// Hypotheses of the nilary-commutation accounting: a payload-free
/// principal `a`, an agent `b` whose auxiliary cells are live resolvable
/// wire halves, none of them looping back into `b`'s own body.
pub open spec fn comm02_linear_pre(n: NetV, a: Port, b: Port) -> bool {
    &&& a.is_pri()
    &&& a.spec_arity() == 0
    &&& b.spec_arity() <= crate::port::MAX_ARITY
    &&& port_ok(b, n.heap.len())
    &&& n.heap.len() <= usize::MAX
    &&& forall|i: int| 1 <= i <= b.spec_arity() ==> wire_ok(n, #[trigger] auxw(b, i))
    &&& forall|i: int|
        1 <= i <= b.spec_arity() ==> (n.heap[#[trigger] auxw(b, i) as int].port().is_var() ==> {
            let t = n.heap[auxw(b, i) as int].port().val;
            &&& n.heap[t as int] is Live
            &&& outside_agent(t, b)
        })
}

/// Each duplication step of nilary commutation consumes exactly one live
/// cell of `b`'s body and touches nothing else of the body.
pub proof fn lemma_comm02_steps_linearity(n0: NetV, a: Port, b: Port, k: int)
    requires
        comm02_linear_pre(n0, a, b),
        0 <= k <= b.spec_arity(),
    ensures
        live_count(crate::interact::comm02_steps(n0, a, b, k).heap) + k == live_count(n0.heap),
        crate::interact::comm02_steps(n0, a, b, k).heap.len() == n0.heap.len(),
        forall|j: int|
            k < j <= b.spec_arity() ==> crate::interact::comm02_steps(n0, a, b, k).heap[auxw(
                b,
                j,
            ) as int] == n0.heap[#[trigger] auxw(b, j) as int],
        forall|c: int|
            0 <= c < n0.heap.len() && n0.heap[c] is Live && outside_agent(c as u64, b)
                ==> crate::interact::comm02_steps(n0, a, b, k).heap[c] is Live,
    decreases k,
{
    if k > 0 {
        lemma_comm02_steps_linearity(n0, a, b, k - 1);
        let prev = crate::interact::comm02_steps(n0, a, b, k - 1);
        let wb = auxw(b, k);
        assert(wire_ok(n0, wb));
        assert(prev.heap[wb as int] == n0.heap[wb as int]);
        assert(wire_ok(prev, wb));
        let t = n0.heap[wb as int].port();
        if t.is_var() {
            assert(outside_agent(t.val, b));
            assert(t.val != wb);
            assert(prev.heap[t.val as int] is Live);
        }
        lemma_lwp_live_delta(prev, wb, a);
    }
}

/// Linearity of nilary commutation: duplicating a payload-free agent into
/// each auxiliary wire of `b` consumes exactly `b`'s body — one live cell
/// per arity — and allocates nothing.
pub proof fn lemma_comm02_linearity(n: NetV, a: Port, b: Port)
    requires
        comm02_linear_pre(n, a, b),
    ensures
        live_count(crate::interact::comm02_spec(n, a, b).heap) + b.spec_arity() == live_count(
            n.heap,
        ),
        crate::interact::comm02_spec(n, a, b).next == n.next,
{
    let n0 = n.bump_comm();
    assert(comm02_linear_pre(n0, a, b));
    lemma_comm02_steps_linearity(n0, a, b, b.spec_arity() as int);
    crate::interact::lemma_comm02_steps_rwts(n0, a, b, b.spec_arity() as int);
}

} // verus!
