// The interaction rules through the reducer: numeric folding, operator
// currying, match branching, annihilation, erasure, commutation, and the
// fatal diagnoses.

use inet::def::Book;
use inet::err::{NetError, ReduceEnd};
use inet::heap::{init_heap, Cell};
use inet::net::Net;
use inet::port::{Port, Tag};

fn fresh_net(cap: usize) -> Net {
    Net::new(init_heap(cap))
}

fn empty_book() -> Book {
    Book::new(Vec::new()).unwrap()
}

// An operator agent labeled with addition, first-aux bound to numeral 4,
// meeting numeral 3 on its principal port, yields numeral 7 on its
// second-aux wire, counts exactly one numeric rewrite, and allocates
// nothing.
#[test]
fn operator_fold_add() {
    let book = empty_book();
    let mut net = fresh_net(64);
    let a = net.create_node(Tag::Op, 0); // addition
    net.link_port_port(Port::new_var(a.val + 1), Port::new_num(4));
    let w = net.heap.alloc_cells(2, 2);
    net.link_port_port(Port::new_var(a.val + 2), Port::new_var(w));
    let before = net.heap.bump();
    net.rdex.push((a, Port::new_num(3)));
    let end = net.reduce(&book, 10);
    assert_eq!(end, ReduceEnd::Normal);
    assert_eq!(net.heap.get(w), Cell::Live(Port::new_num(7)));
    assert_eq!(net.rwts.oper, 1);
    assert_eq!(net.rwts.anni, 0);
    assert_eq!(net.rwts.comm, 0);
    assert_eq!(net.rwts.eras, 0);
    // no allocation was performed by the fold
    assert_eq!(net.heap.bump(), before);
    assert_eq!(net.heap.get(a.val + 1), Cell::Free);
    assert_eq!(net.heap.get(a.val + 2), Cell::Free);
}

#[test]
fn operator_fold_sub() {
    let book = empty_book();
    let mut net = fresh_net(64);
    let a = net.create_node(Tag::Op, 1); // subtraction
    net.link_port_port(Port::new_var(a.val + 1), Port::new_num(3));
    let w = net.heap.alloc_cells(2, 2);
    net.link_port_port(Port::new_var(a.val + 2), Port::new_var(w));
    net.rdex.push((a, Port::new_num(10)));
    assert_eq!(net.reduce(&book, 10), ReduceEnd::Normal);
    // the principal-met numeral is the first argument: 10 - 3
    assert_eq!(net.heap.get(w), Cell::Live(Port::new_num(7)));
}

// An operator whose operand has not arrived yet is rebuilt with the
// swapped operator; when the operand finally arrives, the fold computes
// the same result the original argument order would have.
#[test]
fn operator_curried_swap() {
    let book = empty_book();
    let mut net = fresh_net(64);
    let a = net.create_node(Tag::Op, 1); // subtraction, operands reversed below
    let u = net.heap.alloc_cells(2, 2);
    net.link_port_port(Port::new_var(a.val + 1), Port::new_var(u));
    let w = net.heap.alloc_cells(2, 2);
    net.link_port_port(Port::new_var(a.val + 2), Port::new_var(w));
    net.rdex.push((a, Port::new_num(10)));
    assert_eq!(net.reduce(&book, 10), ReduceEnd::Normal);
    // nothing folded yet; a swapped-operator node took the agent's place
    assert_eq!(net.rwts.oper, 0);
    let x = match net.heap.get(u) {
        Cell::Live(p) => p,
        Cell::Free => panic!("operand wire lost"),
    };
    assert!(matches!(x.tag, Tag::Op));
    assert_eq!(x.lab, 2); // the mirror of subtraction
    assert_eq!(net.heap.get(x.val + 1), Cell::Live(Port::new_num(10)));
    // now the missing operand arrives through the wire
    net.link_wire_port(u, Port::new_num(3));
    assert_eq!(net.reduce(&book, 10), ReduceEnd::Normal);
    assert_eq!(net.rwts.oper, 1);
    assert_eq!(net.heap.get(w), Cell::Live(Port::new_num(7))); // 10 - 3
}

// A match agent meeting numeral 0 wires its zero branch to the result and
// discards the successor branch, costing one erasure.
#[test]
fn match_zero_branch() {
    let book = empty_book();
    let mut net = fresh_net(64);
    let m = net.create_node(Tag::Mat, 0);
    let c = net.create_node(Tag::Ctr(2), 0); // the (zero, successor) case pair
    net.link_port_port(Port::new_var(c.val + 1), Port::new_num(42)); // zero branch
    net.link_port_port(Port::new_var(c.val + 2), Port::new_num(7)); // successor branch
    net.link_port_port(Port::new_var(m.val + 1), c);
    let w = net.heap.alloc_cells(2, 2);
    net.link_port_port(Port::new_var(m.val + 2), Port::new_var(w));
    net.rdex.push((m, Port::new_num(0)));
    assert_eq!(net.reduce(&book, 10), ReduceEnd::Normal);
    // the zero branch reached the result; the successor branch was erased
    assert_eq!(net.heap.get(w), Cell::Live(Port::new_num(42)));
    assert_eq!(net.rwts.eras, 1);
    assert_eq!(net.rwts.oper, 1);
    assert_eq!(net.rwts.anni, 1);
    assert_eq!(net.rwts.comm, 0);
}

// A match agent meeting numeral k > 0 feeds the decremented numeral and
// the result wire to the successor branch and discards the zero branch.
#[test]
fn match_succ_branch() {
    let book = empty_book();
    let mut net = fresh_net(64);
    let m = net.create_node(Tag::Mat, 0);
    let c = net.create_node(Tag::Ctr(2), 0);
    net.link_port_port(Port::new_var(c.val + 1), Port::new_num(42)); // zero branch
    net.link_port_port(Port::new_var(c.val + 2), Port::new_num(7)); // successor branch
    net.link_port_port(Port::new_var(m.val + 1), c);
    let w = net.heap.alloc_cells(2, 2);
    net.link_port_port(Port::new_var(m.val + 2), Port::new_var(w));
    net.rdex.push((m, Port::new_num(3)));
    assert_eq!(net.reduce(&book, 10), ReduceEnd::Normal);
    // the successor branch (here a plain numeral) consumed the pair of the
    // decremented numeral and the result wire by duplication
    assert_eq!(net.heap.get(w), Cell::Live(Port::new_num(7)));
    assert_eq!(net.rwts.oper, 1);
    assert_eq!(net.rwts.anni, 1);
    assert_eq!(net.rwts.comm, 1);
    assert_eq!(net.rwts.eras, 2); // zero branch, and the spent decrement pair
}

// Two same-tag, same-label binary agents with numeral-bound auxiliary
// ports annihilate to zero redexes and zero remaining live cells.
#[test]
fn annihilation_identity() {
    let book = empty_book();
    let mut net = fresh_net(16);
    let a = net.create_node(Tag::Ctr(2), 3);
    let b = net.create_node(Tag::Ctr(2), 3);
    net.link_port_port(Port::new_var(a.val + 1), Port::new_num(11));
    net.link_port_port(Port::new_var(a.val + 2), Port::new_num(12));
    net.link_port_port(Port::new_var(b.val + 1), Port::new_num(13));
    net.link_port_port(Port::new_var(b.val + 2), Port::new_num(14));
    net.rdex.push((a, b));
    assert_eq!(net.reduce(&book, 10), ReduceEnd::Normal);
    assert_eq!(net.rdex.len(), 0);
    assert_eq!(net.rwts.anni, 1);
    assert_eq!(net.rwts.eras, 2);
    assert_eq!(net.rwts.comm, 0);
    assert_eq!(net.rwts.oper, 0);
    // no live cell from the two agent bodies is left anywhere
    for i in 0..16u64 {
        assert_eq!(net.heap.get(i), Cell::Free);
    }
}

// Commuting two binary agents makes live exactly the eight auxiliary cells
// of the four copies and consumes the four original wire cells.
#[test]
fn commutation_linearity_delta() {
    let book = empty_book();
    let mut net = fresh_net(64);
    let a = net.create_node(Tag::Ctr(2), 0);
    let b = net.create_node(Tag::Ctr(2), 1); // different label: they commute
    net.link_port_port(Port::new_var(a.val + 1), Port::new_num(1));
    net.link_port_port(Port::new_var(a.val + 2), Port::new_num(2));
    net.link_port_port(Port::new_var(b.val + 1), Port::new_num(3));
    net.link_port_port(Port::new_var(b.val + 2), Port::new_num(4));
    let live_before = count_live(&net, 64);
    net.rdex.push((a, b));
    assert_eq!(net.reduce(&book, 1), ReduceEnd::Budget);
    assert_eq!(net.rwts.comm, 1);
    assert_eq!(count_live(&net, 64), live_before + 4);
}

fn count_live(net: &Net, cap: u64) -> u64 {
    let mut n = 0;
    for i in 0..cap {
        if net.heap.get(i).is_live() {
            n += 1;
        }
    }
    n
}

// Two skippable agents meeting is a pure erasure: no allocation, one
// erasure counted.
#[test]
fn erasure_pairs() {
    let book = empty_book();
    let mut net = fresh_net(16);
    net.rdex.push((Port::new_era(), Port::new_era()));
    net.rdex.push((Port::new_num(5), Port::new_era()));
    net.rdex.push((Port::new_num(5), Port::new_num(6)));
    // a reference meeting an eraser is erased, not materialized
    net.rdex.push((Port::new(Tag::Ref, 0, 0), Port::new_era()));
    assert_eq!(net.reduce(&book, 10), ReduceEnd::Normal);
    assert_eq!(net.rwts.eras, 4);
    assert_eq!(net.heap.bump(), 0);
}

// A mismatched operator pair is an open extension point: the reducer
// fails loudly instead of guessing.
#[test]
fn unsupported_operator_mismatch() {
    let book = empty_book();
    let mut net = fresh_net(16);
    let o1 = net.create_node(Tag::Op, 0);
    let o2 = net.create_node(Tag::Op, 1);
    net.rdex.push((o1, o2));
    assert_eq!(net.reduce(&book, 10), ReduceEnd::Fail(NetError::Unsupported));
}

// An algebraic-constructor interaction is an open extension point.
#[test]
fn unsupported_adt_ctr() {
    let book = empty_book();
    let mut net = fresh_net(16);
    let a = net.create_node(Tag::Adt(2), 0);
    let c = net.create_node(Tag::Ctr(2), 0);
    net.rdex.push((a, c));
    assert_eq!(net.reduce(&book, 10), ReduceEnd::Fail(NetError::Unsupported));
}

// A wire port on a redex side is a contract violation, fatal.
#[test]
fn violation_var_in_redex() {
    let book = empty_book();
    let mut net = fresh_net(16);
    net.rdex.push((Port::new_var(0), Port::new_num(1)));
    assert_eq!(net.reduce(&book, 10), ReduceEnd::Fail(NetError::ContractViolation));
}

// A redex whose agent reads a consumed (FREE) cell is a contract
// violation: a freed location must never be read as live data.
#[test]
fn violation_freed_cell() {
    let book = empty_book();
    let mut net = fresh_net(16);
    let a = net.create_node(Tag::Op, 0);
    // the agent's auxiliary cells were never linked: they are FREE
    net.rdex.push((a, Port::new_num(1)));
    assert_eq!(net.reduce(&book, 10), ReduceEnd::Fail(NetError::ContractViolation));
}

// Commutation needs four fresh nodes; on a full heap it is fatal.
#[test]
fn alloc_exhausted_on_commute() {
    let book = empty_book();
    let mut net = fresh_net(8);
    let a = net.create_node(Tag::Ctr(2), 0);
    let b = net.create_node(Tag::Ctr(2), 1);
    net.link_port_port(Port::new_var(a.val + 1), Port::new_num(1));
    net.link_port_port(Port::new_var(a.val + 2), Port::new_num(2));
    net.link_port_port(Port::new_var(b.val + 1), Port::new_num(3));
    net.link_port_port(Port::new_var(b.val + 2), Port::new_num(4));
    net.rdex.push((a, b));
    assert_eq!(net.reduce(&book, 10), ReduceEnd::Fail(NetError::AllocExhausted));
}

// A zero budget leaves the net valid but unfinished.
#[test]
fn budget_exhausted() {
    let book = empty_book();
    let mut net = fresh_net(16);
    net.rdex.push((Port::new_era(), Port::new_era()));
    assert_eq!(net.reduce(&book, 0), ReduceEnd::Budget);
    assert_eq!(net.rwts.eras, 0);
    assert_eq!(net.rdex.len(), 1);
}

#[test]
fn reduce_empty_is_normal() {
    let book = empty_book();
    let mut net = fresh_net(16);
    assert_eq!(net.reduce(&book, 10), ReduceEnd::Normal);
    assert_eq!(net.rwts.anni + net.rwts.comm + net.rwts.eras + net.rwts.oper, 0);
}

// Reduction is deterministic: structurally identical starting nets reach
// identical counters and identical heap images.
fn build_and_reduce() -> Net {
    let book = empty_book();
    let mut net = fresh_net(64);
    let m = net.create_node(Tag::Mat, 0);
    let c = net.create_node(Tag::Ctr(2), 0);
    net.link_port_port(Port::new_var(c.val + 1), Port::new_num(42));
    net.link_port_port(Port::new_var(c.val + 2), Port::new_num(7));
    net.link_port_port(Port::new_var(m.val + 1), c);
    let w = net.heap.alloc_cells(2, 2);
    net.link_port_port(Port::new_var(m.val + 2), Port::new_var(w));
    net.rdex.push((m, Port::new_num(2)));
    assert_eq!(net.reduce(&book, 100), ReduceEnd::Normal);
    net
}

#[test]
fn idempotent_normal_form() {
    let n1 = build_and_reduce();
    let n2 = build_and_reduce();
    assert_eq!(n1.rwts, n2.rwts);
    assert_eq!(n1.rdex.len(), 0);
    assert_eq!(n2.rdex.len(), 0);
    for i in 0..64u64 {
        assert_eq!(n1.heap.get(i), n2.heap.get(i));
    }
}

// Annihilation cross-links auxiliary wires pairwise at any arity, not
// just for binary agents.
#[test]
fn annihilation_ternary() {
    let book = empty_book();
    let mut net = fresh_net(16);
    let a = net.create_node(Tag::Ctr(3), 0);
    let b = net.create_node(Tag::Ctr(3), 0);
    for i in 1..4u64 {
        net.link_port_port(Port::new_var(a.val + i), Port::new_num(i));
        net.link_port_port(Port::new_var(b.val + i), Port::new_num(10 + i));
    }
    net.rdex.push((a, b));
    assert_eq!(net.reduce(&book, 10), ReduceEnd::Normal);
    assert_eq!(net.rwts.anni, 1);
    assert_eq!(net.rwts.eras, 3);
    for i in 0..16u64 {
        assert_eq!(net.heap.get(i), Cell::Free);
    }
}

// A numeral commutes past a constructor by simple duplication: the fast
// copy, with no fresh allocation.
#[test]
fn numeral_copies_through_constructor() {
    let book = empty_book();
    let mut net = fresh_net(16);
    let c = net.create_node(Tag::Ctr(2), 0);
    net.link_port_port(Port::new_var(c.val + 1), Port::new_num(1));
    net.link_port_port(Port::new_var(c.val + 2), Port::new_num(2));
    let before = net.heap.bump();
    net.rdex.push((Port::new_num(9), c));
    assert_eq!(net.reduce(&book, 10), ReduceEnd::Normal);
    assert_eq!(net.rwts.comm, 1);
    assert_eq!(net.rwts.eras, 2);
    assert_eq!(net.heap.bump(), before);
}

// An eraser propagates through a unary agent as well.
#[test]
fn eraser_through_unary_agent() {
    let book = empty_book();
    let mut net = fresh_net(16);
    let c = net.create_node(Tag::Ctr(1), 0);
    net.link_port_port(Port::new_var(c.val + 1), Port::new_num(5));
    net.rdex.push((Port::new_era(), c));
    assert_eq!(net.reduce(&book, 10), ReduceEnd::Normal);
    assert_eq!(net.rwts.comm, 1);
    assert_eq!(net.rwts.eras, 1);
}

// Mixed-arity commutation: a unary and a binary agent are each duplicated
// once per auxiliary port of the other and reduce to completion.
#[test]
fn commutation_mixed_arity() {
    let book = empty_book();
    let mut net = fresh_net(64);
    let a = net.create_node(Tag::Ctr(1), 0);
    let b = net.create_node(Tag::Ctr(2), 0); // different tag: they commute
    net.link_port_port(Port::new_var(a.val + 1), Port::new_num(1));
    net.link_port_port(Port::new_var(b.val + 1), Port::new_num(2));
    net.link_port_port(Port::new_var(b.val + 2), Port::new_num(3));
    net.rdex.push((a, b));
    assert_eq!(net.reduce(&book, 20), ReduceEnd::Normal);
    assert_eq!(net.rwts.comm, 4); // the mixed step, then three numeral copies
    assert_eq!(net.rwts.eras, 2);
    assert_eq!(net.rwts.anni, 0);
    assert_eq!(net.rwts.oper, 0);
    for i in 0..64u64 {
        assert_eq!(net.heap.get(i), Cell::Free);
    }
    assert_eq!(net.heap.bump(), 16);
}
