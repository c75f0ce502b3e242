// Definitions, the book, materialization, the allocator's public face,
// the operator table, and the port encoding.

use inet::def::{adjust_redex, Book, Def, LabSet};
use inet::err::{NetError, ReduceEnd};
use inet::heap::{init_heap, Cell};
use inet::net::{Net, Rewrites};
use inet::ops::IntOp;
use inet::port::{Port, Tag};

fn fresh_net(cap: usize) -> Net {
    Net::new(init_heap(cap))
}

fn pair_def() -> Def {
    // a single binary constructor holding two numerals
    Def {
        cells: vec![
            Cell::Free,
            Cell::Live(Port::new_num(5)),
            Cell::Live(Port::new_num(6)),
            Cell::Free,
        ],
        rdex: Vec::new(),
        root: Port::new(Tag::Ctr(2), 0, 0),
        labs: LabSet::empty(),
    }
}

#[test]
fn adjust_redex_orients_atom_first() {
    let atom = Port::new_num(1);
    let term = Port::new(Tag::Ctr(2), 0, 0);
    assert_eq!(adjust_redex(atom, term), Ok((atom, term)));
    assert_eq!(adjust_redex(term, atom), Ok((atom, term)));
    assert_eq!(adjust_redex(atom, Port::new_era()), Err(NetError::ContractViolation));
    assert_eq!(adjust_redex(term, term), Err(NetError::ContractViolation));
}

#[test]
fn book_rejects_malformed_def() {
    let mut bad = pair_def();
    // a template redex with no atom side is not normalized
    bad.rdex.push((Port::new(Tag::Ctr(2), 0, 0), Port::new(Tag::Ctr(2), 0, 0)));
    match Book::new(vec![bad]) {
        Err(e) => assert_eq!(e, NetError::ContractViolation),
        Ok(_) => panic!("malformed def accepted"),
    }
    let mut out_of_range = pair_def();
    // a template port pointing outside the image is rejected
    out_of_range.root = Port::new(Tag::Ctr(2), 0, 7);
    assert!(Book::new(vec![out_of_range]).is_err());
}

#[test]
fn materialize_def_against_numeral() {
    let book = Book::new(vec![pair_def()]).unwrap();
    let mut net = fresh_net(64);
    net.rdex.push((Port::new(Tag::Ref, 0, 0), Port::new_num(3)));
    assert_eq!(net.reduce(&book, 10), ReduceEnd::Normal);
    // the numeral was duplicated into both fields, then erased against them
    assert_eq!(net.rwts.comm, 1);
    assert_eq!(net.rwts.eras, 2);
    assert_eq!(net.heap.bump(), 4);
    for i in 0..4u64 {
        assert_eq!(net.heap.get(i), Cell::Free);
    }
}

#[test]
fn materialize_def_with_template_redexes() {
    let def = Def {
        cells: Vec::new(),
        rdex: vec![(Port::new_num(1), Port::new_era())],
        root: Port::new_num(9),
        labs: LabSet::empty(),
    };
    let book = Book::new(vec![def]).unwrap();
    let mut net = fresh_net(16);
    net.rdex.push((Port::new(Tag::Ref, 0, 0), Port::new_num(3)));
    assert_eq!(net.reduce(&book, 10), ReduceEnd::Normal);
    // the root met the numeral, and the template redex ran: two erasures
    assert_eq!(net.rwts.eras, 2);
    assert_eq!(net.heap.bump(), 0);
}

#[test]
fn unknown_definition_is_fatal() {
    let book = Book::new(Vec::new()).unwrap();
    let mut net = fresh_net(16);
    net.rdex.push((Port::new(Tag::Ref, 0, 9), Port::new_num(3)));
    assert_eq!(net.reduce(&book, 10), ReduceEnd::Fail(NetError::ContractViolation));
}

#[test]
fn materialize_without_room_is_fatal() {
    let book = Book::new(vec![pair_def()]).unwrap();
    let mut net = fresh_net(2);
    net.rdex.push((Port::new(Tag::Ref, 0, 0), Port::new_num(3)));
    assert_eq!(net.reduce(&book, 10), ReduceEnd::Fail(NetError::AllocExhausted));
}

#[test]
fn labset_contains() {
    let labs = LabSet { min_safe: 2, bits: vec![0b100] };
    assert!(labs.contains(0));
    assert!(labs.contains(1));
    assert!(labs.contains(2));
    assert!(!labs.contains(3));
    assert!(!labs.contains(64));
    assert!(!LabSet::empty().contains(0));
}

#[test]
fn allocator_exhaustion() {
    let mut heap = init_heap(4);
    assert_eq!(heap.try_alloc(4), Ok(0));
    assert_eq!(heap.try_alloc(1), Err(NetError::AllocExhausted));
}

#[test]
fn allocator_aligns() {
    let mut heap = init_heap(64);
    assert_eq!(heap.try_alloc(2), Ok(0));
    // a four-cell node starts on a four-cell boundary
    assert_eq!(heap.try_alloc(4), Ok(4));
    assert_eq!(heap.try_alloc(2), Ok(8));
    assert_eq!(heap.bump(), 10);
}

#[test]
fn free_writes_sentinels() {
    let mut heap = init_heap(8);
    heap.set(2, Cell::Live(Port::new_num(1)));
    heap.set(3, Cell::Live(Port::new_num(2)));
    heap.set(6, Cell::Live(Port::new_num(3)));
    heap.free(2, 4);
    for i in 2..6u64 {
        assert_eq!(heap.get(i), Cell::Free);
    }
    assert_eq!(heap.get(6), Cell::Live(Port::new_num(3)));
}

#[test]
fn rewrites_merge_sums() {
    let mut r = Rewrites { anni: 1, comm: 2, eras: 3, oper: 4 };
    let other = Rewrites { anni: 10, comm: 20, eras: 30, oper: 40 };
    r.merge(&other);
    assert_eq!(r, Rewrites { anni: 11, comm: 22, eras: 33, oper: 44 });
}

#[test]
fn operator_table() {
    assert_eq!(IntOp::Add.eval(u64::MAX, 1), 0); // wrapping
    assert_eq!(IntOp::Sub.eval(3, 5), u64::MAX - 1);
    assert_eq!(IntOp::Div.eval(7, 0), 0); // a zero divisor yields zero
    assert_eq!(IntOp::Rem.eval(7, 3), 1);
    assert_eq!(IntOp::Lt.eval(3, 5), 1);
    assert_eq!(IntOp::Gt.eval(3, 5), 0);
    assert_eq!(IntOp::Sub.swap(), IntOp::SubR);
    assert_eq!(IntOp::SubR.eval(3, 10), 7);
    assert_eq!(IntOp::Xor.eval(0b1100, 0b1010), 0b0110);
}

#[test]
fn port_encoding() {
    // structural value equality, independent of where a port was copied
    assert_eq!(Port::new_num(5), Port::new_num(5));
    assert!(Port::new_num(5) != Port::new_num(6));
    let p = Port::new(Tag::Ctr(3), 2, 40);
    assert_eq!(p.arity(), 3);
    assert_eq!(p.tag.align(), 4);
    assert_eq!(p.aux_port(2), 42);
    assert!(p.is_ctr() && p.is_pri() && !p.is_skp());
    assert!(Port::new_era().is_skp() && Port::new_num(0).is_skp());
    assert!(!Port::new(Tag::Ref, 0, 0).is_skp());
    assert!(Port::new_var(7).is_var());
    assert_eq!(Tag::Op.arity(), 2);
    assert_eq!(Tag::Era.align(), 1);
    assert_eq!(Tag::Ctr(5).align(), 8);
}

#[test]
fn fork_splits_queue_evenly() {
    let mut net = fresh_net(16);
    for i in 0..7u64 {
        net.rdex.push((Port::new_num(i), Port::new_num(100 + i)));
    }
    let qs = net.fork_redexes(3);
    assert_eq!(net.rdex.len(), 0);
    assert_eq!(qs.len(), 3);
    // slice bounds t*7/3: 0..2, 2..4, 4..7
    assert_eq!(qs[0].len(), 2);
    assert_eq!(qs[1].len(), 2);
    assert_eq!(qs[2].len(), 3);
    let mut flat: Vec<(Port, Port)> = Vec::new();
    for q in &qs {
        for r in q {
            flat.push(*r);
        }
    }
    for i in 0..7u64 {
        assert_eq!(flat[i as usize], (Port::new_num(i), Port::new_num(100 + i)));
    }
}

// Shards reduced one after another against the shared heap give the same
// totals as one queue, with the per-shard counters merged at pass end.
#[test]
fn sharded_pass_merges_counters() {
    let book = Book::new(Vec::new()).unwrap();
    let mut net = fresh_net(16);
    net.rdex.push((Port::new_era(), Port::new_era()));
    net.rdex.push((Port::new_num(1), Port::new_num(2)));
    net.rdex.push((Port::new_num(3), Port::new_era()));
    let qs = net.fork_redexes(2);
    let mut total = Rewrites { anni: 0, comm: 0, eras: 0, oper: 0 };
    for q in qs {
        let mut shard = fresh_net(16);
        shard.rdex = q;
        assert_eq!(shard.reduce(&book, 10), ReduceEnd::Normal);
        total.merge(&shard.rwts);
    }
    assert_eq!(total.eras, 3);
    assert_eq!(total.anni + total.comm + total.oper, 0);
}
