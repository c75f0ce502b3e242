// The linking protocol on shared wires: for the orders in which two
// parties may resolve the two ends of the same wires, the final state is
// the same — the logical edge is established exactly once, and every
// consumed wire cell ends FREE.

use inet::heap::{init_heap, Cell};
use inet::net::Net;
use inet::port::{Port, Tag};

fn fresh_net(cap: usize) -> Net {
    Net::new(init_heap(cap))
}

#[test]
fn fuzz_var_link_link_var() {
    for order in 0..2 {
        let mut net = fresh_net(256);
        let x = net.heap.alloc_cells(2, 2);
        let y = net.heap.alloc_cells(2, 2);
        let z = net.heap.alloc_cells(2, 2);
        let a = Port::new_var(x);
        let b = Port::new_var(x + 1);
        let c = Port::new_var(y);
        let d = Port::new_var(y + 1);
        let e = Port::new_var(z);
        let f = Port::new_var(z + 1);
        net.link_port_port(a, b);
        net.link_port_port(c, d);
        net.link_port_port(e, f);
        if order == 0 {
            net.link_wire_wire(b.val, c.val);
            net.link_wire_wire(d.val, e.val);
        } else {
            net.link_wire_wire(d.val, e.val);
            net.link_wire_wire(b.val, c.val);
        }
        // walking from either original endpoint reaches the other
        assert_eq!(net.heap.get(a.val), Cell::Live(f));
        assert_eq!(net.heap.get(f.val), Cell::Live(a));
        // every previously-used middle cell ends as FREE
        for w in [b, c, d, e] {
            assert_eq!(net.heap.get(w.val), Cell::Free);
        }
        assert_eq!(net.rdex.len(), 0);
    }
}

#[test]
fn fuzz_pri_link_link_pri() {
    let p = Port::new(Tag::Ctr(2), 0, 0);
    let q = Port::new(Tag::Ctr(2), 1, 0);
    for order in 0..2 {
        let mut net = fresh_net(256);
        let x = net.heap.alloc_cells(2, 2);
        let a = Port::new_var(x);
        let b = Port::new_var(x + 1);
        net.link_port_port(a, b);
        if order == 0 {
            net.link_wire_port(a.val, p);
            net.link_wire_port(b.val, q);
        } else {
            net.link_wire_port(b.val, q);
            net.link_wire_port(a.val, p);
        }
        // exactly one redex pairing p with q, never zero, never two
        assert_eq!(net.rdex.len(), 1);
        let (r0, r1) = net.rdex[0];
        assert!((r0, r1) == (p, q) || (r0, r1) == (q, p));
        for w in [a, b] {
            assert_eq!(net.heap.get(w.val), Cell::Free);
        }
    }
}

#[test]
fn fuzz_var_link_link_pri() {
    for order in 0..2 {
        let mut net = fresh_net(256);
        let x = net.heap.alloc_cells(2, 2);
        let y = net.heap.alloc_cells(2, 2);
        let a = Port::new_var(x);
        let b = Port::new_var(x + 1);
        let c = Port::new_var(y);
        let d = Port::new_var(y + 1);
        net.link_port_port(a, b);
        net.link_port_port(c, d);
        if order == 0 {
            net.link_wire_wire(b.val, c.val);
            net.link_wire_port(d.val, Port::new_era());
        } else {
            net.link_wire_port(d.val, Port::new_era());
            net.link_wire_wire(b.val, c.val);
        }
        assert_eq!(net.heap.get(a.val), Cell::Live(Port::new_era()));
        for w in [b, c, d] {
            assert_eq!(net.heap.get(w.val), Cell::Free);
        }
        assert_eq!(net.rdex.len(), 0);
    }
}

#[test]
fn wire_to_wire_relink_keeps_endpoints() {
    let mut net = fresh_net(64);
    let x = net.heap.alloc_cells(2, 2);
    let y = net.heap.alloc_cells(2, 2);
    let a = Port::new_var(x);
    let b = Port::new_var(x + 1);
    let c = Port::new_var(y);
    let d = Port::new_var(y + 1);
    net.link_port_port(a, b);
    net.link_port_port(c, d);
    net.link_wire_wire(b.val, c.val);
    assert_eq!(net.heap.get(a.val), Cell::Live(d));
    assert_eq!(net.heap.get(d.val), Cell::Live(a));
    assert_eq!(net.heap.get(b.val), Cell::Free);
    assert_eq!(net.heap.get(c.val), Cell::Free);
}
