//! Named definitions. A `Def` is an immutable template — a heap image of
//! nodes, a list of template redexes, and a root port — and a `Book` maps
//! definition ids to validated defs. Materializing a reference allocates
//! fresh cells isomorphic to the template, queues its redexes, and links
//! its root into the caller's context, as if the def's body had always
//! stood in that position.

use vstd::prelude::*;
use crate::port::{Port, Tag, port_ok, check_port};
use crate::heap::{Cell, round_up};
use crate::err::NetError;
use crate::net::{NetV, Net, lpp_spec, var_ok};

verus! {

/// The label-safety descriptor handed to generated code: every label below
/// `min_safe` commutes safely through the definition's agents, and the
/// bitset marks additional safe labels.
pub struct LabSet {
    pub min_safe: u16,
    pub bits: Vec<u64>,
}

impl LabSet {
    pub open spec fn spec_contains(self, lab: u16) -> bool {
        ||| lab < self.min_safe
        ||| (lab as int / 64 < self.bits@.len() && (self.bits@[lab as int / 64] >> (
            lab as u64 % 64
        )) & 1 == 1)
    }

    pub fn contains(&self, lab: u16) -> (r: bool)
        ensures
            r == self.spec_contains(lab),
    {
        if lab < self.min_safe {
            return true;
        }
        let idx = (lab / 64) as usize;
        if idx < self.bits.len() {
            (self.bits[idx] >> (lab as u64 % 64)) & 1 == 1
        } else {
            false
        }
    }

    /// A descriptor that marks no label as safe.
    pub fn empty() -> (r: LabSet)
        ensures
            r.min_safe == 0,
            r.bits@.len() == 0,
    {
        LabSet { min_safe: 0, bits: Vec::new() }
    }
}

/// Whether a port of this tag carries a heap location in its payload.
pub open spec fn spec_has_loc(tag: Tag) -> bool {
    match tag {
        Tag::Var | Tag::Red | Tag::Op | Tag::Mat => true,
        Tag::Ctr(n) => n > 0,
        Tag::Adt(n) => n > 0,
        Tag::Ref | Tag::Num | Tag::Era | Tag::AdtZ => false,
    }
}

pub fn has_loc(tag: Tag) -> (r: bool)
    ensures
        r == spec_has_loc(tag),
{
    match tag {
        Tag::Var | Tag::Red | Tag::Op | Tag::Mat => true,
        Tag::Ctr(n) => n > 0,
        Tag::Adt(n) => n > 0,
        Tag::Ref | Tag::Num | Tag::Era | Tag::AdtZ => false,
    }
}

/// Relocates a template port to a freshly allocated image at `base`.
pub open spec fn spec_shift_port(p: Port, base: u64) -> Port {
    if spec_has_loc(p.tag) {
        Port { tag: p.tag, lab: p.lab, val: (p.val + base) as u64 }
    } else {
        p
    }
}

#[verifier::when_used_as_spec(spec_shift_port)]
pub fn shift_port(p: Port, base: u64) -> (r: Port)
    requires
        spec_has_loc(p.tag) ==> p.val + base <= u64::MAX,
    ensures
        r == spec_shift_port(p, base),
{
    if has_loc(p.tag) {
        Port { tag: p.tag, lab: p.lab, val: p.val + base }
    } else {
        p
    }
}

/// An immutable template for one named top-level agent network.
pub struct Def {
    /// The template heap image; every location in it is relative to the
    /// image's own start.
    pub cells: Vec<Cell>,
    /// The template redexes, each a normalized pair: an atom against a
    /// term.
    pub rdex: Vec<(Port, Port)>,
    /// The port standing for the definition's body, linked against
    /// whatever met the reference.
    pub root: Port,
    /// Label-safety descriptor for the code generated from this def.
    pub labs: LabSet,
}

/// A well-formed template: every stored port stays inside the image,
/// every template redex pairs an atom against a principal term, and the
/// root is a port of the image.
pub open spec fn def_ok(d: Def) -> bool {
    let len = d.cells@.len();
    &&& forall|i: int|
        0 <= i < d.cells@.len() && d.cells@[i] is Live ==> port_ok(
            (#[trigger] d.cells@[i]).port(),
            len,
        )
    &&& forall|i: int|
        0 <= i < d.rdex@.len() ==> {
            &&& port_ok((#[trigger] d.rdex@[i]).0, len)
            &&& port_ok(d.rdex@[i].1, len)
            &&& d.rdex@[i].0.is_atom()
            &&& d.rdex@[i].1.is_pri()
        }
    &&& port_ok(d.root, len)
}

/// Restores the normalized orientation of a template redex — the atom (a
/// reference, numeral, or eraser) first — or reports the contract
/// violation when no side or both sides are atoms.
pub open spec fn spec_adjust_redex(rf: Port, rx: Port) -> Result<(Port, Port), NetError> {
    if rf.is_atom() && !rx.is_atom() {
        Ok((rf, rx))
    } else if !rf.is_atom() && rx.is_atom() {
        Ok((rx, rf))
    } else {
        Err(NetError::ContractViolation)
    }
}

pub fn adjust_redex(rf: Port, rx: Port) -> (r: Result<(Port, Port), NetError>)
    ensures
        r == spec_adjust_redex(rf, rx),
{
    if rf.is_atom() && !rx.is_atom() {
        Ok((rf, rx))
    } else if !rf.is_atom() && rx.is_atom() {
        Ok((rx, rf))
    } else {
        Err(NetError::ContractViolation)
    }
}

/// The validation pass run at def-load time, so that a malformed
/// definition is rejected up front instead of discovered mid-reduction.
pub fn validate_def(d: &Def) -> (r: bool)
    ensures
        r == def_ok(*d),
{
    let len = d.cells.len();
    let mut i: usize = 0;
    while i < len
        invariant
            0 <= i <= len,
            len == d.cells@.len(),
            forall|k: int|
                0 <= k < i && d.cells@[k] is Live ==> port_ok(
                    (#[trigger] d.cells@[k]).port(),
                    len as nat,
                ),
        decreases len - i,
    {
        let c = d.cells[i];
        if c.is_live() {
            if !check_port(&c.port(), len) {
                return false;
            }
        }
        i = i + 1;
    }
    let m = d.rdex.len();
    let mut j: usize = 0;
    while j < m
        invariant
            0 <= j <= m,
            m == d.rdex@.len(),
            len == d.cells@.len(),
            forall|k: int|
                0 <= k < j ==> {
                    &&& port_ok((#[trigger] d.rdex@[k]).0, len as nat)
                    &&& port_ok(d.rdex@[k].1, len as nat)
                    &&& d.rdex@[k].0.is_atom()
                    &&& d.rdex@[k].1.is_pri()
                },
            forall|k: int|
                0 <= k < d.cells@.len() && d.cells@[k] is Live ==> port_ok(
                    (#[trigger] d.cells@[k]).port(),
                    len as nat,
                ),
        decreases m - j,
    {
        let (x, y) = d.rdex[j];
        if !(check_port(&x, len) && check_port(&y, len) && x.is_atom() && y.is_pri()) {
            return false;
        }
        j = j + 1;
    }
    check_port(&d.root, len)
}

/// The table of named definitions; constructing it validates every def.
pub struct Book {
    defs: Vec<Def>,
}

impl Book {
    pub closed spec fn spec_defs(self) -> Seq<Def> {
        self.defs@
    }

    /// Every def a constructed book holds is well formed.
    pub open spec fn wf(self) -> bool {
        forall|i: int| 0 <= i < self.spec_defs().len() ==> def_ok(#[trigger] self.spec_defs()[i])
    }

    /// Accepts the table exactly when every definition validates; a single
    /// malformed def rejects the whole book.
    pub fn new(defs: Vec<Def>) -> (r: Result<Book, NetError>)
        ensures
            match r {
                Ok(b) => {
                    &&& b.spec_defs() == defs@
                    &&& b.wf()
                },
                Err(e) => {
                    &&& e == NetError::ContractViolation
                    &&& exists|i: int| 0 <= i < defs@.len() && !def_ok(#[trigger] defs@[i])
                },
            },
    {
        let n = defs.len();
        let mut i: usize = 0;
        while i < n
            invariant
                0 <= i <= n,
                n == defs@.len(),
                forall|k: int| 0 <= k < i ==> def_ok(#[trigger] defs@[k]),
            decreases n - i,
        {
            if !validate_def(&defs[i]) {
                return Err(NetError::ContractViolation);
            }
            i = i + 1;
        }
        Ok(Book { defs })
    }

    pub fn len(&self) -> (n: usize)
        ensures
            n == self.spec_defs().len(),
    {
        self.defs.len()
    }

    pub fn get(&self, i: usize) -> (d: &Def)
        requires
            i < self.spec_defs().len(),
        ensures
            *d == self.spec_defs()[i as int],
    {
        &self.defs[i]
    }
}

/// Heap image after the first `k` template cells have been copied, shifted
/// to `base`; FREE template cells are skipped (the fresh run is untouched
/// there).
pub open spec fn write_tpl(h: Seq<Cell>, tpl: Seq<Cell>, base: int, k: int) -> Seq<Cell>
    decreases k,
{
    if k <= 0 {
        h
    } else {
        let h1 = write_tpl(h, tpl, base, k - 1);
        if tpl[k - 1] is Live {
            h1.update(base + k - 1, Cell::Live(spec_shift_port(tpl[k - 1].port(), base as u64)))
        } else {
            h1
        }
    }
}

/// Redex queue after the first `k` template redexes have been pushed,
/// shifted to `base`.
pub open spec fn push_tpl(
    r: Seq<(Port, Port)>,
    tpl: Seq<(Port, Port)>,
    base: u64,
    k: int,
) -> Seq<(Port, Port)>
    decreases k,
{
    if k <= 0 {
        r
    } else {
        push_tpl(r, tpl, base, k - 1).push(
            (spec_shift_port(tpl[k - 1].0, base), spec_shift_port(tpl[k - 1].1, base)),
        )
    }
}

/// Whether the def's image fits in the heap's remaining space (at the
/// 16-aligned base the allocator would hand out).
pub open spec fn call_fits(n: NetV, d: Def) -> bool {
    d.cells@.len() == 0 || round_up(n.next, 16) + d.cells@.len() <= n.heap.len()
}

/// Transition of `call`: allocate the image, copy the template cells
/// shifted to the fresh base, queue the shifted template redexes, and link
/// the shifted root against the port that met the reference.
pub open spec fn call_spec(n: NetV, d: Def, b: Port) -> NetV {
    let len = d.cells@.len() as int;
    let base: int = if len == 0 { 0 } else { round_up(n.next, 16) };
    let n1 = NetV {
        heap: write_tpl(n.heap, d.cells@, base, len),
        next: if len == 0 { n.next } else { base + len },
        ..n
    };
    let n2 = NetV { rdex: push_tpl(n1.rdex, d.rdex@, base as u64, d.rdex@.len() as int), ..n1 };
    lpp_spec(n2, spec_shift_port(d.root, base as u64), b)
}

impl Net {
    /// Materializes the definition referenced by `a` against the port `b`
    /// it met: fresh nodes isomorphic to the def's template are allocated,
    /// its internal redexes are queued, and its root takes the reference's
    /// place.
    pub fn call(&mut self, book: &Book, a: Port, b: Port)
        requires
            a.tag is Ref,
            a.val < book.spec_defs().len(),
            def_ok(book.spec_defs()[a.val as int]),
            call_fits(old(self)@, book.spec_defs()[a.val as int]),
            var_ok(b, old(self)@.heap.len()),
        ensures
            final(self)@ == call_spec(old(self)@, book.spec_defs()[a.val as int], b),
    {
        let _nbook = book.len();
        let def = book.get(a.val as usize);
        let len = def.cells.len();
        let base: u64 = if len == 0 {
            0
        } else {
            self.heap.alloc_cells(len as u64, 16)
        };
        let ghost d = book.spec_defs()[a.val as int];
        let ghost n0 = old(self)@;
        let heap_len = self.heap.len();
        let mut i: usize = 0;
        while i < len
            invariant
                0 <= i <= len,
                len == d.cells@.len(),
                def.cells@ == d.cells@,
                def_ok(d),
                len > 0 ==> base + len <= heap_len,
                heap_len == self@.heap.len(),
                self@.heap == write_tpl(n0.heap, d.cells@, base as int, i as int),
                self@.next == (if len == 0 { n0.next } else { base + len }),
                self@.rdex == n0.rdex,
                self@.rwts == n0.rwts,
                base + len <= u64::MAX,
            decreases len - i,
        {
            let c = def.cells[i];
            match c {
                Cell::Free => {},
                Cell::Live(p) => {
                    let sp = shift_port(p, base);
                    self.heap.set(base + i as u64, Cell::Live(sp));
                },
            }
            i = i + 1;
        }
        let m = def.rdex.len();
        let mut j: usize = 0;
        while j < m
            invariant
                0 <= j <= m,
                m == d.rdex@.len(),
                def.rdex@ == d.rdex@,
                def_ok(d),
                len == d.cells@.len(),
                len > 0 ==> base + len <= heap_len,
                heap_len == self@.heap.len(),
                self@.heap == write_tpl(n0.heap, d.cells@, base as int, len as int),
                self@.next == (if len == 0 { n0.next } else { base + len }),
                self@.rdex == push_tpl(n0.rdex, d.rdex@, base, j as int),
                self@.rwts == n0.rwts,
                base + len <= u64::MAX,
            decreases m - j,
        {
            let (x, y) = def.rdex[j];
            let sx = shift_port(x, base);
            let sy = shift_port(y, base);
            self.rdex.push((sx, sy));
            j = j + 1;
        }
        let root = def.root;
        let sroot = shift_port(root, base);
        self.link_port_port(sroot, b);
    }
}

} // verus!
