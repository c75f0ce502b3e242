//! The value representation of a graph endpoint: a tag classifying the
//! agent (or wire role), a small label, and a payload that is either a heap
//! location, an immediate numeral, or a definition id.

use vstd::prelude::*;

verus! {

/// Largest auxiliary-port count any agent may have.
pub const MAX_ARITY: u8 = 8;

/// Classifies a graph endpoint.
#[derive(Clone, Copy, PartialEq, Eq, Structural, Debug)]
pub enum Tag {
    /// One end of a half-resolved wire; the payload is the wire cell it
    /// points back into.
    Var,
    /// An internal redirection; never user-visible in a finished step and
    /// never on either side of a queued redex.
    Red,
    /// A reference to a named definition; the payload is the definition id.
    Ref,
    /// An immediate numeral; the payload is the value.
    Num,
    /// The erasure agent; no payload.
    Era,
    /// A constructor of the given arity; the label distinguishes "colors"
    /// that decide whether two same-arity constructors annihilate or
    /// commute. The payload is the node's heap location.
    Ctr(u8),
    /// The binary arithmetic agent; the label is the operator id and the
    /// payload is the node's heap location.
    Op,
    /// The numeral pattern-match agent; the payload is the node's location.
    Mat,
    /// An algebraic-data-type agent of the given arity; payload and label
    /// as for `Ctr`.
    Adt(u8),
    /// A nilary algebraic-data-type agent; no payload.
    AdtZ,
}

impl Tag {
    /// How many auxiliary ports an agent with this tag has.
    pub open spec fn spec_arity(self) -> nat {
        match self {
            Tag::Var | Tag::Red | Tag::Ref | Tag::Num | Tag::Era | Tag::AdtZ => 0,
            Tag::Ctr(n) => n as nat,
            Tag::Op | Tag::Mat => 2,
            Tag::Adt(n) => n as nat,
        }
    }

    pub fn arity(self) -> (r: u8)
        ensures
            r as nat == self.spec_arity(),
    {
        match self {
            Tag::Var | Tag::Red | Tag::Ref | Tag::Num | Tag::Era | Tag::AdtZ => 0,
            Tag::Ctr(n) => n,
            Tag::Op | Tag::Mat => 2,
            Tag::Adt(n) => n,
        }
    }

    /// Allocation granularity of a node with this tag: the smallest power
    /// of two covering the principal slot plus the auxiliary slots.
    pub open spec fn spec_align(self) -> nat {
        let w = self.spec_arity() + 1;
        if w <= 1 { 1 }
        else if w <= 2 { 2 }
        else if w <= 4 { 4 }
        else if w <= 8 { 8 }
        else { 16 }
    }

    pub fn align(self) -> (r: u8)
        ensures
            r as nat == self.spec_align(),
            self.spec_arity() <= MAX_ARITY ==> self.spec_arity() < r as nat,
    {
        let a = self.arity();
        if a == 0 { 1 }
        else if a <= 1 { 2 }
        else if a <= 3 { 4 }
        else if a <= 7 { 8 }
        else { 16 }
    }
}

/// An immutable, copyable endpoint value. Equality is structural: two ports
/// with the same fields are the same port, wherever they were copied.
#[derive(Clone, Copy, PartialEq, Eq, Structural, Debug)]
pub struct Port {
    pub tag: Tag,
    pub lab: u16,
    pub val: u64,
}

impl Port {
    pub fn new(tag: Tag, lab: u16, val: u64) -> (p: Port)
        ensures
            p == (Port { tag, lab, val }),
    {
        Port { tag, lab, val }
    }

    /// A numeral port.
    pub fn new_num(num: u64) -> (p: Port)
        ensures
            p == (Port { tag: Tag::Num, lab: 0u16, val: num }),
    {
        Port { tag: Tag::Num, lab: 0, val: num }
    }

    /// A wire endpoint pointing at the cell `loc`.
    pub fn new_var(loc: u64) -> (p: Port)
        ensures
            p == (Port { tag: Tag::Var, lab: 0u16, val: loc }),
    {
        Port { tag: Tag::Var, lab: 0, val: loc }
    }

    /// The erasure agent.
    pub fn new_era() -> (p: Port)
        ensures
            p == (Port { tag: Tag::Era, lab: 0u16, val: 0u64 }),
    {
        Port { tag: Tag::Era, lab: 0, val: 0 }
    }

    pub open spec fn spec_is_var(self) -> bool { self.tag is Var }

    #[verifier::when_used_as_spec(spec_is_var)]
    pub fn is_var(self) -> (r: bool)
        ensures r == self.spec_is_var(),
    {
        matches!(self.tag, Tag::Var)
    }

    pub open spec fn spec_is_red(self) -> bool { self.tag is Red }

    #[verifier::when_used_as_spec(spec_is_red)]
    pub fn is_red(self) -> (r: bool)
        ensures r == self.spec_is_red(),
    {
        matches!(self.tag, Tag::Red)
    }

    pub open spec fn spec_is_num(self) -> bool { self.tag is Num }

    #[verifier::when_used_as_spec(spec_is_num)]
    pub fn is_num(self) -> (r: bool)
        ensures r == self.spec_is_num(),
    {
        matches!(self.tag, Tag::Num)
    }

    pub open spec fn spec_is_era(self) -> bool { self.tag is Era }

    #[verifier::when_used_as_spec(spec_is_era)]
    pub fn is_era(self) -> (r: bool)
        ensures r == self.spec_is_era(),
    {
        matches!(self.tag, Tag::Era)
    }

    pub open spec fn spec_is_ref(self) -> bool { self.tag is Ref }

    #[verifier::when_used_as_spec(spec_is_ref)]
    pub fn is_ref(self) -> (r: bool)
        ensures r == self.spec_is_ref(),
    {
        matches!(self.tag, Tag::Ref)
    }

    pub open spec fn spec_is_ctr(self) -> bool { self.tag is Ctr }

    #[verifier::when_used_as_spec(spec_is_ctr)]
    pub fn is_ctr(self) -> (r: bool)
        ensures r == self.spec_is_ctr(),
    {
        matches!(self.tag, Tag::Ctr(_))
    }

    /// Skippable: a numeral or an eraser.
    pub open spec fn spec_is_skp(self) -> bool {
        self.tag is Num || self.tag is Era
    }

    #[verifier::when_used_as_spec(spec_is_skp)]
    pub fn is_skp(self) -> (r: bool)
        ensures r == self.spec_is_skp(),
    {
        matches!(self.tag, Tag::Num | Tag::Era)
    }

    /// An atom: a reference, a numeral, or an eraser. A normalized
    /// definition pairs an atom against an arbitrary term in each of its
    /// template redexes.
    pub open spec fn spec_is_atom(self) -> bool {
        self.tag is Ref || self.tag is Num || self.tag is Era
    }

    #[verifier::when_used_as_spec(spec_is_atom)]
    pub fn is_atom(self) -> (r: bool)
        ensures r == self.spec_is_atom(),
    {
        matches!(self.tag, Tag::Ref | Tag::Num | Tag::Era)
    }

    /// A payload-free principal port: an atom or a nilary algebraic
    /// constructor. Two of these meeting is a pure erasure.
    pub open spec fn spec_is_nil(self) -> bool {
        self.spec_is_atom() || self.tag is AdtZ
    }

    #[verifier::when_used_as_spec(spec_is_nil)]
    pub fn is_nil(self) -> (r: bool)
        ensures r == self.spec_is_nil(),
    {
        matches!(self.tag, Tag::Ref | Tag::Num | Tag::Era | Tag::AdtZ)
    }

    /// A principal endpoint: anything but a wire half or a redirection.
    pub open spec fn spec_is_pri(self) -> bool {
        !(self.tag is Var) && !(self.tag is Red)
    }

    #[verifier::when_used_as_spec(spec_is_pri)]
    pub fn is_pri(self) -> (r: bool)
        ensures r == self.spec_is_pri(),
    {
        !matches!(self.tag, Tag::Var | Tag::Red)
    }

    pub open spec fn spec_arity(self) -> nat { self.tag.spec_arity() }

    pub fn arity(&self) -> (r: u8)
        ensures r as nat == self.spec_arity(),
    {
        self.tag.arity()
    }

    /// The numeral carried by a `Num` port.
    pub open spec fn spec_num(self) -> u64 { self.val }

    #[verifier::when_used_as_spec(spec_num)]
    pub fn num(self) -> (r: u64)
        ensures r == self.spec_num(),
    {
        self.val
    }

    /// The heap location of the `i`-th auxiliary cell of a location-bearing
    /// port (the principal slot is cell 0, implicit).
    pub open spec fn spec_aux(self, i: nat) -> int {
        self.val + i
    }

    pub fn aux_port(&self, i: u8) -> (l: u64)
        requires
            1 <= i as nat <= self.spec_arity(),
            self.val + i <= u64::MAX,
        ensures
            l == self.spec_aux(i as nat),
    {
        self.val + i as u64
    }
}

/// A port is well formed for a heap of `len` cells when every cell it can
/// point at is in range and its tag-specific fields are within bounds.
pub open spec fn port_ok(p: Port, len: nat) -> bool {
    match p.tag {
        Tag::Var | Tag::Red => p.val < len,
        Tag::Ref | Tag::Num | Tag::Era | Tag::AdtZ => true,
        Tag::Ctr(n) => n <= MAX_ARITY && (n > 0 ==> p.val + n < len),
        Tag::Op => crate::ops::valid_op_lab(p.lab) && p.val + 2 < len,
        Tag::Mat => p.val + 2 < len,
        Tag::Adt(n) => n <= MAX_ARITY && (n > 0 ==> p.val + n < len),
    }
}

/// Runtime check for `port_ok`, used by the reducer to reject corrupt
/// redexes before dispatching them.
pub fn check_port(p: &Port, len: usize) -> (r: bool)
    ensures
        r == port_ok(*p, len as nat),
{
    let len64 = len as u64;
    match p.tag {
        Tag::Var | Tag::Red => p.val < len64,
        Tag::Ref | Tag::Num | Tag::Era | Tag::AdtZ => true,
        Tag::Ctr(n) => n <= MAX_ARITY && (n == 0 || ((n as u64) < len64 && p.val < len64 - n as u64)),
        Tag::Op => crate::ops::check_op_lab(p.lab) && 2 < len64 && p.val < len64 - 2,
        Tag::Mat => 2 < len64 && p.val < len64 - 2,
        Tag::Adt(n) => n <= MAX_ARITY && (n == 0 || ((n as u64) < len64 && p.val < len64 - n as u64)),
    }
}

} // verus!
