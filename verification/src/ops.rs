//! The operator set of the binary arithmetic agent. An `Op` node carries an
//! operator id in its label; when only its second operand has arrived, the
//! rule rebuilds the node with the swapped operator, so each operator has a
//! mirror with the argument order reversed.

use vstd::prelude::*;

verus! {

/// The operators a binary arithmetic agent can carry. The `R` variants are
/// the argument-swapped mirrors used when an operator is applied to its
/// operands in the reverse order.
#[derive(Clone, Copy, PartialEq, Eq, Structural, Debug)]
pub enum IntOp {
    Add,
    Sub,
    SubR,
    Mul,
    Div,
    DivR,
    Rem,
    RemR,
    Eq,
    Ne,
    Lt,
    Gt,
    And,
    Or,
    Xor,
}

/// Number of operator ids; labels at or above this bound are invalid.
pub const OP_COUNT: u16 = 15;

/// The operator encoded by an `Op` node's label, if the label is valid.
pub open spec fn spec_op_of_lab(lab: u16) -> Option<IntOp> {
    if lab == 0 { Some(IntOp::Add) }
    else if lab == 1 { Some(IntOp::Sub) }
    else if lab == 2 { Some(IntOp::SubR) }
    else if lab == 3 { Some(IntOp::Mul) }
    else if lab == 4 { Some(IntOp::Div) }
    else if lab == 5 { Some(IntOp::DivR) }
    else if lab == 6 { Some(IntOp::Rem) }
    else if lab == 7 { Some(IntOp::RemR) }
    else if lab == 8 { Some(IntOp::Eq) }
    else if lab == 9 { Some(IntOp::Ne) }
    else if lab == 10 { Some(IntOp::Lt) }
    else if lab == 11 { Some(IntOp::Gt) }
    else if lab == 12 { Some(IntOp::And) }
    else if lab == 13 { Some(IntOp::Or) }
    else if lab == 14 { Some(IntOp::Xor) }
    else { None }
}

/// The operator of a valid label (callers establish validity through
/// `valid_op_lab`).
pub open spec fn spec_op_at(lab: u16) -> IntOp {
    match spec_op_of_lab(lab) {
        Some(o) => o,
        None => IntOp::Add,
    }
}

pub open spec fn valid_op_lab(lab: u16) -> bool {
    spec_op_of_lab(lab) is Some
}

pub fn check_op_lab(lab: u16) -> (r: bool)
    ensures
        r == valid_op_lab(lab),
{
    lab < OP_COUNT
}

pub fn op_of_lab(lab: u16) -> (r: Option<IntOp>)
    ensures
        r == spec_op_of_lab(lab),
{
    match lab {
        0 => Some(IntOp::Add),
        1 => Some(IntOp::Sub),
        2 => Some(IntOp::SubR),
        3 => Some(IntOp::Mul),
        4 => Some(IntOp::Div),
        5 => Some(IntOp::DivR),
        6 => Some(IntOp::Rem),
        7 => Some(IntOp::RemR),
        8 => Some(IntOp::Eq),
        9 => Some(IntOp::Ne),
        10 => Some(IntOp::Lt),
        11 => Some(IntOp::Gt),
        12 => Some(IntOp::And),
        13 => Some(IntOp::Or),
        14 => Some(IntOp::Xor),
        _ => None,
    }
}

impl IntOp {
    /// The label under which this operator is stored in an `Op` node.
    pub open spec fn spec_lab(self) -> u16 {
        match self {
            IntOp::Add => 0,
            IntOp::Sub => 1,
            IntOp::SubR => 2,
            IntOp::Mul => 3,
            IntOp::Div => 4,
            IntOp::DivR => 5,
            IntOp::Rem => 6,
            IntOp::RemR => 7,
            IntOp::Eq => 8,
            IntOp::Ne => 9,
            IntOp::Lt => 10,
            IntOp::Gt => 11,
            IntOp::And => 12,
            IntOp::Or => 13,
            IntOp::Xor => 14,
        }
    }

    pub fn lab(self) -> (r: u16)
        ensures
            r == self.spec_lab(),
    {
        match self {
            IntOp::Add => 0,
            IntOp::Sub => 1,
            IntOp::SubR => 2,
            IntOp::Mul => 3,
            IntOp::Div => 4,
            IntOp::DivR => 5,
            IntOp::Rem => 6,
            IntOp::RemR => 7,
            IntOp::Eq => 8,
            IntOp::Ne => 9,
            IntOp::Lt => 10,
            IntOp::Gt => 11,
            IntOp::And => 12,
            IntOp::Or => 13,
            IntOp::Xor => 14,
        }
    }

    /// The mirror operator that takes its arguments in the opposite order.
    pub open spec fn spec_swap(self) -> IntOp {
        match self {
            IntOp::Add => IntOp::Add,
            IntOp::Sub => IntOp::SubR,
            IntOp::SubR => IntOp::Sub,
            IntOp::Mul => IntOp::Mul,
            IntOp::Div => IntOp::DivR,
            IntOp::DivR => IntOp::Div,
            IntOp::Rem => IntOp::RemR,
            IntOp::RemR => IntOp::Rem,
            IntOp::Eq => IntOp::Eq,
            IntOp::Ne => IntOp::Ne,
            IntOp::Lt => IntOp::Gt,
            IntOp::Gt => IntOp::Lt,
            IntOp::And => IntOp::And,
            IntOp::Or => IntOp::Or,
            IntOp::Xor => IntOp::Xor,
        }
    }

    #[verifier::when_used_as_spec(spec_swap)]
    pub fn swap(self) -> (r: IntOp)
        ensures
            r == self.spec_swap(),
    {
        match self {
            IntOp::Add => IntOp::Add,
            IntOp::Sub => IntOp::SubR,
            IntOp::SubR => IntOp::Sub,
            IntOp::Mul => IntOp::Mul,
            IntOp::Div => IntOp::DivR,
            IntOp::DivR => IntOp::Div,
            IntOp::Rem => IntOp::RemR,
            IntOp::RemR => IntOp::Rem,
            IntOp::Eq => IntOp::Eq,
            IntOp::Ne => IntOp::Ne,
            IntOp::Lt => IntOp::Gt,
            IntOp::Gt => IntOp::Lt,
            IntOp::And => IntOp::And,
            IntOp::Or => IntOp::Or,
            IntOp::Xor => IntOp::Xor,
        }
    }

    /// Meaning of an operator on two numerals: wrapping arithmetic for the
    /// ring operators, 1/0 for the comparisons, and a quotient or remainder
    /// of 0 when the divisor is 0.
    pub open spec fn spec_eval(self, x: u64, y: u64) -> u64 {
        match self {
            IntOp::Add => if x + y > u64::MAX { (x + y - 0x1_0000_0000_0000_0000) as u64 } else { (x + y) as u64 },
            IntOp::Sub => if x - y < 0 { (x - y + 0x1_0000_0000_0000_0000) as u64 } else { (x - y) as u64 },
            IntOp::SubR => if y - x < 0 { (y - x + 0x1_0000_0000_0000_0000) as u64 } else { (y - x) as u64 },
            IntOp::Mul => ((x as nat * y as nat) % 0x1_0000_0000_0000_0000) as u64,
            IntOp::Div => if y == 0 { 0u64 } else { (x as int / y as int) as u64 },
            IntOp::DivR => if x == 0 { 0u64 } else { (y as int / x as int) as u64 },
            IntOp::Rem => if y == 0 { 0u64 } else { (x as int % y as int) as u64 },
            IntOp::RemR => if x == 0 { 0u64 } else { (y as int % x as int) as u64 },
            IntOp::Eq => if x == y { 1u64 } else { 0u64 },
            IntOp::Ne => if x != y { 1u64 } else { 0u64 },
            IntOp::Lt => if x < y { 1u64 } else { 0u64 },
            IntOp::Gt => if x > y { 1u64 } else { 0u64 },
            IntOp::And => x & y,
            IntOp::Or => x | y,
            IntOp::Xor => x ^ y,
        }
    }

    #[verifier::when_used_as_spec(spec_eval)]
    pub fn eval(self, x: u64, y: u64) -> (r: u64)
        ensures
            r == self.spec_eval(x, y),
    {
        match self {
            IntOp::Add => x.wrapping_add(y),
            IntOp::Sub => x.wrapping_sub(y),
            IntOp::SubR => y.wrapping_sub(x),
            IntOp::Mul => x.wrapping_mul(y),
            IntOp::Div => if y == 0 { 0 } else { x / y },
            IntOp::DivR => if x == 0 { 0 } else { y / x },
            IntOp::Rem => if y == 0 { 0 } else { x % y },
            IntOp::RemR => if x == 0 { 0 } else { y % x },
            IntOp::Eq => if x == y { 1 } else { 0 },
            IntOp::Ne => if x != y { 1 } else { 0 },
            IntOp::Lt => if x < y { 1 } else { 0 },
            IntOp::Gt => if x > y { 1 } else { 0 },
            IntOp::And => x & y,
            IntOp::Or => x | y,
            IntOp::Xor => x ^ y,
        }
    }
}

/// Swapping an operator exactly reverses its argument order: folding a
/// partially applied operator through its mirror loses nothing.
pub proof fn lemma_swap_reverses_arguments(op: IntOp, x: u64, y: u64)
    ensures
        op.spec_swap().spec_eval(x, y) == op.spec_eval(y, x),
{
    match op {
        IntOp::Mul => {
            assert(x as nat * y as nat == y as nat * x as nat) by (nonlinear_arith);
        },
        IntOp::And => {
            assert(x & y == y & x) by (bit_vector);
        },
        IntOp::Or => {
            assert(x | y == y | x) by (bit_vector);
        },
        IntOp::Xor => {
            assert(x ^ y == y ^ x) by (bit_vector);
        },
        _ => {},
    }
}

} // verus!
