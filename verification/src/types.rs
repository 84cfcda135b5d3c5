use vstd::prelude::*;

use crate::utils::{CounterId, UniqueIdMaker};

verus! {

/// An ID to track a particular `Value`.
///
/// Every abstract value carries one, assigned at creation and never reused,
/// so that independently created values stay distinguishable.
#[derive(Debug, Clone, Copy, PartialEq, Eq, Structural)]
pub struct Vid(pub usize);

impl Vid {
    /// A maker for `Vid`s, starting at 1.
    pub fn unique_id_maker() -> (maker: UniqueIdMaker<Vid>)
        ensures
            maker.upcoming() == 1,
    {
        UniqueIdMaker::starting_at(1)
    }
}

impl CounterId for Vid {
    open spec fn from_counter_spec(x: usize) -> Self {
        Vid(x)
    }

    fn from_counter(x: usize) -> (v: Self) {
        Vid(x)
    }
}

/// A compiler value: a compile-time approximation of a register's runtime
/// contents.
#[derive(Debug, Clone, Copy)]
pub enum Value {
    /// A known constant.
    Exact(Vid, i64),
    /// The `i`th input to the program (0-based).
    Input(Vid, usize),
    /// A value nothing further is known about.
    Unknown(Vid),
}

/// The two-tier equality rule on abstract values: two `Exact` values are
/// equal iff their integer payloads are equal (identity irrelevant); any
/// other pair is equal iff the two sides carry the same identity, i.e. are
/// the very same value.
pub open spec fn value_eq(a: Value, b: Value) -> bool {
    match (a, b) {
        (Value::Exact(_, l), Value::Exact(_, r)) => l == r,
        _ => a.spec_vid() == b.spec_vid(),
    }
}

impl Value {
    /// The identity tag of this value.
    pub open spec fn spec_vid(self) -> Vid {
        match self {
            Value::Exact(vid, _) => vid,
            Value::Input(vid, _) => vid,
            Value::Unknown(vid) => vid,
        }
    }

    pub fn vid(&self) -> (v: Vid)
        ensures
            v == self.spec_vid(),
    {
        match self {
            Value::Exact(vid, _) => *vid,
            Value::Input(vid, _) => *vid,
            Value::Unknown(vid) => *vid,
        }
    }
}

impl PartialEq for Value {
    fn eq(&self, other: &Self) -> (r: bool) {
        match (self, other) {
            (Value::Exact(_, left), Value::Exact(_, right)) => *left == *right,
            _ => self.vid() == other.vid(),
        }
    }
}

impl vstd::std_specs::cmp::PartialEqSpecImpl for Value {
    open spec fn obeys_eq_spec() -> bool {
        true
    }

    open spec fn eq_spec(&self, other: &Self) -> bool {
        value_eq(*self, *other)
    }
}

/// Identity distinctness: every abstract value equals itself, and two
/// `Input` or `Unknown` values with different identities — in particular,
/// two separately minted ones, whatever their payload shape — are never
/// equal under the two-tier rule.
pub proof fn lemma_identity_distinctness(v1: Value, v2: Value)
    requires
        !(v1 is Exact),
        !(v2 is Exact),
        v1.spec_vid() != v2.spec_vid(),
    ensures
        !value_eq(v1, v2),
        !value_eq(v2, v1),
        value_eq(v1, v1),
        value_eq(v2, v2),
{
}

/// A register in a MONAD instruction.
///
/// MONAD supports only 4 registers:
///
/// - `w`: `Register(0)`
/// - `x`: `Register(1)`
/// - `y`: `Register(2)`
/// - `z`: `Register(3)`
#[derive(Clone, Copy, Debug, PartialEq, Eq, Structural)]
pub struct Register(pub usize);

/// The second operand of a MONAD instruction: a literal number or a
/// register.
#[derive(Clone, Copy, Debug, PartialEq, Eq, Structural)]
pub enum Operand {
    Literal(i64),
    Register(Register),
}

/// An instruction in the MONAD language.
#[derive(Clone, Copy, Debug, PartialEq, Eq, Structural)]
pub enum Instruction {
    Input(Register),
    Add(Register, Operand),
    Mul(Register, Operand),
    Div(Register, Operand),
    Mod(Register, Operand),
    Equal(Register, Operand),
}

impl Instruction {
    /// The index of the single register this instruction writes to.
    pub open spec fn spec_destination(self) -> usize {
        match self {
            Instruction::Input(r) => r.0,
            Instruction::Add(r, _) => r.0,
            Instruction::Mul(r, _) => r.0,
            Instruction::Div(r, _) => r.0,
            Instruction::Mod(r, _) => r.0,
            Instruction::Equal(r, _) => r.0,
        }
    }

    /// The second operand, present for every variant except `Input`.
    pub open spec fn spec_operand(self) -> Option<Operand> {
        match self {
            Instruction::Input(_) => None,
            Instruction::Add(_, o) => Some(o),
            Instruction::Mul(_, o) => Some(o),
            Instruction::Div(_, o) => Some(o),
            Instruction::Mod(_, o) => Some(o),
            Instruction::Equal(_, o) => Some(o),
        }
    }

    /// Retrieves the destination register index of the instruction.
    pub fn destination(&self) -> (d: usize)
        ensures
            d == self.spec_destination(),
    {
        match self {
            Instruction::Input(r) => r.0,
            Instruction::Add(r, _) => r.0,
            Instruction::Mul(r, _) => r.0,
            Instruction::Div(r, _) => r.0,
            Instruction::Mod(r, _) => r.0,
            Instruction::Equal(r, _) => r.0,
        }
    }

    /// Retrieves the operand of the instruction.
    pub fn operand(&self) -> (o: Option<Operand>)
        ensures
            o == self.spec_operand(),
    {
        match self {
            Instruction::Input(_) => None,
            Instruction::Add(_, o) => Some(*o),
            Instruction::Mul(_, o) => Some(*o),
            Instruction::Div(_, o) => Some(*o),
            Instruction::Mod(_, o) => Some(*o),
            Instruction::Equal(_, o) => Some(*o),
        }
    }
}


} // verus!
