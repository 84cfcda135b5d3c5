use vstd::prelude::*;

use crate::types::{Value, Vid};
use crate::utils::UniqueIdMaker;

verus! {

/// The register bank every optimizer invocation starts from: each of the
/// four registers holds an `Exact` zero, with distinct identities 1 to 4.
pub open spec fn initial_bank() -> Seq<Value> {
    seq![
        Value::Exact(Vid(1), 0),
        Value::Exact(Vid(2), 0),
        Value::Exact(Vid(3), 0),
        Value::Exact(Vid(4), 0),
    ]
}

/// The optimizer context: owns the identifier source, the fixed initial
/// register bank, and the running count of inputs consumed so far.
///
/// Values are created only through this context, which guarantees every
/// value a fresh identity.
#[derive(Debug)]
pub struct Program {
    vid_maker: UniqueIdMaker<Vid>,
    initial_registers: [Value; 4],
    next_input_id: usize,
}

impl Default for Program {
    /// A fresh context: identities 1 to 4 are spent on the initial register
    /// bank, the next identity to be minted is 5, and no input has been
    /// consumed yet.
    fn default() -> (p: Self)
        ensures
            p.next_vid() == 5,
            p.next_input() == 0,
            p.init_regs() == initial_bank(),
    {
        let mut vid_maker = Vid::unique_id_maker();
        let v1 = vid_maker.make_new_id();
        let v2 = vid_maker.make_new_id();
        let v3 = vid_maker.make_new_id();
        let v4 = vid_maker.make_new_id();
        let initial_registers = [
            Value::Exact(v1, 0),
            Value::Exact(v2, 0),
            Value::Exact(v3, 0),
            Value::Exact(v4, 0),
        ];
        proof {
            assert(initial_registers@ =~= initial_bank());
        }
        Self { vid_maker, initial_registers, next_input_id: 0 }
    }
}

impl Program {
    /// The identity the context will assign to the next minted value.
    pub closed spec fn next_vid(self) -> usize {
        self.vid_maker.upcoming()
    }

    /// The input index the context will assign to the next `Input` value.
    pub closed spec fn next_input(self) -> usize {
        self.next_input_id
    }

    /// The register bank fixed at construction.
    pub closed spec fn init_regs(self) -> Seq<Value> {
        self.initial_registers@
    }

    /// Retrieve the initial registers.
    pub fn initial_registers(&self) -> (regs: [Value; 4])
        ensures
            regs@ == self.init_regs(),
    {
        self.initial_registers
    }

    /// Produce a new `Value::Exact` with a fresh identity.
    pub fn new_exact_value(&mut self, val: i64) -> (v: Value)
        requires
            old(self).next_vid() < usize::MAX,
        ensures
            v == Value::Exact(Vid(old(self).next_vid()), val),
            final(self).next_vid() == old(self).next_vid() + 1,
            final(self).next_input() == old(self).next_input(),
            final(self).init_regs() == old(self).init_regs(),
    {
        Value::Exact(self.vid_maker.make_new_id(), val)
    }

    /// Produce a new `Value::Unknown` with a fresh identity.
    pub fn new_unknown_value(&mut self) -> (v: Value)
        requires
            old(self).next_vid() < usize::MAX,
        ensures
            v == Value::Unknown(Vid(old(self).next_vid())),
            final(self).next_vid() == old(self).next_vid() + 1,
            final(self).next_input() == old(self).next_input(),
            final(self).init_regs() == old(self).init_regs(),
    {
        Value::Unknown(self.vid_maker.make_new_id())
    }

    /// Produce a new `Value::Input` with a fresh identity, tagged with the
    /// next sequential input index.
    pub fn new_input_value(&mut self) -> (v: Value)
        requires
            old(self).next_vid() < usize::MAX,
            old(self).next_input() < usize::MAX,
        ensures
            v == Value::Input(Vid(old(self).next_vid()), old(self).next_input()),
            final(self).next_vid() == old(self).next_vid() + 1,
            final(self).next_input() == old(self).next_input() + 1,
            final(self).init_regs() == old(self).init_regs(),
    {
        let next_input_id = self.next_input_id;
        self.next_input_id = next_input_id + 1;
        Value::Input(self.vid_maker.make_new_id(), next_input_id)
    }
}

} // verus!
