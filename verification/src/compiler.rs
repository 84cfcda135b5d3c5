use vstd::prelude::*;

use crate::program::{initial_bank, Program};
use crate::types::{value_eq, Instruction, Operand, Register, Value, Vid};

verus! {

/// Whether `v` is a known constant 0.
pub open spec fn is_exact_zero(v: Value) -> bool {
    v matches Value::Exact(_, 0)
}

/// Whether `v` is a known constant 1.
pub open spec fn is_exact_one(v: Value) -> bool {
    v matches Value::Exact(_, 1)
}

/// Whether every register the instruction names is one of the four machine
/// registers.
pub open spec fn wf_instruction(instr: Instruction) -> bool {
    &&& instr.spec_destination() < 4
    &&& match instr.spec_operand() {
        Some(Operand::Register(r)) => r.0 < 4,
        _ => true,
    }
}

/// The operand of a binary instruction; meaningless for `Input`.
pub open spec fn binary_operand(instr: Instruction) -> Operand {
    match instr.spec_operand() {
        Some(o) => o,
        None => Operand::Literal(0),
    }
}

/// The state of one optimizer pass: the abstract register bank, the next
/// identity and input index the context will hand out, and the retained
/// instructions so far.
#[verifier::ext_equal]
pub ghost struct PassState {
    pub regs: Seq<Value>,
    pub next_vid: usize,
    pub next_input: usize,
    pub out: Seq<Instruction>,
}

/// The state every pass starts from: the initial register bank, identity
/// counter past the four identities spent on it, no inputs consumed, and
/// nothing retained yet.
pub open spec fn initial_pass_state() -> PassState {
    PassState { regs: initial_bank(), next_vid: 5, next_input: 0, out: Seq::empty() }
}

/// Resolving the second operand: a literal is minted as a fresh `Exact`;
/// a register reference reads the bank.
pub open spec fn spec_resolve(regs: Seq<Value>, next: usize, op: Operand) -> (Value, usize) {
    match op {
        Operand::Literal(n) => (Value::Exact(Vid(next), n), (next + 1) as usize),
        Operand::Register(r) => (regs[r.0 as int], next),
    }
}

/// The `Add` rule: fold two constants; adding an exact 0 on either side
/// returns the other side unchanged; anything else is a fresh unknown.
pub open spec fn spec_eval_add(left: Value, right: Value, next: usize) -> (Value, usize) {
    match (left, right) {
        (Value::Exact(_, l), Value::Exact(_, r)) => (
            Value::Exact(Vid(next), (l + r) as i64),
            (next + 1) as usize,
        ),
        _ => if is_exact_zero(right) {
            (left, next)
        } else if is_exact_zero(left) {
            (right, next)
        } else {
            (Value::Unknown(Vid(next)), (next + 1) as usize)
        },
    }
}

/// When the `Add` rule neither overflows `i64` nor exhausts the identity
/// counter.
pub open spec fn spec_add_ok(left: Value, right: Value, next: usize) -> bool {
    match (left, right) {
        (Value::Exact(_, l), Value::Exact(_, r)) => i64::MIN <= l + r <= i64::MAX && next
            < usize::MAX,
        _ => if is_exact_zero(right) || is_exact_zero(left) {
            true
        } else {
            next < usize::MAX
        },
    }
}

/// The `Mul` rule: fold two constants; an exact 0 on either side is
/// absorbing, even with an unknown other side; multiplying by an exact 1
/// returns the other side unchanged; anything else is a fresh unknown.
pub open spec fn spec_eval_mul(left: Value, right: Value, next: usize) -> (Value, usize) {
    match (left, right) {
        (Value::Exact(_, l), Value::Exact(_, r)) => (
            Value::Exact(Vid(next), (l * r) as i64),
            (next + 1) as usize,
        ),
        _ => if is_exact_zero(right) || is_exact_zero(left) {
            (Value::Exact(Vid(next), 0), (next + 1) as usize)
        } else if is_exact_one(right) {
            (left, next)
        } else if is_exact_one(left) {
            (right, next)
        } else {
            (Value::Unknown(Vid(next)), (next + 1) as usize)
        },
    }
}

/// When the `Mul` rule neither overflows `i64` nor exhausts the identity
/// counter.
pub open spec fn spec_mul_ok(left: Value, right: Value, next: usize) -> bool {
    match (left, right) {
        (Value::Exact(_, l), Value::Exact(_, r)) => i64::MIN <= l * r <= i64::MAX && next
            < usize::MAX,
        _ => if is_exact_zero(right) || is_exact_zero(left) {
            next < usize::MAX
        } else if is_exact_one(right) || is_exact_one(left) {
            true
        } else {
            next < usize::MAX
        },
    }
}

/// The `Div` rule: fold two constants with truncating division; an exact 0
/// dividend or an exact 1 divisor returns the dividend unchanged; anything
/// else is a fresh unknown.
pub open spec fn spec_eval_div(left: Value, right: Value, next: usize) -> (Value, usize) {
    match (left, right) {
        (Value::Exact(_, l), Value::Exact(_, r)) => (
            Value::Exact(Vid(next), l.checked_div(r)->Some_0),
            (next + 1) as usize,
        ),
        _ => if is_exact_zero(left) {
            (left, next)
        } else if is_exact_one(right) {
            (left, next)
        } else {
            (Value::Unknown(Vid(next)), (next + 1) as usize)
        },
    }
}

/// When the `Div` rule is defined: two constants must not divide by zero
/// nor overflow (`i64::MIN / -1`), and a fresh value needs a fresh identity.
/// Division by a compile-time-provable zero is a caller obligation.
pub open spec fn spec_div_ok(left: Value, right: Value, next: usize) -> bool {
    match (left, right) {
        (Value::Exact(_, l), Value::Exact(_, r)) => l.checked_div(r) is Some && next < usize::MAX,
        _ => if is_exact_zero(left) || is_exact_one(right) {
            true
        } else {
            next < usize::MAX
        },
    }
}

/// The `Mod` rule: fold two constants with the remainder whose sign follows
/// the dividend; an exact 0 dividend or an exact 1 divisor gives a fresh
/// exact 0; anything else is a fresh unknown.
pub open spec fn spec_eval_mod(left: Value, right: Value, next: usize) -> (Value, usize) {
    match (left, right) {
        (Value::Exact(_, l), Value::Exact(_, r)) => (
            Value::Exact(Vid(next), l.checked_rem(r)->Some_0),
            (next + 1) as usize,
        ),
        _ => if is_exact_zero(left) || is_exact_one(right) {
            (Value::Exact(Vid(next), 0), (next + 1) as usize)
        } else {
            (Value::Unknown(Vid(next)), (next + 1) as usize)
        },
    }
}

/// When the `Mod` rule is defined: two constants must not take a remainder
/// by zero nor overflow (`i64::MIN % -1`); every branch mints a fresh value.
pub open spec fn spec_mod_ok(left: Value, right: Value, next: usize) -> bool {
    next < usize::MAX && match (left, right) {
        (Value::Exact(_, l), Value::Exact(_, r)) => l.checked_rem(r) is Some,
        _ => true,
    }
}

/// The `Equal` rule: equal sides (by the two-tier rule) give a fresh exact
/// 1; two different constants give a fresh exact 0; anything else is a
/// fresh unknown.
pub open spec fn spec_eval_eql(left: Value, right: Value, next: usize) -> (Value, usize) {
    if value_eq(left, right) {
        (Value::Exact(Vid(next), 1), (next + 1) as usize)
    } else {
        match (left, right) {
            (Value::Exact(_, l), Value::Exact(_, r)) => (
                Value::Exact(Vid(next), 0),
                (next + 1) as usize,
            ),
            _ => (Value::Unknown(Vid(next)), (next + 1) as usize),
        }
    }
}

/// `Equal` always mints a fresh value, so it only needs a fresh identity.
pub open spec fn spec_eql_ok(next: usize) -> bool {
    next < usize::MAX
}

/// One evaluation rule per operator; meaningless for `Input`.
pub open spec fn spec_eval(instr: Instruction, left: Value, right: Value, next: usize) -> (
    Value,
    usize,
) {
    match instr {
        Instruction::Input(_) => (left, next),
        Instruction::Add(_, _) => spec_eval_add(left, right, next),
        Instruction::Mul(_, _) => spec_eval_mul(left, right, next),
        Instruction::Div(_, _) => spec_eval_div(left, right, next),
        Instruction::Mod(_, _) => spec_eval_mod(left, right, next),
        Instruction::Equal(_, _) => spec_eval_eql(left, right, next),
    }
}

/// When the evaluation rule for `instr` is defined on `left` and `right`.
pub open spec fn spec_eval_ok(instr: Instruction, left: Value, right: Value, next: usize) -> bool {
    match instr {
        Instruction::Input(_) => true,
        Instruction::Add(_, _) => spec_add_ok(left, right, next),
        Instruction::Mul(_, _) => spec_mul_ok(left, right, next),
        Instruction::Div(_, _) => spec_div_ok(left, right, next),
        Instruction::Mod(_, _) => spec_mod_ok(left, right, next),
        Instruction::Equal(_, _) => spec_eql_ok(next),
    }
}

/// One step of the pass over one instruction.
///
/// An `Input` instruction assigns a fresh `Input` value to its register and
/// is always retained. A binary instruction evaluates against the bank and
/// is retained exactly when the evaluated value differs (by the two-tier
/// rule) from the register's pre-instruction value.
pub open spec fn spec_step(s: PassState, instr: Instruction) -> PassState {
    match instr {
        Instruction::Input(r) => PassState {
            regs: s.regs.update(r.0 as int, Value::Input(Vid(s.next_vid), s.next_input)),
            next_vid: (s.next_vid + 1) as usize,
            next_input: (s.next_input + 1) as usize,
            out: s.out.push(instr),
        },
        _ => {
            let dest = instr.spec_destination() as int;
            let left = s.regs[dest];
            let resolved = spec_resolve(s.regs, s.next_vid, binary_operand(instr));
            let evaluated = spec_eval(instr, left, resolved.0, resolved.1);
            PassState {
                regs: s.regs.update(dest, evaluated.0),
                next_vid: evaluated.1,
                next_input: s.next_input,
                out: if value_eq(left, evaluated.0) {
                    s.out
                } else {
                    s.out.push(instr)
                },
            }
        },
    }
}

/// When one step of the pass is defined: the instruction is well-formed,
/// the identity (and input) counters have room, and the evaluation rule is
/// defined on the operands.
pub open spec fn spec_step_ok(s: PassState, instr: Instruction) -> bool {
    wf_instruction(instr) && match instr {
        Instruction::Input(_) => s.next_vid < usize::MAX && s.next_input < usize::MAX,
        _ => {
            let dest = instr.spec_destination() as int;
            let left = s.regs[dest];
            let resolved = spec_resolve(s.regs, s.next_vid, binary_operand(instr));
            &&& (binary_operand(instr) is Literal ==> s.next_vid < usize::MAX)
            &&& spec_eval_ok(instr, left, resolved.0, resolved.1)
        },
    }
}

/// The whole pass: a single forward fold of the instruction sequence.
pub open spec fn spec_run(s: PassState, instrs: Seq<Instruction>) -> PassState
    decreases instrs.len(),
{
    if instrs.len() == 0 {
        s
    } else {
        spec_step(spec_run(s, instrs.drop_last()), instrs.last())
    }
}

/// When the whole pass is defined: every step along the way is.
pub open spec fn spec_run_ok(s: PassState, instrs: Seq<Instruction>) -> bool
    decreases instrs.len(),
{
    if instrs.len() == 0 {
        true
    } else {
        spec_run_ok(s, instrs.drop_last()) && spec_step_ok(
            spec_run(s, instrs.drop_last()),
            instrs.last(),
        )
    }
}

/// A defined pass is defined on every prefix, and the step after each
/// prefix is defined on the state the prefix leads to.
pub proof fn lemma_run_ok_prefix(s: PassState, instrs: Seq<Instruction>, i: int)
    requires
        spec_run_ok(s, instrs),
        0 <= i <= instrs.len(),
    ensures
        spec_run_ok(s, instrs.take(i)),
        i < instrs.len() ==> spec_step_ok(spec_run(s, instrs.take(i)), instrs[i]),
    decreases instrs.len(),
{
    if i == instrs.len() {
        assert(instrs.take(i) =~= instrs);
    } else {
        let dl = instrs.drop_last();
        assert(dl.take(i) =~= instrs.take(i));
        if i == instrs.len() - 1 {
            assert(instrs.take(i) =~= dl);
        } else {
            lemma_run_ok_prefix(s, dl, i);
            assert(dl[i] == instrs[i]);
        }
    }
}

/// Evaluates an `Add` against the rule table.
pub fn evaluate_add(program: &mut Program, left: Value, right: Value) -> (v: Value)
    requires
        spec_add_ok(left, right, old(program).next_vid()),
    ensures
        v == spec_eval_add(left, right, old(program).next_vid()).0,
        final(program).next_vid() == spec_eval_add(left, right, old(program).next_vid()).1,
        final(program).next_input() == old(program).next_input(),
        final(program).init_regs() == old(program).init_regs(),
{
    match (left, right) {
        (Value::Exact(_, lval), Value::Exact(_, rval)) => program.new_exact_value(lval + rval),
        (_, Value::Exact(_, 0)) => left,  // left + 0 = left
        (Value::Exact(_, 0), _) => right,  // 0 + right = right
        _ => program.new_unknown_value(),
    }
}

/// Evaluates a `Mul` against the rule table.
pub fn evaluate_mul(program: &mut Program, left: Value, right: Value) -> (v: Value)
    requires
        spec_mul_ok(left, right, old(program).next_vid()),
    ensures
        v == spec_eval_mul(left, right, old(program).next_vid()).0,
        final(program).next_vid() == spec_eval_mul(left, right, old(program).next_vid()).1,
        final(program).next_input() == old(program).next_input(),
        final(program).init_regs() == old(program).init_regs(),
{
    match (left, right) {
        (Value::Exact(_, lval), Value::Exact(_, rval)) => program.new_exact_value(lval * rval),
        (_, Value::Exact(_, 0)) | (Value::Exact(_, 0), _) => program.new_exact_value(0),
        (_, Value::Exact(_, 1)) => left,  // left * 1 = left
        (Value::Exact(_, 1), _) => right,  // 1 * right = right
        _ => program.new_unknown_value(),
    }
}

/// Evaluates a `Div` against the rule table.
pub fn evaluate_div(program: &mut Program, left: Value, right: Value) -> (v: Value)
    requires
        spec_div_ok(left, right, old(program).next_vid()),
    ensures
        v == spec_eval_div(left, right, old(program).next_vid()).0,
        final(program).next_vid() == spec_eval_div(left, right, old(program).next_vid()).1,
        final(program).next_input() == old(program).next_input(),
        final(program).init_regs() == old(program).init_regs(),
{
    match (left, right) {
        (Value::Exact(_, lval), Value::Exact(_, rval)) => program.new_exact_value(
            lval.checked_div(rval).unwrap(),
        ),
        (Value::Exact(_, 0), _) => left,  // 0 / right = 0
        (_, Value::Exact(_, 1)) => left,  // left / 1 = left
        _ => program.new_unknown_value(),
    }
}

/// Evaluates a `Mod` against the rule table.
pub fn evaluate_mod(program: &mut Program, left: Value, right: Value) -> (v: Value)
    requires
        spec_mod_ok(left, right, old(program).next_vid()),
    ensures
        v == spec_eval_mod(left, right, old(program).next_vid()).0,
        final(program).next_vid() == spec_eval_mod(left, right, old(program).next_vid()).1,
        final(program).next_input() == old(program).next_input(),
        final(program).init_regs() == old(program).init_regs(),
{
    match (left, right) {
        (Value::Exact(_, lval), Value::Exact(_, rval)) => program.new_exact_value(
            lval.checked_rem(rval).unwrap(),
        ),
        (Value::Exact(_, 0), _) | (_, Value::Exact(_, 1)) => program.new_exact_value(0),
        _ => program.new_unknown_value(),
    }
}

/// Evaluates an `Equal` against the rule table.
pub fn evaluate_eql(program: &mut Program, left: Value, right: Value) -> (v: Value)
    requires
        spec_eql_ok(old(program).next_vid()),
    ensures
        v == spec_eval_eql(left, right, old(program).next_vid()).0,
        final(program).next_vid() == spec_eval_eql(left, right, old(program).next_vid()).1,
        final(program).next_input() == old(program).next_input(),
        final(program).init_regs() == old(program).init_regs(),
{
    if left == right {
        return program.new_exact_value(1);
    }
    match (left, right) {
        (Value::Exact(_, lval), Value::Exact(_, rval)) => program.new_exact_value(0),
        _ => program.new_unknown_value(),
    }
}

/// Evaluate a binary instruction to determine the new value of its
/// destination register. `Input` instructions are handled by the pass
/// itself and excluded here.
pub fn evaluate_instruction(program: &mut Program, instr: Instruction, left: Value, right: Value)
    -> (v: Value)
    requires
        !(instr is Input),
        spec_eval_ok(instr, left, right, old(program).next_vid()),
    ensures
        v == spec_eval(instr, left, right, old(program).next_vid()).0,
        final(program).next_vid() == spec_eval(instr, left, right, old(program).next_vid()).1,
        final(program).next_input() == old(program).next_input(),
        final(program).init_regs() == old(program).init_regs(),
{
    match instr {
        Instruction::Input(_) => left,  // excluded by precondition
        Instruction::Add(_, _) => evaluate_add(program, left, right),
        Instruction::Mul(_, _) => evaluate_mul(program, left, right),
        Instruction::Div(_, _) => evaluate_div(program, left, right),
        Instruction::Mod(_, _) => evaluate_mod(program, left, right),
        Instruction::Equal(_, _) => evaluate_eql(program, left, right),
    }
}

/// Absorbing zero: multiplying by an exact 0 on either side yields an
/// exact 0, even when the other side is unknown — and an exact 0 equals
/// any exact 0 under the two-tier rule, whatever its identity.
pub proof fn lemma_absorbing_zero(left: Value, right: Value, next: usize)
    requires
        is_exact_zero(left) || is_exact_zero(right),
    ensures
        is_exact_zero(spec_eval_mul(left, right, next).0),
        forall|other: Value|
            is_exact_zero(other) ==> value_eq(spec_eval_mul(left, right, next).0, other),
{
}

/// Optimization to remove no-op binary instructions.
///
/// A single forward pass tracks, per register, an abstract value, and drops
/// every binary instruction whose evaluated value equals (by the two-tier
/// rule) the destination register's pre-instruction value. `Input`
/// instructions consume real external data and are always retained.
///
/// The precondition asks that the pass is defined on the sequence: every
/// register index is in range, no two folded constants divide by zero or
/// leave `i64`, and the identity counter does not run out. In particular,
/// division or remainder by a compile-time-provable zero is a caller
/// obligation, mirroring host machine division.
pub fn propagate_constants(instructions: Vec<Instruction>) -> (optimized: Vec<Instruction>)
    requires
        spec_run_ok(initial_pass_state(), instructions@),
    ensures
        optimized@ == spec_run(initial_pass_state(), instructions@).out,
{
    let mut program = Program::default();
    let mut new: Vec<Instruction> = Vec::new();
    let mut registers: [Value; 4] = program.initial_registers();
    let ghost start = initial_pass_state();

    let n = instructions.len();
    let mut idx: usize = 0;
    while idx < n
        invariant
            n == instructions@.len(),
            idx <= n,
            spec_run_ok(start, instructions@),
            registers@ == spec_run(start, instructions@.take(idx as int)).regs,
            program.next_vid() == spec_run(start, instructions@.take(idx as int)).next_vid,
            program.next_input() == spec_run(start, instructions@.take(idx as int)).next_input,
            new@ == spec_run(start, instructions@.take(idx as int)).out,
        decreases n - idx,
    {
        proof {
            lemma_run_ok_prefix(start, instructions@, idx as int);
            assert(instructions@.take(idx as int + 1).drop_last() =~= instructions@.take(
                idx as int,
            ));
            assert(instructions@.take(idx as int + 1).last() == instructions@[idx as int]);
        }
        let instr = instructions[idx];
        if let Instruction::Input(Register(index)) = instr {
            let input_value = program.new_input_value();
            registers[index] = input_value;
            new.push(instr);
        } else {
            let register_idx = instr.destination();
            let left = registers[register_idx];
            let right = match instr.operand().unwrap() {
                Operand::Literal(lit) => program.new_exact_value(lit),
                Operand::Register(Register(reg)) => registers[reg],
            };

            let old_val = left;
            let new_val = evaluate_instruction(&mut program, instr, left, right);
            registers[register_idx] = new_val;

            if !(old_val == new_val) {
                new.push(instr);
            }
        }
        idx = idx + 1;
        proof {
            assert(registers@ =~= spec_run(start, instructions@.take(idx as int)).regs);
            assert(new@ =~= spec_run(start, instructions@.take(idx as int)).out);
        }
    }
    proof {
        assert(instructions@.take(n as int) =~= instructions@);
    }
    new
}


/// Values that stand for the same approximation: same kind, and the same
/// constant payload or input index; their identities may differ.
spec fn kindred(v1: Value, v2: Value) -> bool {
    match (v1, v2) {
        (Value::Exact(_, a), Value::Exact(_, b)) => a == b,
        (Value::Input(_, a), Value::Input(_, b)) => a == b,
        (Value::Unknown(_), Value::Unknown(_)) => true,
        _ => false,
    }
}

/// A tidy bank: every identity in it is older than the counter, and values
/// that share an identity are the very same value (identities are minted
/// once; they spread only by copying).
spec fn tidy(s: PassState) -> bool {
    &&& s.regs.len() == 4
    &&& (forall|i: int| 0 <= i < 4 ==> (#[trigger] s.regs[i]).spec_vid().0 < s.next_vid)
    &&& (forall|i: int, j: int|
        #![trigger s.regs[i], s.regs[j]]
        0 <= i < 4 && 0 <= j < 4 && s.regs[i].spec_vid() == s.regs[j].spec_vid() ==> s.regs[i]
            == s.regs[j])
}

/// Two pass states that approximate the same run: the same inputs
/// consumed, pointwise kindred banks, and the same aliasing pattern.
spec fn twin(s1: PassState, s2: PassState) -> bool {
    &&& s1.next_input == s2.next_input
    &&& s2.next_vid <= s1.next_vid
    &&& (forall|i: int| 0 <= i < 4 ==> kindred(#[trigger] s1.regs[i], s2.regs[i]))
    &&& (forall|i: int, j: int|
        #![trigger s1.regs[i], s1.regs[j]]
        0 <= i < 4 && 0 <= j < 4 ==> (value_eq(s1.regs[i], s1.regs[j]) <==> value_eq(
            s2.regs[i],
            s2.regs[j],
        )))
}

/// One instruction, stepped through two twin states: both make the same
/// retain-or-drop decision, and the states stay twins; tidiness is kept on
/// both sides.
proof fn lemma_twin_step(s1: PassState, s2: PassState, instr: Instruction)
    requires
        tidy(s1),
        tidy(s2),
        twin(s1, s2),
        spec_step_ok(s1, instr),
    ensures
        tidy(spec_step(s1, instr)),
        spec_step(s1, instr).out == s1.out.push(instr) ==> {
            &&& spec_step(s2, instr).out == s2.out.push(instr)
            &&& tidy(spec_step(s2, instr))
            &&& twin(spec_step(s1, instr), spec_step(s2, instr))
        },
        spec_step(s1, instr).out == s1.out ==> twin(spec_step(s1, instr), s2),
{
    let t1 = spec_step(s1, instr);
    let t2 = spec_step(s2, instr);
    assert(s1.out.push(instr).len() == s1.out.len() + 1);
    match instr {
        Instruction::Input(r) => {
            assert(t1.regs =~= s1.regs.update(
                r.0 as int,
                Value::Input(Vid(s1.next_vid), s1.next_input),
            ));
            assert(t2.regs =~= s2.regs.update(
                r.0 as int,
                Value::Input(Vid(s2.next_vid), s2.next_input),
            ));
        },
        _ => {
            let dest = instr.spec_destination() as int;
            let left1 = s1.regs[dest];
            let left2 = s2.regs[dest];
            let resolved1 = spec_resolve(s1.regs, s1.next_vid, binary_operand(instr));
            let resolved2 = spec_resolve(s2.regs, s2.next_vid, binary_operand(instr));
            let right1 = resolved1.0;
            let right2 = resolved2.0;
            let new1 = spec_eval(instr, left1, right1, resolved1.1).0;
            let new2 = spec_eval(instr, left2, right2, resolved2.1).0;

            assert(kindred(right1, right2));
            assert(value_eq(left1, right1) == value_eq(left2, right2));
            assert(kindred(new1, new2));
            assert(value_eq(left1, new1) == value_eq(left2, new2));

            assert(t1.regs =~= s1.regs.update(dest, new1));
            assert(t2.regs =~= s2.regs.update(dest, new2));
            if !value_eq(left1, new1) {
                assert forall|i: int, j: int|
                    #![trigger t1.regs[i], t1.regs[j]]
                    0 <= i < 4 && 0 <= j < 4 implies (value_eq(t1.regs[i], t1.regs[j]) <==> value_eq(
                    t2.regs[i],
                    t2.regs[j],
                )) by {
                    assert(kindred(s1.regs[i], s2.regs[i]));
                    assert(kindred(s1.regs[j], s2.regs[j]));
                    assert(value_eq(s1.regs[i], s1.regs[j]) == value_eq(s2.regs[i], s2.regs[j]));
                }
            } else {
                assert forall|i: int, j: int|
                    #![trigger t1.regs[i], t1.regs[j]]
                    0 <= i < 4 && 0 <= j < 4 implies (value_eq(t1.regs[i], t1.regs[j]) <==> value_eq(
                    s2.regs[i],
                    s2.regs[j],
                )) by {
                    assert(kindred(s1.regs[i], s2.regs[i]));
                    assert(kindred(s1.regs[j], s2.regs[j]));
                    assert(value_eq(s1.regs[i], s1.regs[j]) == value_eq(s2.regs[i], s2.regs[j]));
                }
            }
        },
    }
}

/// The pass, run again on its own output, alongside the first run: the
/// second run retains everything, and the final states are twins.
proof fn lemma_twin_run(instrs: Seq<Instruction>)
    requires
        spec_run_ok(initial_pass_state(), instrs),
    ensures
        tidy(spec_run(initial_pass_state(), instrs)),
        tidy(spec_run(initial_pass_state(), spec_run(initial_pass_state(), instrs).out)),
        twin(
            spec_run(initial_pass_state(), instrs),
            spec_run(initial_pass_state(), spec_run(initial_pass_state(), instrs).out),
        ),
        spec_run(initial_pass_state(), spec_run(initial_pass_state(), instrs).out).out == spec_run(
            initial_pass_state(),
            instrs,
        ).out,
    decreases instrs.len(),
{
    if instrs.len() == 0 {
        assert(initial_pass_state().regs.len() == 4);
    } else {
        let dl = instrs.drop_last();
        let last = instrs.last();
        lemma_twin_run(dl);
        let s1d = spec_run(initial_pass_state(), dl);
        let s2d = spec_run(initial_pass_state(), s1d.out);
        lemma_twin_step(s1d, s2d, last);
        let s1 = spec_run(initial_pass_state(), instrs);
        assert(s1 == spec_step(s1d, last));
        assert(s1.out == s1d.out || s1.out == s1d.out.push(last));
        if s1.out == s1d.out.push(last) {
            assert(s1.out.drop_last() =~= s1d.out);
            assert(s1.out.len() > 0);
            assert(spec_run(initial_pass_state(), s1.out) == spec_step(
                spec_run(initial_pass_state(), s1.out.drop_last()),
                last,
            ));
            assert(spec_run(initial_pass_state(), s1.out) == spec_step(s2d, last));
        }
    }
}

/// Idempotence: running the optimizer a second time on its own output
/// removes nothing further — the single forward pass already tracks the
/// full per-register history.
pub proof fn lemma_idempotence(instrs: Seq<Instruction>)
    requires
        spec_run_ok(initial_pass_state(), instrs),
    ensures
        spec_run(initial_pass_state(), spec_run(initial_pass_state(), instrs).out).out == spec_run(
            initial_pass_state(),
            instrs,
        ).out,
{
    lemma_twin_run(instrs);
}


} // verus!
