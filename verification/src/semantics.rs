//! Concrete execution semantics for MONAD programs, and the proofs that the
//! optimizer preserves them.
//!
//! The machine has four integer registers and consumes one external input
//! per `Input` instruction. Division truncates toward zero, as host machine
//! integer division does; the remainder's sign follows the dividend. Both
//! are given a (never relied upon) value of 0 for a zero divisor so that
//! the semantics are total.

use vstd::prelude::*;

use crate::compiler::{
    binary_operand, initial_pass_state, spec_eval, spec_resolve, spec_run, spec_run_ok, spec_step,
    spec_step_ok, PassState,
};
use crate::types::{value_eq, Instruction, Operand, Value};

verus! {

broadcast use vstd::map::group_map_axioms;

/// Truncating division: rounds toward zero, as the host machine's integer
/// division does. Division by zero is given the value 0; a well-formed
/// program never reaches that case.
pub open spec fn tdiv(x: int, d: int) -> int {
    if d == 0 {
        0
    } else if x == 0 {
        0
    } else if x > 0 && d > 0 {
        x / d
    } else if x < 0 && d < 0 {
        (x * -1) / (d * -1)
    } else if x < 0 {
        ((x * -1) / d) * -1
    } else {
        (x / (d * -1)) * -1
    }
}

/// Truncating remainder: the sign follows the dividend. A remainder by
/// zero is given the value 0; a well-formed program never reaches it.
pub open spec fn tmod(x: int, d: int) -> int {
    if d == 0 {
        0
    } else if x == 0 {
        0
    } else if x > 0 && d > 0 {
        x % d
    } else if x < 0 && d < 0 {
        ((x * -1) % (d * -1)) * -1
    } else if x < 0 {
        ((x * -1) % d) * -1
    } else {
        x % (d * -1)
    }
}

/// The concrete four-register machine: register contents and the index of
/// the next program input to consume.
#[verifier::ext_equal]
pub ghost struct Machine {
    pub regs: Seq<int>,
    pub next_input: int,
}

/// Every register starts at 0 and no input has been consumed.
pub open spec fn machine_init() -> Machine {
    Machine { regs: seq![0, 0, 0, 0], next_input: 0 }
}

/// What a binary operator computes on concrete values; meaningless for
/// `Input`.
pub open spec fn concrete_op(instr: Instruction, l: int, r: int) -> int {
    match instr {
        Instruction::Input(_) => 0,
        Instruction::Add(_, _) => l + r,
        Instruction::Mul(_, _) => l * r,
        Instruction::Div(_, _) => tdiv(l, r),
        Instruction::Mod(_, _) => tmod(l, r),
        Instruction::Equal(_, _) => if l == r {
            1
        } else {
            0
        },
    }
}

/// The concrete value of the second operand.
pub open spec fn operand_value(m: Machine, op: Operand) -> int {
    match op {
        Operand::Literal(n) => n as int,
        Operand::Register(r) => m.regs[r.0 as int],
    }
}

/// One step of concrete execution.
pub open spec fn machine_step(m: Machine, instr: Instruction, inputs: Seq<int>) -> Machine {
    match instr {
        Instruction::Input(r) => Machine {
            regs: m.regs.update(r.0 as int, inputs[m.next_input]),
            next_input: m.next_input + 1,
        },
        _ => {
            let dest = instr.spec_destination() as int;
            Machine {
                regs: m.regs.update(
                    dest,
                    concrete_op(instr, m.regs[dest], operand_value(m, binary_operand(instr))),
                ),
                next_input: m.next_input,
            }
        },
    }
}

/// Concrete execution of a whole instruction sequence.
pub open spec fn machine_run(m: Machine, instrs: Seq<Instruction>, inputs: Seq<int>) -> Machine
    decreases instrs.len(),
{
    if instrs.len() == 0 {
        m
    } else {
        machine_step(machine_run(m, instrs.drop_last(), inputs), instrs.last(), inputs)
    }
}

/// The concrete number an abstract value stands for, given the program
/// inputs and an assignment `env` of concrete numbers to the identities of
/// unknown values.
spec fn concr(v: Value, inputs: Seq<int>, env: Map<int, int>) -> int {
    match v {
        Value::Exact(_, n) => n as int,
        Value::Input(_, i) => inputs[i as int],
        Value::Unknown(vid) => env[vid.0 as int],
    }
}

/// The simulation invariant tying an abstract pass state to a concrete
/// machine: the machines agree on how many inputs were consumed, every
/// abstract register concretizes to the machine's register, every identity
/// in the bank is older than the counter, and values that share an
/// identity stand for the same concrete number.
spec fn consistent(s: PassState, m: Machine, inputs: Seq<int>, env: Map<int, int>) -> bool {
    &&& s.regs.len() == 4
    &&& m.regs.len() == 4
    &&& m.next_input == s.next_input
    &&& (forall|i: int| 0 <= i < 4 ==> m.regs[i] == concr(#[trigger] s.regs[i], inputs, env))
    &&& (forall|i: int| 0 <= i < 4 ==> (#[trigger] s.regs[i]).spec_vid().0 < s.next_vid)
    &&& (forall|i: int, j: int|
        #![trigger s.regs[i].spec_vid(), s.regs[j].spec_vid()]
        0 <= i < 4 && 0 <= j < 4 && s.regs[i].spec_vid() == s.regs[j].spec_vid() ==> concr(
            s.regs[i],
            inputs,
            env,
        ) == concr(s.regs[j], inputs, env))
}

/// How the unknown-assignment grows over one step: if the step mints a
/// fresh `Unknown` for the destination register, its identity is bound to
/// the concrete number the machine computes there.
spec fn extend_env(
    env: Map<int, int>,
    s: PassState,
    m: Machine,
    inputs: Seq<int>,
    instr: Instruction,
) -> Map<int, int> {
    match instr {
        Instruction::Input(_) => env,
        _ => {
            let dest = instr.spec_destination() as int;
            let left = s.regs[dest];
            let resolved = spec_resolve(s.regs, s.next_vid, binary_operand(instr));
            let evaluated = spec_eval(instr, left, resolved.0, resolved.1);
            match evaluated.0 {
                Value::Unknown(vid) => if vid.0 >= s.next_vid {
                    env.insert(vid.0 as int, machine_step(m, instr, inputs).regs[dest])
                } else {
                    env
                },
                _ => env,
            }
        },
    }
}

/// Dividing 0, or by 1, leaves the dividend; likewise the remainder.
proof fn lemma_trunc_identities(x: int, d: int)
    ensures
        tdiv(0, d) == 0,
        tdiv(x, 1) == x,
        tmod(0, d) == 0,
        tmod(x, 1) == 0,
{
    if x > 0 {
        assert(x / 1 == x);
        assert(x % 1 == 0);
    } else if x < 0 {
        assert((x * -1) / 1 == x * -1);
        assert((x * -1) % 1 == 0);
    }
}

/// One step of the pass is sound: consistency is preserved, and a dropped
/// instruction leaves the concrete machine unchanged.
proof fn lemma_step_sound(
    s: PassState,
    m: Machine,
    env: Map<int, int>,
    instr: Instruction,
    inputs: Seq<int>,
)
    requires
        consistent(s, m, inputs, env),
        spec_step_ok(s, instr),
    ensures
        consistent(
            spec_step(s, instr),
            machine_step(m, instr, inputs),
            inputs,
            extend_env(env, s, m, inputs, instr),
        ),
        spec_step(s, instr).out == s.out || spec_step(s, instr).out == s.out.push(instr),
        spec_step(s, instr).out == s.out ==> machine_step(m, instr, inputs) == m,
{
    let s2 = spec_step(s, instr);
    let m2 = machine_step(m, instr, inputs);
    let env2 = extend_env(env, s, m, inputs, instr);
    match instr {
        Instruction::Input(r) => {
            assert(s.out.push(instr).len() == s.out.len() + 1);
        },
        _ => {
            let dest = instr.spec_destination() as int;
            let left = s.regs[dest];
            let resolved = spec_resolve(s.regs, s.next_vid, binary_operand(instr));
            let right = resolved.0;
            let evaluated = spec_eval(instr, left, right, resolved.1);
            let new_val = evaluated.0;
            let lc = m.regs[dest];
            let rc = operand_value(m, binary_operand(instr));
            let oc = concrete_op(instr, lc, rc);

            // The resolved right-hand side concretizes to the concrete operand,
            // and its identity either is fresh or is one from the bank.
            assert(concr(right, inputs, env) == rc);

            // Extending the assignment does not disturb values older than the
            // counter.
            assert forall|v: Value| v.spec_vid().0 < s.next_vid implies concr(v, inputs, env2)
                == concr(v, inputs, env) by {
                match v {
                    Value::Unknown(vid) => {
                        if env2 != env {
                            assert(env2[vid.0 as int] == env[vid.0 as int]);
                        }
                    },
                    _ => {},
                }
            }

            // The evaluated value concretizes to what the machine computes, it
            // is dropped only when that number already sat in the register, and
            // its identity stays below the advanced counter.
            match instr {
                Instruction::Input(_) => {},
                Instruction::Add(_, _) => {},
                Instruction::Mul(_, _) => {},
                Instruction::Div(_, _) => {
                    lemma_trunc_identities(lc, rc);
                },
                Instruction::Mod(_, _) => {
                    lemma_trunc_identities(lc, rc);
                },
                Instruction::Equal(_, _) => {},
            }
            assert(concr(new_val, inputs, env2) == oc);
            assert(value_eq(left, new_val) ==> oc == lc);
            assert(new_val.spec_vid().0 < s2.next_vid);
            assert(s.next_vid <= s2.next_vid);

            // Consistency of the updated bank.
            assert(s2.regs =~= s.regs.update(dest, new_val));
            assert(m2.regs =~= m.regs.update(dest, oc));
            assert forall|i: int| 0 <= i < 4 implies m2.regs[i] == concr(
                #[trigger] s2.regs[i],
                inputs,
                env2,
            ) by {
                if i != dest {
                    assert(s2.regs[i] == s.regs[i]);
                    assert(s.regs[i].spec_vid().0 < s.next_vid);
                }
            }
            assert forall|i: int, j: int|
                #![trigger s2.regs[i].spec_vid(), s2.regs[j].spec_vid()]
                0 <= i < 4 && 0 <= j < 4 && s2.regs[i].spec_vid() == s2.regs[j].spec_vid() implies
                concr(s2.regs[i], inputs, env2) == concr(s2.regs[j], inputs, env2) by {
                assert(s.regs[i].spec_vid().0 < s.next_vid);
                assert(s.regs[j].spec_vid().0 < s.next_vid);
            }

            // A dropped instruction leaves the machine unchanged.
            if value_eq(left, new_val) {
                assert(m2.regs =~= m.regs);
                assert(m2 =~= m);
            } else {
                assert(s2.out == s.out.push(instr));
            }
        },
    }
}

/// The deterministic unknown-assignment built up over a whole pass.
spec fn env_after(instrs: Seq<Instruction>, inputs: Seq<int>) -> Map<int, int>
    decreases instrs.len(),
{
    if instrs.len() == 0 {
        Map::empty()
    } else {
        extend_env(
            env_after(instrs.drop_last(), inputs),
            spec_run(initial_pass_state(), instrs.drop_last()),
            machine_run(machine_init(), instrs.drop_last(), inputs),
            inputs,
            instrs.last(),
        )
    }
}

/// The whole pass is sound: the abstract state stays consistent with the
/// concrete machine, and running the retained instructions reaches the
/// same machine as running all of them.
proof fn lemma_pass_sound(instrs: Seq<Instruction>, inputs: Seq<int>)
    requires
        spec_run_ok(initial_pass_state(), instrs),
    ensures
        consistent(
            spec_run(initial_pass_state(), instrs),
            machine_run(machine_init(), instrs, inputs),
            inputs,
            env_after(instrs, inputs),
        ),
        machine_run(machine_init(), spec_run(initial_pass_state(), instrs).out, inputs)
            == machine_run(machine_init(), instrs, inputs),
    decreases instrs.len(),
{
    if instrs.len() == 0 {
        assert(initial_pass_state().regs.len() == 4);
        assert(forall|i: int|
            0 <= i < 4 ==> machine_init().regs[i] == concr(
                #[trigger] initial_pass_state().regs[i],
                inputs,
                Map::empty(),
            ));
    } else {
        let dl = instrs.drop_last();
        let last = instrs.last();
        lemma_pass_sound(dl, inputs);
        let a1 = spec_run(initial_pass_state(), dl);
        let m1 = machine_run(machine_init(), dl, inputs);
        let env1 = env_after(dl, inputs);
        lemma_step_sound(a1, m1, env1, last, inputs);
        let a = spec_run(initial_pass_state(), instrs);
        let mo = machine_run(machine_init(), instrs, inputs);
        if a.out == a1.out.push(last) {
            assert(a.out.drop_last() =~= a1.out);
            assert(a.out.len() > 0);
            assert(machine_run(machine_init(), a.out, inputs) == machine_step(
                machine_run(machine_init(), a1.out, inputs),
                last,
                inputs,
            ));
        }
    }
}

/// Semantic equivalence: for every instruction sequence the pass is
/// defined on and every assignment of input values, executing the
/// optimized sequence yields the same final four-register state as
/// executing the original sequence.
pub proof fn lemma_semantic_equivalence(instrs: Seq<Instruction>, inputs: Seq<int>)
    requires
        spec_run_ok(initial_pass_state(), instrs),
    ensures
        machine_run(machine_init(), spec_run(initial_pass_state(), instrs).out, inputs)
            == machine_run(machine_init(), instrs, inputs),
{
    lemma_pass_sound(instrs, inputs);
}

/// `sub` can be obtained from `sup` by deleting elements: the elements of
/// `sub` appear in `sup` in the same relative order.
pub open spec fn subsequence_of(sub: Seq<Instruction>, sup: Seq<Instruction>) -> bool
    decreases sup.len(), sub.len(),
{
    if sub.len() == 0 {
        true
    } else if sup.len() == 0 {
        false
    } else {
        (sub.last() == sup.last() && subsequence_of(sub.drop_last(), sup.drop_last()))
            || subsequence_of(sub, sup.drop_last())
    }
}

proof fn lemma_run_out_subsequence(s: PassState, instrs: Seq<Instruction>)
    ensures
        subsequence_of(spec_run(s, instrs).out, s.out + instrs),
    decreases instrs.len(),
{
    if instrs.len() == 0 {
        assert(s.out + instrs =~= s.out);
        lemma_subsequence_refl(s.out);
    } else {
        let dl = instrs.drop_last();
        let last = instrs.last();
        lemma_run_out_subsequence(s, dl);
        let a1 = spec_run(s, dl);
        let a = spec_run(s, instrs);
        let sup = s.out + instrs;
        assert(sup =~= (s.out + dl).push(last));
        assert(sup.drop_last() =~= s.out + dl);
        assert(a.out == a1.out || a.out == a1.out.push(last)) by {
            lemma_step_out_shape(a1, last);
        }
        if a.out == a1.out.push(last) {
            assert(a.out.drop_last() =~= a1.out);
        } else {
            if a.out.len() > 0 {
                assert(subsequence_of(a.out, sup));
            }
        }
    }
}

/// One step either keeps the output or appends exactly the instruction.
proof fn lemma_step_out_shape(s: PassState, instr: Instruction)
    ensures
        spec_step(s, instr).out == s.out || spec_step(s, instr).out == s.out.push(instr),
        instr is Input ==> spec_step(s, instr).out == s.out.push(instr),
{
}

/// A sequence is a subsequence of itself.
proof fn lemma_subsequence_refl(s: Seq<Instruction>)
    ensures
        subsequence_of(s, s),
    decreases s.len(),
{
    if s.len() > 0 {
        lemma_subsequence_refl(s.drop_last());
    }
}

/// Order preservation: the retained instructions appear in the output in
/// the same relative order as in the input.
pub proof fn lemma_order_preservation(instrs: Seq<Instruction>)
    ensures
        subsequence_of(spec_run(initial_pass_state(), instrs).out, instrs),
{
    lemma_run_out_subsequence(initial_pass_state(), instrs);
    assert(initial_pass_state().out + instrs =~= instrs);
}

/// The predicate that picks out `Input` instructions.
pub open spec fn input_filter() -> spec_fn(Instruction) -> bool {
    |i: Instruction| i is Input
}

proof fn lemma_run_out_inputs(s: PassState, instrs: Seq<Instruction>)
    ensures
        spec_run(s, instrs).out.filter(input_filter()) == s.out.filter(input_filter())
            + instrs.filter(input_filter()),
    decreases instrs.len(),
{
    reveal(Seq::filter);
    if instrs.len() == 0 {
        assert(s.out.filter(input_filter()) + instrs.filter(input_filter()) =~= s.out.filter(
            input_filter(),
        ));
    } else {
        let dl = instrs.drop_last();
        let last = instrs.last();
        lemma_run_out_inputs(s, dl);
        let a1 = spec_run(s, dl);
        let a = spec_run(s, instrs);
        lemma_step_out_shape(a1, last);
        assert(instrs.drop_last() == dl && instrs.last() == last);
        if a.out == a1.out.push(last) {
            assert(a.out.drop_last() =~= a1.out);
            assert(a.out.len() > 0 && a.out.last() == last);
            if input_filter()(last) {
                assert(a.out.filter(input_filter()) == a1.out.filter(input_filter()).push(last));
                assert(a1.out.filter(input_filter()).push(last) =~= s.out.filter(input_filter())
                    + instrs.filter(input_filter()));
            } else {
                assert(a.out.filter(input_filter()) == a1.out.filter(input_filter()));
                assert(a1.out.filter(input_filter()) =~= s.out.filter(input_filter())
                    + instrs.filter(input_filter()));
            }
        } else {
            // A dropped instruction is a binary instruction, never an `Input`.
            assert(!input_filter()(last));
            assert(a1.out.filter(input_filter()) =~= s.out.filter(input_filter()) + instrs.filter(
                input_filter(),
            ));
        }
    }
}

/// Input preservation: the `Input` instructions of the output are exactly
/// the `Input` instructions of the input, in number, order and identity.
pub proof fn lemma_input_preservation(instrs: Seq<Instruction>)
    ensures
        spec_run(initial_pass_state(), instrs).out.filter(input_filter()) == instrs.filter(
            input_filter(),
        ),
{
    lemma_run_out_inputs(initial_pass_state(), instrs);
    reveal(Seq::filter);
    assert(initial_pass_state().out.filter(input_filter()) + instrs.filter(input_filter())
        =~= instrs.filter(input_filter()));
}

} // verus!
