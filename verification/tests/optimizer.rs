use monadc::compiler::{evaluate_mul, propagate_constants};
use monadc::program::Program;
use monadc::types::{Instruction, Operand, Register, Value};

#[test]
fn test_propagate_constants_removes_no_ops() {
    let instr: Vec<Instruction> = vec![
        Instruction::Add(Register(0), Operand::Literal(0)),
        Instruction::Div(Register(0), Operand::Literal(1)),
        Instruction::Mul(Register(0), Operand::Literal(0)),
        Instruction::Mod(Register(0), Operand::Literal(1)),
    ];

    assert_eq!(propagate_constants(instr), vec![],)
}

#[test]
fn test_empty_program_stays_empty() {
    assert_eq!(propagate_constants(vec![]), vec![]);
}

#[test]
fn test_multiplicative_identity_dropped_after_fold() {
    let instr: Vec<Instruction> = vec![
        Instruction::Input(Register(0)),
        Instruction::Add(Register(1), Operand::Literal(5)),
        Instruction::Mul(Register(1), Operand::Literal(3)),
        Instruction::Mul(Register(1), Operand::Literal(1)),
    ];
    let expected: Vec<Instruction> = vec![
        Instruction::Input(Register(0)),
        Instruction::Add(Register(1), Operand::Literal(5)),
        Instruction::Mul(Register(1), Operand::Literal(3)),
    ];
    assert_eq!(propagate_constants(instr), expected);
}

#[test]
fn test_absorbing_zero_on_input_register_is_retained() {
    // The multiplication changes the abstract value of `w` from an input
    // to an exact 0: a real state change, hence retained.
    let instr: Vec<Instruction> = vec![
        Instruction::Input(Register(0)),
        Instruction::Mul(Register(0), Operand::Literal(0)),
    ];
    let expected = instr.clone();
    assert_eq!(propagate_constants(instr), expected);
}

#[test]
fn test_inputs_always_retained() {
    let instr: Vec<Instruction> = vec![
        Instruction::Input(Register(0)),
        Instruction::Input(Register(0)),
        Instruction::Add(Register(0), Operand::Literal(0)),
        Instruction::Input(Register(3)),
    ];
    let expected: Vec<Instruction> = vec![
        Instruction::Input(Register(0)),
        Instruction::Input(Register(0)),
        Instruction::Input(Register(3)),
    ];
    assert_eq!(propagate_constants(instr), expected);
}

#[test]
fn test_equal_fold_to_current_value_dropped() {
    // w starts at exactly 0; comparing with 5 folds to exactly 0 again,
    // so the comparison is a no-op and is dropped.
    let instr: Vec<Instruction> = vec![Instruction::Equal(Register(0), Operand::Literal(5))];
    assert_eq!(propagate_constants(instr), vec![]);
    // Comparing with 0 folds to exactly 1: a real change, retained.
    let instr: Vec<Instruction> = vec![Instruction::Equal(Register(0), Operand::Literal(0))];
    let expected = instr.clone();
    assert_eq!(propagate_constants(instr), expected);
}

#[test]
fn test_division_truncates_toward_zero() {
    // -7 / 2 must fold to -3 (truncating), so the final `mod w 1` sees
    // exactly 0 and is dropped; floor division would leave -1 there and
    // retain it.
    let instr: Vec<Instruction> = vec![
        Instruction::Add(Register(0), Operand::Literal(-7)),
        Instruction::Div(Register(0), Operand::Literal(2)),
        Instruction::Add(Register(0), Operand::Literal(3)),
        Instruction::Mod(Register(0), Operand::Literal(1)),
    ];
    let expected: Vec<Instruction> = vec![
        Instruction::Add(Register(0), Operand::Literal(-7)),
        Instruction::Div(Register(0), Operand::Literal(2)),
        Instruction::Add(Register(0), Operand::Literal(3)),
    ];
    assert_eq!(propagate_constants(instr), expected);
}

#[test]
fn test_remainder_sign_follows_dividend() {
    // -7 mod 2 must fold to -1, so adding 1 reaches exactly 0 and the
    // final `mod w 1` is dropped; a nonnegative remainder would leave 2.
    let instr: Vec<Instruction> = vec![
        Instruction::Add(Register(0), Operand::Literal(-7)),
        Instruction::Mod(Register(0), Operand::Literal(2)),
        Instruction::Add(Register(0), Operand::Literal(1)),
        Instruction::Mod(Register(0), Operand::Literal(1)),
    ];
    let expected: Vec<Instruction> = vec![
        Instruction::Add(Register(0), Operand::Literal(-7)),
        Instruction::Mod(Register(0), Operand::Literal(2)),
        Instruction::Add(Register(0), Operand::Literal(1)),
    ];
    assert_eq!(propagate_constants(instr), expected);
}

#[test]
fn test_register_operands_resolve_against_the_bank() {
    // y holds 4, x holds 2: `div y x` folds y to 2, `eql y x` folds to 1
    // and is retained, and the final `mul y 1` is an identity and dropped.
    let instr: Vec<Instruction> = vec![
        Instruction::Add(Register(2), Operand::Literal(4)),
        Instruction::Add(Register(1), Operand::Literal(2)),
        Instruction::Div(Register(2), Operand::Register(Register(1))),
        Instruction::Equal(Register(2), Operand::Register(Register(1))),
        Instruction::Mul(Register(2), Operand::Literal(1)),
    ];
    let expected: Vec<Instruction> = vec![
        Instruction::Add(Register(2), Operand::Literal(4)),
        Instruction::Add(Register(1), Operand::Literal(2)),
        Instruction::Div(Register(2), Operand::Register(Register(1))),
        Instruction::Equal(Register(2), Operand::Register(Register(1))),
    ];
    assert_eq!(propagate_constants(instr), expected);
}

#[test]
fn test_absorbing_zero_with_unknown_operand() {
    let mut program = Program::default();
    let unknown = program.new_unknown_value();
    let zero = program.new_exact_value(0);
    let folded = evaluate_mul(&mut program, unknown, zero);
    assert!(matches!(folded, Value::Exact(_, 0)));

    let unknown = program.new_unknown_value();
    let zero = program.new_exact_value(0);
    let folded = evaluate_mul(&mut program, zero, unknown);
    assert!(matches!(folded, Value::Exact(_, 0)));

    // An exact 0 equals any exact 0, whatever its identity.
    let other_zero = program.new_exact_value(0);
    assert!(folded == other_zero);
}

#[test]
fn test_identity_distinctness() {
    let mut program = Program::default();
    let u1 = program.new_unknown_value();
    let u2 = program.new_unknown_value();
    assert!(u1 != u2);
    assert!(u1 == u1);
    assert!(u2 == u2);

    let i1 = program.new_input_value();
    let i2 = program.new_input_value();
    assert!(i1 != i2);
    assert!(i1 == i1);
    assert!(i1 != u1);

    // Exact values compare by payload alone.
    let e1 = program.new_exact_value(7);
    let e2 = program.new_exact_value(7);
    let e3 = program.new_exact_value(8);
    assert!(e1 == e2);
    assert!(e1 != e3);
}

#[test]
fn test_second_pass_removes_nothing_more() {
    let programs: Vec<Vec<Instruction>> = vec![
        vec![
            Instruction::Add(Register(0), Operand::Literal(0)),
            Instruction::Div(Register(0), Operand::Literal(1)),
            Instruction::Mul(Register(0), Operand::Literal(0)),
            Instruction::Mod(Register(0), Operand::Literal(1)),
        ],
        vec![
            Instruction::Input(Register(0)),
            Instruction::Add(Register(1), Operand::Literal(5)),
            Instruction::Mul(Register(1), Operand::Literal(3)),
            Instruction::Mul(Register(1), Operand::Literal(1)),
        ],
        vec![
            Instruction::Input(Register(0)),
            Instruction::Mul(Register(0), Operand::Literal(0)),
            Instruction::Add(Register(0), Operand::Register(Register(3))),
            Instruction::Equal(Register(0), Operand::Register(Register(1))),
            Instruction::Mod(Register(2), Operand::Register(Register(0))),
        ],
    ];
    for program in programs {
        let once = propagate_constants(program);
        let twice = propagate_constants(once.clone());
        assert_eq!(once, twice);
    }
}

#[test]
fn test_initial_registers_are_exact_zero() {
    let program = Program::default();
    let bank = program.initial_registers();
    assert_eq!(bank.len(), 4);
    for value in bank.iter() {
        assert!(matches!(value, Value::Exact(_, 0)));
    }
    // Each slot carries its own identity: slots are equal to each other
    // only because they are exact values with equal payloads.
    assert!(bank[0].vid() != bank[1].vid());
}

#[test]
fn test_destination_and_operand_queries() {
    let instr = Instruction::Add(Register(1), Operand::Literal(3));
    assert_eq!(instr.destination(), 1);
    assert_eq!(instr.operand(), Some(Operand::Literal(3)));
    let instr = Instruction::Input(Register(2));
    assert_eq!(instr.destination(), 2);
    assert_eq!(instr.operand(), None);
    let instr = Instruction::Equal(Register(3), Operand::Register(Register(0)));
    assert_eq!(instr.destination(), 3);
    assert_eq!(instr.operand(), Some(Operand::Register(Register(0))));
}
