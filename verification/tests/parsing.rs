use monadc::compiler::propagate_constants;
use monadc::parser::parse_program;
use monadc::types::{Instruction, Operand, Register};

#[test]
fn test_parse_program_valid_input_instr() {
    assert_eq!(
        parse_program(
            "inp w
add x 1
add y -1
mul x y
div y x
mod z w
eql w z"
        ),
        Some(vec![
            Instruction::Input(Register(0)),
            Instruction::Add(Register(1), Operand::Literal(1)),
            Instruction::Add(Register(2), Operand::Literal(-1)),
            Instruction::Mul(Register(1), Operand::Register(Register(2))),
            Instruction::Div(Register(2), Operand::Register(Register(1))),
            Instruction::Mod(Register(3), Operand::Register(Register(0))),
            Instruction::Equal(Register(0), Operand::Register(Register(3))),
        ])
    )
}

#[test]
fn test_parse_single_instruction_without_newline() {
    assert_eq!(
        parse_program("inp z"),
        Some(vec![Instruction::Input(Register(3))])
    );
}

#[test]
fn test_parse_trailing_newline_and_crlf() {
    assert_eq!(
        parse_program("inp w\r\nadd x 1\n"),
        Some(vec![
            Instruction::Input(Register(0)),
            Instruction::Add(Register(1), Operand::Literal(1)),
        ])
    );
}

#[test]
fn test_parse_tabs_as_spacing() {
    assert_eq!(
        parse_program("add\ty\t42"),
        Some(vec![Instruction::Add(Register(2), Operand::Literal(42))])
    );
}

#[test]
fn test_parse_extreme_literals() {
    assert_eq!(
        parse_program("add x 9223372036854775807"),
        Some(vec![Instruction::Add(
            Register(1),
            Operand::Literal(i64::MAX)
        )])
    );
    assert_eq!(
        parse_program("add x -9223372036854775808"),
        Some(vec![Instruction::Add(
            Register(1),
            Operand::Literal(i64::MIN)
        )])
    );
    // One past either end of the range is a parse failure.
    assert_eq!(parse_program("add x 9223372036854775808"), None);
    assert_eq!(parse_program("add x -9223372036854775809"), None);
}

#[test]
fn test_parse_rejects_malformed_text() {
    assert_eq!(parse_program(""), None);
    assert_eq!(parse_program("inp q"), None);
    assert_eq!(parse_program("add w"), None);
    assert_eq!(parse_program("sub w 1"), None);
    assert_eq!(parse_program("inp w trailing"), None);
    assert_eq!(parse_program("inp w\nnonsense"), None);
    assert_eq!(parse_program("add x -"), None);
    assert_eq!(parse_program("addx 1"), None);
}

#[test]
fn test_parse_then_optimize() {
    let program = parse_program("inp w\nadd w 0\nmul w 1\nadd x 3\nmul x 0").unwrap();
    let optimized = propagate_constants(program);
    assert_eq!(
        optimized,
        vec![
            Instruction::Input(Register(0)),
            Instruction::Add(Register(1), Operand::Literal(3)),
            Instruction::Mul(Register(1), Operand::Literal(0)),
        ]
    );
}
