//! A parser for the line-oriented textual form of MONAD programs:
//! `inp <reg>`, and `<op> <reg> <operand>` for op in add, mul, div, mod,
//! eql, where `<reg>` is one of the letters w, x, y, z and `<operand>` is
//! either one of those letters or a signed decimal integer. Instructions
//! are separated by line endings (`\n` or `\r\n`); the one after the last
//! instruction is optional.
//!
//! The grammar is specified over the byte encoding of the source text by
//! recursive-descent specification functions, and the executable parser is
//! verified to return exactly what they describe.

use vstd::prelude::*;
use vstd::string::StringSliceAdditionalSpecFns;

use crate::types::{Instruction, Operand, Register};

verus! {

/// Byte values of the characters the grammar knows.
pub const B_SPACE: u8 = 32;

pub const B_TAB: u8 = 9;

pub const B_NL: u8 = 10;

pub const B_CR: u8 = 13;

pub const B_MINUS: u8 = 45;

pub const B_0: u8 = 48;

pub const B_9: u8 = 57;

pub const B_A: u8 = 97;

pub const B_D: u8 = 100;

pub const B_E: u8 = 101;

pub const B_I: u8 = 105;

pub const B_L: u8 = 108;

pub const B_M: u8 = 109;

pub const B_N: u8 = 110;

pub const B_O: u8 = 111;

pub const B_P: u8 = 112;

pub const B_Q: u8 = 113;

pub const B_U: u8 = 117;

pub const B_V: u8 = 118;

pub const B_W: u8 = 119;

pub const B_X: u8 = 120;

pub const B_Y: u8 = 121;

pub const B_Z: u8 = 122;


/// A space or a tab.
pub open spec fn is_space(b: u8) -> bool {
    b == B_SPACE || b == B_TAB
}

/// An ASCII decimal digit.
pub open spec fn is_digit(b: u8) -> bool {
    B_0 <= b <= B_9
}

/// A register letter at `i`: `w`, `x`, `y` or `z`.
pub open spec fn spec_parse_register(s: Seq<u8>, i: int) -> Option<(Register, int)> {
    if 0 <= i < s.len() {
        if s[i] == B_W {
            Some((Register(0), i + 1))
        } else if s[i] == B_X {
            Some((Register(1), i + 1))
        } else if s[i] == B_Y {
            Some((Register(2), i + 1))
        } else if s[i] == B_Z {
            Some((Register(3), i + 1))
        } else {
            None
        }
    } else {
        None
    }
}

/// The first position at or after `i` that does not hold a space or tab.
pub open spec fn skip_spaces(s: Seq<u8>, i: int) -> int
    decreases s.len() - i,
{
    if 0 <= i < s.len() && is_space(s[i]) {
        skip_spaces(s, i + 1)
    } else {
        i
    }
}

/// One or more spaces or tabs at `i`; yields the position after them.
pub open spec fn spec_space1(s: Seq<u8>, i: int) -> Option<int> {
    if 0 <= i < s.len() && is_space(s[i]) {
        Some(skip_spaces(s, i))
    } else {
        None
    }
}

/// An optional line ending at `i`: consumes `\n` or `\r\n` if present.
pub open spec fn spec_opt_line_ending(s: Seq<u8>, i: int) -> int {
    if 0 <= i < s.len() && s[i] == B_NL {
        i + 1
    } else if 0 <= i && i + 1 < s.len() && s[i] == B_CR && s[i + 1] == B_NL {
        i + 2
    } else {
        i
    }
}

/// The first position at or after `i` that does not hold a digit.
pub open spec fn digits_end(s: Seq<u8>, i: int) -> int
    decreases s.len() - i,
{
    if 0 <= i < s.len() && is_digit(s[i]) {
        digits_end(s, i + 1)
    } else {
        i
    }
}

/// The number the digit run `s[i..j)` denotes.
pub open spec fn digits_value(s: Seq<u8>, i: int, j: int) -> int
    decreases j - i,
{
    if i < j {
        digits_value(s, i, j - 1) * 10 + (s[j - 1] - B_0)
    } else {
        0
    }
}

/// A signed decimal integer at `i`: an optional minus sign, then one or
/// more digits. Fails when there is no digit or when the denoted number
/// does not fit in an `i64` (as host integer parsing does).
pub open spec fn spec_parse_int(s: Seq<u8>, i: int) -> Option<(i64, int)> {
    let neg = 0 <= i < s.len() && s[i] == B_MINUS;
    let d0 = if neg {
        i + 1
    } else {
        i
    };
    let dend = digits_end(s, d0);
    if dend == d0 {
        None
    } else {
        let v: int = if neg {
            -digits_value(s, d0, dend)
        } else {
            digits_value(s, d0, dend)
        };
        if i64::MIN <= v <= i64::MAX {
            Some((v as i64, dend))
        } else {
            None
        }
    }
}

/// Where a run of spaces ends: between `i` and the end of the input.
proof fn lemma_skip_spaces_bounds(s: Seq<u8>, i: int)
    requires
        0 <= i <= s.len(),
    ensures
        i <= skip_spaces(s, i) <= s.len(),
    decreases s.len() - i,
{
    if i < s.len() && is_space(s[i]) {
        lemma_skip_spaces_bounds(s, i + 1);
    }
}

/// Where a digit run ends: in bounds, only digits before it.
proof fn lemma_digits_end_bounds(s: Seq<u8>, i: int)
    requires
        0 <= i <= s.len(),
    ensures
        i <= digits_end(s, i) <= s.len(),
        forall|m: int| i <= m < digits_end(s, i) ==> is_digit(s[m]),
    decreases s.len() - i,
{
    if i < s.len() && is_digit(s[i]) {
        lemma_digits_end_bounds(s, i + 1);
    }
}

/// A digit run's value is nonnegative and grows (weakly) with its length.
proof fn lemma_digits_value_mono(s: Seq<u8>, i: int, j: int, k: int)
    requires
        i <= j <= k,
        forall|m: int| i <= m < k ==> is_digit(s[m]),
    ensures
        0 <= digits_value(s, i, j) <= digits_value(s, i, k),
    decreases k - i,
{
    lemma_digits_value_nonneg(s, i, j);
    if j < k {
        lemma_digits_value_mono(s, i, j, k - 1);
        lemma_digits_value_nonneg(s, i, k - 1);
    }
}

proof fn lemma_digits_value_nonneg(s: Seq<u8>, i: int, j: int)
    requires
        forall|m: int| i <= m < j ==> is_digit(s[m]),
    ensures
        digits_value(s, i, j) >= 0,
    decreases j - i,
{
    if i < j {
        lemma_digits_value_nonneg(s, i, j - 1);
    }
}

fn is_space_byte(b: u8) -> (r: bool)
    ensures
        r == is_space(b),
{
    b == B_SPACE || b == B_TAB
}

fn is_digit_byte(b: u8) -> (r: bool)
    ensures
        r == is_digit(b),
{
    B_0 <= b && b <= B_9
}

/// Parse a register letter.
fn register(bytes: &[u8], i: usize) -> (r: Option<(Register, usize)>)
    requires
        i <= bytes@.len(),
    ensures
        match r {
            Some((reg, j)) => spec_parse_register(bytes@, i as int) == Some((reg, j as int)),
            None => spec_parse_register(bytes@, i as int) is None,
        },
{
    if i < bytes.len() {
        let b = bytes[i];
        if b == B_W {
            Some((Register(0), i + 1))
        } else if b == B_X {
            Some((Register(1), i + 1))
        } else if b == B_Y {
            Some((Register(2), i + 1))
        } else if b == B_Z {
            Some((Register(3), i + 1))
        } else {
            None
        }
    } else {
        None
    }
}

/// Consume one or more spaces or tabs.
fn space1(bytes: &[u8], i: usize) -> (r: Option<usize>)
    requires
        i <= bytes@.len(),
    ensures
        match r {
            Some(j) => spec_space1(bytes@, i as int) == Some(j as int) && i < j <= bytes@.len(),
            None => spec_space1(bytes@, i as int) is None,
        },
{
    let n = bytes.len();
    if i < n && is_space_byte(bytes[i]) {
        proof {
            lemma_skip_spaces_bounds(bytes@, i as int);
        }
        let mut j = i + 1;
        while j < n && is_space_byte(bytes[j])
            invariant
                i < j <= n,
                n == bytes@.len(),
                skip_spaces(bytes@, i as int) == skip_spaces(bytes@, j as int),
            decreases n - j,
        {
            j = j + 1;
        }
        Some(j)
    } else {
        None
    }
}

/// Consume an optional line ending.
fn opt_line_ending(bytes: &[u8], i: usize) -> (j: usize)
    requires
        i <= bytes@.len(),
    ensures
        j as int == spec_opt_line_ending(bytes@, i as int),
        i <= j <= bytes@.len(),
{
    let n = bytes.len();
    if i < n && bytes[i] == B_NL {
        i + 1
    } else if n - i >= 2 && bytes[i] == B_CR && bytes[i + 1] == B_NL {
        i + 2
    } else {
        i
    }
}

/// Parse a signed decimal integer.
#[verifier::loop_isolation(false)]
fn text_signed_int(bytes: &[u8], i: usize) -> (r: Option<(i64, usize)>)
    requires
        i <= bytes@.len(),
    ensures
        match r {
            Some((v, j)) => spec_parse_int(bytes@, i as int) == Some((v, j as int)) && i < j
                <= bytes@.len(),
            None => spec_parse_int(bytes@, i as int) is None,
        },
{
    let n = bytes.len();
    let ghost s = bytes@;
    let neg = i < n && bytes[i] == B_MINUS;
    let d0 = if neg {
        i + 1
    } else {
        i
    };
    proof {
        lemma_digits_end_bounds(s, d0 as int);
    }
    let ghost dend = digits_end(s, d0 as int);
    if d0 >= n || !is_digit_byte(bytes[d0]) {
        return None;
    }
    let mut j = d0;
    let mut acc: i64 = 0;
    while j < n && is_digit_byte(bytes[j])
        invariant
            d0 <= j <= n,
            n == s.len(),
            s == bytes@,
            dend == digits_end(s, d0 as int),
            digits_end(s, j as int) == dend,
            j < dend ==> is_digit(s[j as int]),
            !neg ==> acc == digits_value(s, d0 as int, j as int),
            neg ==> acc == -digits_value(s, d0 as int, j as int),
        decreases n - j,
    {
        proof {
            lemma_digits_end_bounds(s, d0 as int);
            lemma_digits_end_bounds(s, j as int);
            assert(digits_end(s, j as int) == digits_end(s, j as int + 1));
            lemma_digits_end_bounds(s, j as int + 1);
            lemma_digits_value_mono(s, d0 as int, j as int, dend);
            lemma_digits_value_mono(s, d0 as int, j as int + 1, dend);
        }
        let d = bytes[j] - B_0;
        proof {
            assert(digits_value(s, d0 as int, j as int + 1) == digits_value(
                s,
                d0 as int,
                j as int,
            ) * 10 + (s[j as int] - B_0));
        }
        if neg {
            let stepped = match acc.checked_mul(10) {
                Some(x) => x.checked_sub(d as i64),
                None => None,
            };
            match stepped {
                Some(x) => {
                    acc = x;
                },
                None => {
                    proof {
                        assert(-digits_value(s, d0 as int, j as int + 1) < i64::MIN);
                        assert(-digits_value(s, d0 as int, dend) < i64::MIN);
                        assert(spec_parse_int(s, i as int) is None);
                    }
                    return None;
                },
            }
        } else {
            let stepped = match acc.checked_mul(10) {
                Some(x) => x.checked_add(d as i64),
                None => None,
            };
            match stepped {
                Some(x) => {
                    acc = x;
                },
                None => {
                    proof {
                        assert(digits_value(s, d0 as int, j as int + 1) > i64::MAX);
                        assert(digits_value(s, d0 as int, dend) > i64::MAX);
                        assert(spec_parse_int(s, i as int) is None);
                    }
                    return None;
                },
            }
        }
        j = j + 1;
    }
    Some((acc, j))
}


/// The three tag bytes at `i`.
pub open spec fn spec_tag3(s: Seq<u8>, i: int, a: u8, b: u8, c: u8) -> bool {
    0 <= i && i + 3 <= s.len() && s[i] == a && s[i + 1] == b && s[i + 2] == c
}

/// An operand at `i`: a register letter, or else a signed integer.
pub open spec fn spec_parse_operand(s: Seq<u8>, i: int) -> Option<(Operand, int)> {
    match spec_parse_register(s, i) {
        Some((r, j)) => Some((Operand::Register(r), j)),
        None => match spec_parse_int(s, i) {
            Some((v, j)) => Some((Operand::Literal(v), j)),
            None => None,
        },
    }
}

/// A full input instruction at `i`: `inp`, spaces, a register, and an
/// optional line ending.
pub open spec fn spec_parse_input_instruction(s: Seq<u8>, i: int) -> Option<(Instruction, int)> {
    if spec_tag3(s, i, B_I, B_N, B_P) {
        match spec_space1(s, i + 3) {
            Some(j) => match spec_parse_register(s, j) {
                Some((r, k)) => Some((Instruction::Input(r), spec_opt_line_ending(s, k))),
                None => None,
            },
            None => None,
        }
    } else {
        None
    }
}

/// What follows a binary instruction's tag: spaces, a register, spaces, an
/// operand, and an optional line ending.
pub open spec fn spec_binary_tail(s: Seq<u8>, i: int) -> Option<(Register, Operand, int)> {
    match spec_space1(s, i) {
        Some(j) => match spec_parse_register(s, j) {
            Some((r, k)) => match spec_space1(s, k) {
                Some(l) => match spec_parse_operand(s, l) {
                    Some((o, m)) => Some((r, o, spec_opt_line_ending(s, m))),
                    None => None,
                },
                None => None,
            },
            None => None,
        },
        None => None,
    }
}

/// A full binary instruction at `i`: one of the five operator tags, then
/// its tail.
pub open spec fn spec_parse_binary_instruction(s: Seq<u8>, i: int) -> Option<(Instruction, int)> {
    if spec_tag3(s, i, B_A, B_D, B_D) {
        match spec_binary_tail(s, i + 3) {
            Some((r, o, j)) => Some((Instruction::Add(r, o), j)),
            None => None,
        }
    } else if spec_tag3(s, i, B_M, B_U, B_L) {
        match spec_binary_tail(s, i + 3) {
            Some((r, o, j)) => Some((Instruction::Mul(r, o), j)),
            None => None,
        }
    } else if spec_tag3(s, i, B_D, B_I, B_V) {
        match spec_binary_tail(s, i + 3) {
            Some((r, o, j)) => Some((Instruction::Div(r, o), j)),
            None => None,
        }
    } else if spec_tag3(s, i, B_M, B_O, B_D) {
        match spec_binary_tail(s, i + 3) {
            Some((r, o, j)) => Some((Instruction::Mod(r, o), j)),
            None => None,
        }
    } else if spec_tag3(s, i, B_E, B_Q, B_L) {
        match spec_binary_tail(s, i + 3) {
            Some((r, o, j)) => Some((Instruction::Equal(r, o), j)),
            None => None,
        }
    } else {
        None
    }
}

/// Any full instruction at `i`: an input instruction, or else a binary one.
pub open spec fn spec_parse_instruction(s: Seq<u8>, i: int) -> Option<(Instruction, int)> {
    match spec_parse_input_instruction(s, i) {
        Some(r) => Some(r),
        None => spec_parse_binary_instruction(s, i),
    }
}

/// As many instructions as parse, greedily, from `i`: the instructions and
/// the position where the first failure stops the run.
pub open spec fn spec_parse_instructions(s: Seq<u8>, i: int) -> (Seq<Instruction>, int)
    decreases s.len() - i,
{
    match spec_parse_instruction(s, i) {
        Some((ins, j)) => if i < j <= s.len() {
            let rest = spec_parse_instructions(s, j);
            (seq![ins] + rest.0, rest.1)
        } else {
            (Seq::empty(), i)
        },
        None => (Seq::empty(), i),
    }
}

/// A full MONAD program: one or more instructions consuming the whole
/// text; anything else is a parse failure.
pub open spec fn spec_parse_program(s: Seq<u8>) -> Option<Seq<Instruction>> {
    let r = spec_parse_instructions(s, 0);
    if r.0.len() >= 1 && r.1 == s.len() {
        Some(r.0)
    } else {
        None
    }
}

/// Whether the three tag bytes stand at `i`.
fn tag3(bytes: &[u8], i: usize, a: u8, b: u8, c: u8) -> (r: bool)
    requires
        i <= bytes@.len(),
    ensures
        r == spec_tag3(bytes@, i as int, a, b, c),
{
    bytes.len() - i >= 3 && bytes[i] == a && bytes[i + 1] == b && bytes[i + 2] == c
}

/// Parse an operand, which is either a register or a signed int.
fn operand(bytes: &[u8], i: usize) -> (r: Option<(Operand, usize)>)
    requires
        i <= bytes@.len(),
    ensures
        match r {
            Some((o, j)) => spec_parse_operand(bytes@, i as int) == Some((o, j as int)) && i < j
                <= bytes@.len(),
            None => spec_parse_operand(bytes@, i as int) is None,
        },
{
    match register(bytes, i) {
        Some((reg, j)) => Some((Operand::Register(reg), j)),
        None => match text_signed_int(bytes, i) {
            Some((v, j)) => Some((Operand::Literal(v), j)),
            None => None,
        },
    }
}

/// Parse a full input instruction, e.g. `inp x`.
fn input_instruction(bytes: &[u8], i: usize) -> (r: Option<(Instruction, usize)>)
    requires
        i <= bytes@.len(),
    ensures
        match r {
            Some((ins, j)) => spec_parse_input_instruction(bytes@, i as int) == Some(
                (ins, j as int),
            ) && i < j <= bytes@.len(),
            None => spec_parse_input_instruction(bytes@, i as int) is None,
        },
{
    proof {
        vstd::slice::axiom_spec_len(bytes);
    }
    if tag3(bytes, i, B_I, B_N, B_P) {
        match space1(bytes, i + 3) {
            Some(j) => match register(bytes, j) {
                Some((reg, k)) => {
                    let m = opt_line_ending(bytes, k);
                    Some((Instruction::Input(reg), m))
                },
                None => None,
            },
            None => None,
        }
    } else {
        None
    }
}

/// Parse what follows a binary instruction's tag.
fn binary_tail(bytes: &[u8], i: usize) -> (r: Option<(Register, Operand, usize)>)
    requires
        i <= bytes@.len(),
    ensures
        match r {
            Some((reg, op, j)) => spec_binary_tail(bytes@, i as int) == Some(
                (reg, op, j as int),
            ) && i < j <= bytes@.len(),
            None => spec_binary_tail(bytes@, i as int) is None,
        },
{
    match space1(bytes, i) {
        Some(j) => match register(bytes, j) {
            Some((reg, k)) => match space1(bytes, k) {
                Some(l) => match operand(bytes, l) {
                    Some((op, m)) => {
                        let e = opt_line_ending(bytes, m);
                        Some((reg, op, e))
                    },
                    None => None,
                },
                None => None,
            },
            None => None,
        },
        None => None,
    }
}

/// Parse a full binary instruction, e.g. `add x 1`.
///
/// The first input must be a register; the second may be either a
/// register or a literal number.
fn binary_instruction(bytes: &[u8], i: usize) -> (r: Option<(Instruction, usize)>)
    requires
        i <= bytes@.len(),
    ensures
        match r {
            Some((ins, j)) => spec_parse_binary_instruction(bytes@, i as int) == Some(
                (ins, j as int),
            ) && i < j <= bytes@.len(),
            None => spec_parse_binary_instruction(bytes@, i as int) is None,
        },
{
    proof {
        vstd::slice::axiom_spec_len(bytes);
    }
    if tag3(bytes, i, B_A, B_D, B_D) {
        match binary_tail(bytes, i + 3) {
            Some((reg, op, j)) => Some((Instruction::Add(reg, op), j)),
            None => None,
        }
    } else if tag3(bytes, i, B_M, B_U, B_L) {
        match binary_tail(bytes, i + 3) {
            Some((reg, op, j)) => Some((Instruction::Mul(reg, op), j)),
            None => None,
        }
    } else if tag3(bytes, i, B_D, B_I, B_V) {
        match binary_tail(bytes, i + 3) {
            Some((reg, op, j)) => Some((Instruction::Div(reg, op), j)),
            None => None,
        }
    } else if tag3(bytes, i, B_M, B_O, B_D) {
        match binary_tail(bytes, i + 3) {
            Some((reg, op, j)) => Some((Instruction::Mod(reg, op), j)),
            None => None,
        }
    } else if tag3(bytes, i, B_E, B_Q, B_L) {
        match binary_tail(bytes, i + 3) {
            Some((reg, op, j)) => Some((Instruction::Equal(reg, op), j)),
            None => None,
        }
    } else {
        None
    }
}

/// Parse any full instruction.
fn instruction(bytes: &[u8], i: usize) -> (r: Option<(Instruction, usize)>)
    requires
        i <= bytes@.len(),
    ensures
        match r {
            Some((ins, j)) => spec_parse_instruction(bytes@, i as int) == Some((ins, j as int))
                && i < j <= bytes@.len(),
            None => spec_parse_instruction(bytes@, i as int) is None,
        },
{
    match input_instruction(bytes, i) {
        Some(r) => Some(r),
        None => binary_instruction(bytes, i),
    }
}

/// Parse a full MONAD program: one or more instructions, with nothing left
/// over. Malformed text is a parse failure, returned as `None`.
#[verifier::loop_isolation(false)]
pub fn parse_program(input: &str) -> (r: Option<Vec<Instruction>>)
    ensures
        match r {
            Some(v) => spec_parse_program(input.spec_bytes()) == Some(v@),
            None => spec_parse_program(input.spec_bytes()) is None,
        },
{
    let bytes = input.as_bytes();
    let ghost s = bytes@;
    let n = bytes.len();
    let mut out: Vec<Instruction> = Vec::new();
    let mut i: usize = 0;
    while i < n
        invariant
            i <= n,
            spec_parse_instructions(s, 0).0 == out@ + spec_parse_instructions(s, i as int).0,
            spec_parse_instructions(s, 0).1 == spec_parse_instructions(s, i as int).1,
        decreases n - i,
    {
        match instruction(bytes, i) {
            Some((ins, j)) => {
                let ghost rest = spec_parse_instructions(s, j as int);
                proof {
                    assert(out@ + (seq![ins] + rest.0) =~= out@.push(ins) + rest.0);
                }
                out.push(ins);
                i = j;
            },
            None => {
                return None;
            },
        }
    }
    proof {
        assert(spec_parse_instructions(s, n as int).0 =~= Seq::<Instruction>::empty());
        assert(out@ + Seq::<Instruction>::empty() =~= out@);
    }
    if out.len() >= 1 {
        Some(out)
    } else {
        None
    }
}

} // verus!
