//! The text form of a program: one instruction per line, four fields
//! separated by white space, as in `LD F6 34+ R2`.
//!
//! The first field is the operation, the second the destination, a
//! functional unit such as `F6`. Either of the others is a functional unit, a
//! register such as `R2`, or an integer, which may carry plus signs at its end
//! to mark it as an offset. Fields after the fourth are not read.

use std::rc::Rc;
use std::str::FromStr;
use vstd::prelude::*;
use vstd::string::StrSliceExecFns;

use crate::inst::{Instruction, Type};
use crate::units::fu::{FuId, FU_SIZE};
use crate::units::regs::RegId;
use crate::units::Unit;
use crate::value::{new, ValueInner};

verus! {

/// Why a line is not an instruction.
#[derive(Debug, Clone, Copy, PartialEq, Eq, Hash, Structural)]
pub enum ParseError {
    /// The line has fewer than four fields.
    MissingField,
    /// The first field names no operation.
    BadOpcode,
    /// The second field names no functional unit.
    BadUnit,
    /// The third or fourth field is neither a unit nor an integer.
    BadOperand,
}

/// Whether `c` is white space: one of the characters with the Unicode
/// property `White_Space`.
pub open spec fn is_space(c: char) -> bool {
    let n = c as u32;
    ||| 9 <= n <= 13
    ||| n == 0x20
    ||| n == 0x85
    ||| n == 0xA0
    ||| n == 0x1680
    ||| 0x2000 <= n <= 0x200A
    ||| n == 0x2028
    ||| n == 0x2029
    ||| n == 0x202F
    ||| n == 0x205F
    ||| n == 0x3000
}

/// Whether `c` is one of the digits `0` to `9`.
pub open spec fn is_digit(c: char) -> bool {
    48 <= c as u32 <= 57
}

/// The number that the digits `s` stand for, read in base ten.
pub open spec fn digits_value(s: Seq<char>) -> nat
    decreases s.len(),
{
    if s.len() == 0 {
        0
    } else {
        (digits_value(s.drop_last()) * 10 + (s.last() as u32 - 48)) as nat
    }
}

/// Whether `s` holds digits only, and at least one.
pub open spec fn is_number(s: Seq<char>) -> bool {
    s.len() > 0 && forall|i: int| 0 <= i < s.len() ==> is_digit(#[trigger] s[i])
}

/// The number of a unit, as written in `s`: digits, after a plus sign or
/// without one, that stand for a number below 256.
pub open spec fn spec_unit_number(s: Seq<char>) -> Option<u8> {
    let digits = if s.len() > 0 && s[0] == '+' {
        s.skip(1)
    } else {
        s
    };
    if is_number(digits) && digits_value(digits) <= u8::MAX {
        Some(digits_value(digits) as u8)
    } else {
        None
    }
}

/// The integer written in `s`: digits, after a plus or minus sign or without
/// one, that stand for a number from `i64::MIN` to `i64::MAX`.
pub open spec fn spec_integer(s: Seq<char>) -> Option<i64> {
    if s.len() > 0 && s[0] == '-' {
        if is_number(s.skip(1)) && digits_value(s.skip(1)) <= -i64::MIN {
            Some((-digits_value(s.skip(1))) as i64)
        } else {
            None
        }
    } else {
        let digits = if s.len() > 0 && s[0] == '+' {
            s.skip(1)
        } else {
            s
        };
        if is_number(digits) && digits_value(digits) <= i64::MAX {
            Some(digits_value(digits) as i64)
        } else {
            None
        }
    }
}

/// The operation that `s` names.
pub open spec fn spec_opcode(s: Seq<char>) -> Option<Type> {
    if s == seq!['A', 'D', 'D', 'D'] {
        Some(Type::ADDD)
    } else if s == seq!['S', 'U', 'B', 'D'] {
        Some(Type::SUBD)
    } else if s == seq!['M', 'U', 'L', 'T', 'D'] {
        Some(Type::MULTD)
    } else if s == seq!['D', 'I', 'V', 'D'] {
        Some(Type::DIVD)
    } else if s == seq!['L', 'D'] {
        Some(Type::LD)
    } else if s == seq!['S', 'D'] {
        Some(Type::SD)
    } else {
        None
    }
}

/// The unit that `s` names: a register, written as `R` and a number, or a
/// functional unit, written as `F` and an even number below twice the size
/// of the table.
pub open spec fn spec_unit(s: Seq<char>) -> Option<Unit> {
    if s.len() == 0 {
        None
    } else if s[0] == 'R' {
        match spec_unit_number(s.skip(1)) {
            Some(n) => Some(Unit::Regs(RegId(n))),
            None => None,
        }
    } else if s[0] == 'F' {
        match spec_unit_number(s.skip(1)) {
            Some(n) => if n % 2 == 0 && n < 2 * FU_SIZE {
                Some(Unit::Fu(FuId::spec_new(n)))
            } else {
                None
            },
            None => None,
        }
    } else {
        None
    }
}

/// The destination that `s` names: a functional unit.
pub open spec fn spec_destination(s: Seq<char>) -> Option<Unit> {
    match spec_unit(s) {
        Some(Unit::Fu(id)) => Some(Unit::Fu(id)),
        _ => None,
    }
}

/// The length of `s` without the plus signs at its end.
pub open spec fn spec_trimmed_len(s: Seq<char>) -> int
    decreases s.len(),
{
    if s.len() > 0 && s.last() == '+' {
        spec_trimmed_len(s.drop_last())
    } else {
        s.len() as int
    }
}

/// The operand that `s` stands for: the unit that it names, or else the
/// integer that it holds before the plus signs at its end.
pub open spec fn spec_operand(s: Seq<char>) -> Option<ValueInner> {
    match spec_unit(s) {
        Some(unit) => Some(ValueInner::Unit(unit)),
        None => match spec_integer(s.take(spec_trimmed_len(s))) {
            Some(n) => Some(ValueInner::Imm(n)),
            None => None,
        },
    }
}

/// The index of the first character of `s` at or after `from` that is not
/// white space; the length of `s` if there is none.
pub open spec fn spec_skip_spaces(s: Seq<char>, from: int) -> int
    decreases s.len() - from,
{
    if 0 <= from < s.len() && is_space(s[from]) {
        spec_skip_spaces(s, from + 1)
    } else {
        from
    }
}

/// The index of the first character of `s` at or after `from` that is white
/// space; the length of `s` if there is none.
pub open spec fn spec_skip_word(s: Seq<char>, from: int) -> int
    decreases s.len() - from,
{
    if 0 <= from < s.len() && !is_space(s[from]) {
        spec_skip_word(s, from + 1)
    } else {
        from
    }
}

/// Where the first field of `s` at or after `from` begins and ends, if there
/// is one.
pub open spec fn spec_field(s: Seq<char>, from: int) -> Option<(int, int)> {
    let begin = spec_skip_spaces(s, from);
    if begin < s.len() {
        Some((begin, spec_skip_word(s, begin)))
    } else {
        None
    }
}

/// The instruction that the line `s` stands for.
///
/// The line is refused for the first of these reasons that holds: it has
/// fewer than four fields; the first names no operation; the second names no
/// functional unit; the third, or else the fourth, is no operand.
pub open spec fn spec_instruction(s: Seq<char>) -> Result<Instruction, ParseError> {
    match spec_field(s, 0) {
        Some(f1) => match spec_field(s, f1.1) {
            Some(f2) => match spec_field(s, f2.1) {
                Some(f3) => match spec_field(s, f3.1) {
                    Some(f4) => match spec_opcode(s.subrange(f1.0, f1.1)) {
                        Some(op) => match spec_destination(s.subrange(f2.0, f2.1)) {
                            Some(dest) => match (
                                spec_operand(s.subrange(f3.0, f3.1)),
                                spec_operand(s.subrange(f4.0, f4.1)),
                            ) {
                                (Some(src1), Some(src2)) => Ok(
                                    Instruction {
                                        src1: Some(Rc::new(src1)),
                                        src2: Some(Rc::new(src2)),
                                        ..Instruction::spec_new(op, dest)
                                    },
                                ),
                                _ => Err(ParseError::BadOperand),
                            },
                            None => Err(ParseError::BadUnit),
                        },
                        None => Err(ParseError::BadOpcode),
                    },
                    None => Err(ParseError::MissingField),
                },
                None => Err(ParseError::MissingField),
            },
            None => Err(ParseError::MissingField),
        },
        None => Err(ParseError::MissingField),
    }
}

/// Whether `c` is white space.
pub fn space(c: char) -> (yes: bool)
    ensures
        yes == is_space(c),
{
    let n: u32 = c as u32;
    (9 <= n && n <= 13) || n == 0x20 || n == 0x85 || n == 0xA0 || n == 0x1680 || (0x2000 <= n && n
        <= 0x200A) || n == 0x2028 || n == 0x2029 || n == 0x202F || n == 0x205F || n == 0x3000
}

/// The value of a longer row of digits is no smaller.
proof fn lemma_digits_grow(s: Seq<char>, k: int)
    requires
        0 <= k <= s.len(),
        forall|i: int| 0 <= i < s.len() ==> is_digit(#[trigger] s[i]),
    ensures
        digits_value(s.take(k)) <= digits_value(s),
    decreases s.len() - k,
{
    if k < s.len() {
        lemma_digits_grow(s, k + 1);
        assert(s.take(k + 1).drop_last() =~= s.take(k));
    } else {
        assert(s.take(k) =~= s);
    }
}

/// Reads the digits of `text` from `from` to `to` as a number that is at
/// most `limit`. Returns nothing if there is no digit, if another character
/// stands among them, or if the number is above the limit.
fn digits(text: &Vec<char>, from: usize, to: usize, limit: u64) -> (value: Option<u64>)
    requires
        from <= to <= text@.len(),
    ensures
        value is Some <==> is_number(text@.subrange(from as int, to as int)) && digits_value(
            text@.subrange(from as int, to as int),
        ) <= limit,
        value matches Some(v) ==> v == digits_value(text@.subrange(from as int, to as int)),
{
    let ghost all = text@.subrange(from as int, to as int);
    if from == to {
        return None;
    }
    let mut acc: u64 = 0;
    let mut i: usize = from;
    while i < to
        invariant
            from <= i <= to <= text@.len(),
            all == text@.subrange(from as int, to as int),
            acc == digits_value(all.take(i - from)),
            acc <= limit,
            forall|j: int| 0 <= j < i - from ==> is_digit(#[trigger] all[j]),
        decreases to - i,
    {
        let c: u32 = text[i] as u32;
        if c < 48 || c > 57 {
            assert(!is_digit(all[i - from]));
            return None;
        }
        assert(all.take(i - from + 1).drop_last() =~= all.take(i - from));
        let next: u128 = acc as u128 * 10 + (c - 48) as u128;
        if next > limit as u128 {
            proof {
                if is_number(all) {
                    lemma_digits_grow(all, i - from + 1);
                }
            }
            return None;
        }
        acc = next as u64;
        i = i + 1;
    }
    assert(all.take(to - from) =~= all);
    Some(acc)
}

/// Reads the number of a unit from `text`, from `from` to `to`.
fn unit_number(text: &Vec<char>, from: usize, to: usize) -> (number: Option<u8>)
    requires
        from <= to <= text@.len(),
    ensures
        number == spec_unit_number(text@.subrange(from as int, to as int)),
{
    let ghost s = text@.subrange(from as int, to as int);
    let start: usize = if from < to && text[from] == '+' {
        from + 1
    } else {
        from
    };
    assert(text@.subrange(start as int, to as int) =~= if s.len() > 0 && s[0] == '+' {
        s.skip(1)
    } else {
        s
    });
    match digits(text, start, to, 255) {
        Some(v) => Some(v as u8),
        None => None,
    }
}

/// Reads an integer from `text`, from `from` to `to`.
fn integer(text: &Vec<char>, from: usize, to: usize) -> (number: Option<i64>)
    requires
        from <= to <= text@.len(),
    ensures
        number == spec_integer(text@.subrange(from as int, to as int)),
{
    let ghost s = text@.subrange(from as int, to as int);
    if from < to && text[from] == '-' {
        assert(text@.subrange(from + 1, to as int) =~= s.skip(1));
        match digits(text, from + 1, to, 0x8000_0000_0000_0000) {
            Some(v) => if v == 0x8000_0000_0000_0000 {
                Some(i64::MIN)
            } else {
                Some(-(v as i64))
            },
            None => None,
        }
    } else {
        let start: usize = if from < to && text[from] == '+' {
            from + 1
        } else {
            from
        };
        assert(text@.subrange(start as int, to as int) =~= if s.len() > 0 && s[0] == '+' {
            s.skip(1)
        } else {
            s
        });
        match digits(text, start, to, 0x7fff_ffff_ffff_ffff) {
            Some(v) => Some(v as i64),
            None => None,
        }
    }
}

/// Whether the field of `text` from `from` to `to` is the word `word`.
fn is_word(text: &Vec<char>, from: usize, to: usize, word: &str) -> (same: bool)
    requires
        from <= to <= text@.len(),
    ensures
        same == (text@.subrange(from as int, to as int) == word@),
{
    let ghost s = text@.subrange(from as int, to as int);
    let n: usize = word.unicode_len();
    if to - from != n {
        return false;
    }
    let mut i: usize = 0;
    while i < n
        invariant
            i <= n,
            n == word@.len(),
            to - from == n,
            from <= to <= text@.len(),
            s == text@.subrange(from as int, to as int),
            forall|j: int| 0 <= j < i ==> s[j] == word@[j],
        decreases n - i,
    {
        if text[from + i] != word.get_char(i) {
            assert(s[i as int] != word@[i as int]);
            return false;
        }
        i = i + 1;
    }
    assert(s =~= word@);
    true
}

/// Reads the operation that the field of `text` from `from` to `to` names.
fn opcode(text: &Vec<char>, from: usize, to: usize) -> (op: Option<Type>)
    requires
        from <= to <= text@.len(),
    ensures
        op == spec_opcode(text@.subrange(from as int, to as int)),
{
    proof {
        reveal_strlit("ADDD");
        reveal_strlit("SUBD");
        reveal_strlit("MULTD");
        reveal_strlit("DIVD");
        reveal_strlit("LD");
        reveal_strlit("SD");
        assert("ADDD"@ =~= seq!['A', 'D', 'D', 'D']);
        assert("SUBD"@ =~= seq!['S', 'U', 'B', 'D']);
        assert("MULTD"@ =~= seq!['M', 'U', 'L', 'T', 'D']);
        assert("DIVD"@ =~= seq!['D', 'I', 'V', 'D']);
        assert("LD"@ =~= seq!['L', 'D']);
        assert("SD"@ =~= seq!['S', 'D']);
    }
    if is_word(text, from, to, "ADDD") {
        Some(Type::ADDD)
    } else if is_word(text, from, to, "SUBD") {
        Some(Type::SUBD)
    } else if is_word(text, from, to, "MULTD") {
        Some(Type::MULTD)
    } else if is_word(text, from, to, "DIVD") {
        Some(Type::DIVD)
    } else if is_word(text, from, to, "LD") {
        Some(Type::LD)
    } else if is_word(text, from, to, "SD") {
        Some(Type::SD)
    } else {
        None
    }
}

/// Reads the unit that the field of `text` from `from` to `to` names.
fn unit(text: &Vec<char>, from: usize, to: usize) -> (unit: Option<Unit>)
    requires
        from <= to <= text@.len(),
    ensures
        unit == spec_unit(text@.subrange(from as int, to as int)),
{
    let ghost s = text@.subrange(from as int, to as int);
    if from == to {
        return None;
    }
    assert(text@.subrange(from + 1, to as int) =~= s.skip(1));
    if text[from] == 'R' {
        match unit_number(text, from + 1, to) {
            Some(n) => Some(Unit::Regs(RegId::new(n))),
            None => None,
        }
    } else if text[from] == 'F' {
        match unit_number(text, from + 1, to) {
            Some(n) => match FuId::try_new(n) {
                Some(id) => Some(Unit::Fu(id)),
                None => None,
            },
            None => None,
        }
    } else {
        None
    }
}

/// Reads the operand that the field of `text` from `from` to `to` stands
/// for.
fn operand(text: &Vec<char>, from: usize, to: usize) -> (value: Option<ValueInner>)
    requires
        from <= to <= text@.len(),
    ensures
        value == spec_operand(text@.subrange(from as int, to as int)),
{
    let ghost s = text@.subrange(from as int, to as int);
    match unit(text, from, to) {
        Some(unit) => Some(ValueInner::Unit(unit)),
        None => {
            let mut end: usize = to;
            assert(s.take(to - from) =~= s);
            while end > from && text[end - 1] == '+'
                invariant
                    from <= end <= to <= text@.len(),
                    s == text@.subrange(from as int, to as int),
                    spec_trimmed_len(s) == spec_trimmed_len(s.take(end - from)),
                decreases end,
            {
                assert(s.take(end - from).drop_last() =~= s.take(end - from - 1));
                end = end - 1;
            }
            assert(text@.subrange(from as int, end as int) =~= s.take(spec_trimmed_len(s)));
            match integer(text, from, end) {
                Some(n) => Some(ValueInner::Imm(n)),
                None => None,
            }
        },
    }
}

/// Finds the first field of `text` at or after `from`.
fn field(text: &Vec<char>, from: usize) -> (found: Option<(usize, usize)>)
    requires
        from <= text@.len(),
    ensures
        found is Some <==> spec_field(text@, from as int) is Some,
        found matches Some(f) ==> spec_field(text@, from as int) == Some((f.0 as int, f.1 as int))
            && from <= f.0 < f.1 <= text@.len(),
{
    let n: usize = text.len();
    let mut begin: usize = from;
    while begin < n && space(text[begin])
        invariant
            from <= begin <= n,
            n == text@.len(),
            spec_skip_spaces(text@, from as int) == spec_skip_spaces(text@, begin as int),
        decreases n - begin,
    {
        begin = begin + 1;
    }
    if begin == n {
        return None;
    }
    let mut end: usize = begin + 1;
    while end < n && !space(text[end])
        invariant
            begin < end <= n,
            n == text@.len(),
            !is_space(text@[begin as int]),
            spec_skip_word(text@, begin as int) == spec_skip_word(text@, end as int),
        decreases n - end,
    {
        end = end + 1;
    }
    Some((begin, end))
}

/// The characters of `text`, one by one.
pub fn characters(text: &str) -> (chars: Vec<char>)
    ensures
        chars@ == text@,
{
    let n: usize = text.unicode_len();
    let mut chars: Vec<char> = Vec::new();
    let mut i: usize = 0;
    while i < n
        invariant
            i <= n,
            n == text@.len(),
            chars@ == text@.take(i as int),
        decreases n - i,
    {
        chars.push(text.get_char(i));
        assert(text@.take(i + 1) =~= text@.take(i as int).push(text@[i as int]));
        i = i + 1;
    }
    assert(text@.take(n as int) =~= text@);
    chars
}

/// Reads the instruction that the characters `text` stand for.
pub fn parse_chars(text: &Vec<char>) -> (parsed: Result<Instruction, ParseError>)
    ensures
        parsed == spec_instruction(text@),
{
    let f1 = match field(text, 0) {
        Some(f) => f,
        None => {
            return Err(ParseError::MissingField);
        },
    };
    let f2 = match field(text, f1.1) {
        Some(f) => f,
        None => {
            return Err(ParseError::MissingField);
        },
    };
    let f3 = match field(text, f2.1) {
        Some(f) => f,
        None => {
            return Err(ParseError::MissingField);
        },
    };
    let f4 = match field(text, f3.1) {
        Some(f) => f,
        None => {
            return Err(ParseError::MissingField);
        },
    };
    let op = match opcode(text, f1.0, f1.1) {
        Some(op) => op,
        None => {
            return Err(ParseError::BadOpcode);
        },
    };
    let dest = match unit(text, f2.0, f2.1) {
        Some(Unit::Fu(id)) => Unit::Fu(id),
        _ => {
            return Err(ParseError::BadUnit);
        },
    };
    let src1 = match operand(text, f3.0, f3.1) {
        Some(value) => value,
        None => {
            return Err(ParseError::BadOperand);
        },
    };
    let src2 = match operand(text, f4.0, f4.1) {
        Some(value) => value,
        None => {
            return Err(ParseError::BadOperand);
        },
    };
    let mut inst = Instruction::new(op, dest);
    inst.src1 = Some(new(src1));
    inst.src2 = Some(new(src2));
    Ok(inst)
}

/// Reads the instruction that the line `line` stands for.
pub fn parse_instruction(line: &str) -> (parsed: Result<Instruction, ParseError>)
    ensures
        parsed == spec_instruction(line@),
{
    let chars = characters(line);
    parse_chars(&chars)
}

/// The index of the first line feed of `s` at or after `from`; the length of
/// `s` if there is none.
pub open spec fn spec_line_end(s: Seq<char>, from: int) -> int
    decreases s.len() - from,
{
    if 0 <= from < s.len() && s[from] != '\n' {
        spec_line_end(s, from + 1)
    } else {
        from
    }
}

/// The program that the lines of `s` from the index `from` on stand for,
/// after the instructions `done`.
pub open spec fn spec_program_from(s: Seq<char>, from: int, done: Seq<Instruction>) -> Result<
    Seq<Instruction>,
    ParseError,
>
    decreases s.len() + 1 - from,
    via lemma_program_from_ends
{
    if from < 0 || from >= s.len() {
        Ok(done)
    } else {
        let end = spec_line_end(s, from);
        let line = s.subrange(from, end);
        if spec_field(line, 0) is None {
            spec_program_from(s, end + 1, done)
        } else {
            match spec_instruction(line) {
                Ok(inst) => spec_program_from(s, end + 1, done.push(inst)),
                Err(e) => Err(e),
            }
        }
    }
}

#[via_fn]
proof fn lemma_program_from_ends(s: Seq<char>, from: int, done: Seq<Instruction>) {
    if 0 <= from < s.len() {
        lemma_line_end(s, from);
    }
}

/// The program that the text `s` stands for: the instructions of its lines,
/// in their order. A line without a field is passed over. The first line
/// that is not an instruction has the whole text refused.
pub open spec fn spec_program(s: Seq<char>) -> Result<Seq<Instruction>, ParseError> {
    spec_program_from(s, 0, Seq::empty())
}

/// Where a line feed is found there is a line feed or the end.
pub proof fn lemma_line_end(s: Seq<char>, from: int)
    requires
        0 <= from <= s.len(),
    ensures
        from <= spec_line_end(s, from) <= s.len(),
    decreases s.len() - from,
{
    if from < s.len() && s[from] != '\n' {
        lemma_line_end(s, from + 1);
    }
}

/// Reads the program that `text` stands for: one instruction per line.
/// Lines without a field are passed over. Nothing is returned of a text
/// with a line that is not an instruction but the reason for which the first
/// such line is refused.
pub fn parse_program(text: &str) -> (parsed: Result<Vec<Instruction>, ParseError>)
    ensures
        match parsed {
            Ok(program) => spec_program(text@) == Ok::<Seq<Instruction>, ParseError>(program@),
            Err(e) => spec_program(text@) == Err::<Seq<Instruction>, ParseError>(e),
        },
{
    let chars = characters(text);
    let n: usize = chars.len();
    let mut program: Vec<Instruction> = Vec::new();
    let mut from: usize = 0;
    while from < n
        invariant
            from <= n,
            n == chars@.len(),
            chars@ == text@,
            spec_program(text@) == spec_program_from(chars@, from as int, program@),
        decreases n - from,
    {
        let mut line: Vec<char> = Vec::new();
        let mut end: usize = from;
        while end < n && chars[end] != '\n'
            invariant
                from <= end <= n,
                n == chars@.len(),
                line@ == chars@.subrange(from as int, end as int),
                spec_line_end(chars@, from as int) == spec_line_end(chars@, end as int),
            decreases n - end,
        {
            line.push(chars[end]);
            assert(chars@.subrange(from as int, end + 1) =~= chars@.subrange(from as int, end as int).push(
                chars@[end as int],
            ));
            end = end + 1;
        }
        assert(spec_line_end(chars@, from as int) == end);
        let ghost before = program@;
        assert(spec_program(text@) == spec_program_from(chars@, from as int, before));
        if field(&line, 0).is_some() {
            match parse_chars(&line) {
                Ok(inst) => {
                    program.push(inst);
                },
                Err(e) => {
                    return Err(e);
                },
            }
        }
        assert(spec_program_from(chars@, from as int, before) == spec_program_from(
            chars@,
            end + 1,
            program@,
        ));
        assert(end == n ==> spec_program_from(chars@, end + 1, program@) == spec_program_from(
            chars@,
            n as int,
            program@,
        ));
        from = if end < n {
            end + 1
        } else {
            n
        };
    }
    Ok(program)
}

impl FromStr for Instruction {
    type Err = ParseError;

    /// Reads the instruction that the line `s` stands for.
    fn from_str(s: &str) -> (parsed: Result<Self, Self::Err>)
        ensures
            parsed == spec_instruction(s@),
    {
        parse_instruction(s)
    }
}

impl FromStr for Type {
    type Err = ParseError;

    /// Reads the operation that `s` names.
    fn from_str(s: &str) -> (parsed: Result<Self, Self::Err>)
        ensures
            parsed == (match spec_opcode(s@) {
                Some(op) => Ok::<Type, ParseError>(op),
                None => Err::<Type, ParseError>(ParseError::BadOpcode),
            }),
    {
        let chars = characters(s);
        assert(chars@.subrange(0, chars@.len() as int) =~= s@);
        match opcode(&chars, 0, chars.len()) {
            Some(op) => Ok(op),
            None => Err(ParseError::BadOpcode),
        }
    }
}

impl FromStr for Unit {
    type Err = ParseError;

    /// Reads the unit that `s` names.
    fn from_str(s: &str) -> (parsed: Result<Self, Self::Err>)
        ensures
            parsed == (match spec_unit(s@) {
                Some(unit) => Ok::<Unit, ParseError>(unit),
                None => Err::<Unit, ParseError>(ParseError::BadUnit),
            }),
    {
        let chars = characters(s);
        assert(chars@.subrange(0, chars@.len() as int) =~= s@);
        match unit(&chars, 0, chars.len()) {
            Some(unit) => Ok(unit),
            None => Err(ParseError::BadUnit),
        }
    }
}

/// What is read from a line can be handed to the engine as far as the text
/// decides it: an instruction that a line stands for has both operands and
/// names a functional unit of the table as its destination, and so does
/// every functional unit that it names as an operand. A load or a store that
/// a line stands for can be issued.
pub proof fn law_parsed_instruction(s: Seq<char>)
    ensures
        spec_instruction(s) matches Ok(inst) ==> {
            &&& inst.src1 is Some
            &&& inst.src2 is Some
            &&& inst.spec_dest_fu() matches Some(id) && id.wf()
            &&& crate::value::spec_fu_ref(inst.src1) matches Some(id) ==> id.wf()
            &&& crate::value::spec_fu_ref(inst.src2) matches Some(id) ==> id.wf()
            &&& inst.op.spec_is_memory() ==> inst.spec_issuable()
        },
{
    if let Ok(inst) = spec_instruction(s) {
        let f1 = spec_field(s, 0)->0;
        let f2 = spec_field(s, f1.1)->0;
        let f3 = spec_field(s, f2.1)->0;
        let f4 = spec_field(s, f3.1)->0;
        lemma_unit_wf(s.subrange(f2.0, f2.1));
        lemma_unit_wf(s.subrange(f3.0, f3.1));
        lemma_unit_wf(s.subrange(f4.0, f4.1));
    }
}

/// A functional unit that a field names is one of the table's.
proof fn lemma_unit_wf(s: Seq<char>)
    ensures
        spec_unit(s) matches Some(Unit::Fu(id)) ==> id.wf(),
{
    if s.len() > 0 && s[0] == 'F' {
        if let Some(n) = spec_unit_number(s.skip(1)) {
            FuId::lemma_number_of_new(n);
        }
    }
}

} // verus!
