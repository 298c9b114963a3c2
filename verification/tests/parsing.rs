use std::rc::Rc;

use tomasulo_sim::parse::{characters, parse_chars, parse_instruction, parse_program, space, ParseError};
use tomasulo_sim::{FuId, Instruction, RegId, Type, Unit, ValueInner};

#[test]
fn test_parse() {
    let insts = [
        r"
        LD F2 0 R2
        LD F4 0 R3
        DIVD F0 F4 F2
        MULTD F6 F0 F2
        ADDD F0 F4 F2
        SD F6 0 R3
        MULTD F6 F0 F2
        SD F6 0 R1",
        r"
        LD F6 34+ R2
        LD F2 45+ R3
        MULTD F0 F2 F4
        SUBD F8 F6 F2
        DIVD F10 F0 F6
        ADDD F6 F8 F2",
    ];

    for inst in insts.iter() {
        for line in inst.lines() {
            if line.is_empty() {
                continue;
            }
            if let Ok(inst) = line.trim().parse::<Instruction>() {
                println!("{}, {inst:?}", inst.row());
            }
        }
        println!();
    }
}

#[test]
fn every_line_of_the_two_programs_is_an_instruction() {
    let lines = [
        "LD F2 0 R2",
        "LD F4 0 R3",
        "DIVD F0 F4 F2",
        "MULTD F6 F0 F2",
        "ADDD F0 F4 F2",
        "SD F6 0 R3",
        "MULTD F6 F0 F2",
        "SD F6 0 R1",
        "LD F6 34+ R2",
        "LD F2 45+ R3",
        "MULTD F0 F2 F4",
        "SUBD F8 F6 F2",
        "DIVD F10 F0 F6",
        "ADDD F6 F8 F2",
    ];
    for line in lines {
        assert!(line.parse::<Instruction>().is_ok(), "{line}");
    }
}

fn expect(op: Type, dest: u8, src1: ValueInner, src2: ValueInner) -> Instruction {
    let mut inst = Instruction::new(op, Unit::Fu(FuId::new(dest)));
    inst.src1 = Some(Rc::new(src1));
    inst.src2 = Some(Rc::new(src2));
    inst
}

fn fu(n: u8) -> ValueInner {
    ValueInner::Unit(Unit::Fu(FuId::new(n)))
}

fn reg(n: u8) -> ValueInner {
    ValueInner::Unit(Unit::Regs(RegId::new(n)))
}

#[test]
fn load_with_offset() {
    assert_eq!(
        parse_instruction("LD F6 34+ R2"),
        Ok(expect(Type::LD, 6, ValueInner::Imm(34), reg(2)))
    );
}

#[test]
fn arithmetic_on_functional_units() {
    assert_eq!(parse_instruction("ADDD F6 F8 F2"), Ok(expect(Type::ADDD, 6, fu(8), fu(2))));
    assert_eq!(parse_instruction("SUBD F8 F6 F2"), Ok(expect(Type::SUBD, 8, fu(6), fu(2))));
    assert_eq!(parse_instruction("MULTD F0 F2 F4"), Ok(expect(Type::MULTD, 0, fu(2), fu(4))));
    assert_eq!(parse_instruction("DIVD F10 F0 F30"), Ok(expect(Type::DIVD, 10, fu(0), fu(30))));
    assert_eq!(
        parse_instruction("SD F6 0 R1"),
        Ok(expect(Type::SD, 6, ValueInner::Imm(0), reg(1)))
    );
}

#[test]
fn white_space_of_any_kind_separates_the_fields() {
    let want = Ok(expect(Type::LD, 6, ValueInner::Imm(34), reg(2)));
    assert_eq!(parse_instruction("   LD F6 34+ R2"), want);
    assert_eq!(parse_instruction("LD\tF6\t34+\tR2\r"), want);
    assert_eq!(parse_instruction("LD  F6   34+ \u{a0} R2 \u{3000}"), want);
    assert_eq!(parse_instruction("\u{2003}LD\u{2028}F6\u{85}34+\u{1680}R2"), want);
}

#[test]
fn fields_after_the_fourth_are_not_read() {
    assert_eq!(
        parse_instruction("LD F6 34+ R2 and so on"),
        Ok(expect(Type::LD, 6, ValueInner::Imm(34), reg(2)))
    );
}

#[test]
fn integers() {
    let with = |text: &str| parse_instruction(&format!("LD F0 {text} R1")).map(|i| i.src1.unwrap());
    assert_eq!(with("0"), Ok(Rc::new(ValueInner::Imm(0))));
    assert_eq!(with("-7"), Ok(Rc::new(ValueInner::Imm(-7))));
    assert_eq!(with("+7"), Ok(Rc::new(ValueInner::Imm(7))));
    assert_eq!(with("007"), Ok(Rc::new(ValueInner::Imm(7))));
    assert_eq!(with("12+++"), Ok(Rc::new(ValueInner::Imm(12))));
    assert_eq!(with("-12+"), Ok(Rc::new(ValueInner::Imm(-12))));
    assert_eq!(with("9223372036854775807"), Ok(Rc::new(ValueInner::Imm(i64::MAX))));
    assert_eq!(with("-9223372036854775808"), Ok(Rc::new(ValueInner::Imm(i64::MIN))));
    assert_eq!(with("9223372036854775808"), Err(ParseError::BadOperand));
    assert_eq!(with("-9223372036854775809"), Err(ParseError::BadOperand));
    assert_eq!(with("99999999999999999999999999"), Err(ParseError::BadOperand));
    assert_eq!(with("+"), Err(ParseError::BadOperand));
    assert_eq!(with("-"), Err(ParseError::BadOperand));
    assert_eq!(with("++"), Err(ParseError::BadOperand));
    assert_eq!(with("1+2"), Err(ParseError::BadOperand));
    assert_eq!(with("--1"), Err(ParseError::BadOperand));
    assert_eq!(with("+-1"), Err(ParseError::BadOperand));
    assert_eq!(with("12a"), Err(ParseError::BadOperand));
    assert_eq!(with("1.5"), Err(ParseError::BadOperand));
    assert_eq!(with("\u{663}"), Err(ParseError::BadOperand));
}

#[test]
fn units() {
    assert_eq!("R0".parse::<Unit>(), Ok(Unit::Regs(RegId::new(0))));
    assert_eq!("R255".parse::<Unit>(), Ok(Unit::Regs(RegId::new(255))));
    assert_eq!("R+5".parse::<Unit>(), Ok(Unit::Regs(RegId::new(5))));
    assert_eq!("R007".parse::<Unit>(), Ok(Unit::Regs(RegId::new(7))));
    assert_eq!("F0".parse::<Unit>(), Ok(Unit::Fu(FuId::new(0))));
    assert_eq!("F30".parse::<Unit>(), Ok(Unit::Fu(FuId::new(30))));
    assert_eq!("F06".parse::<Unit>(), Ok(Unit::Fu(FuId::new(6))));
    for bad in ["", "R", "F", "R256", "R-1", "F32", "F7", "F-2", "f2", "r2", "X2", "F2 ", " F2", "F2+", "R1.0"] {
        assert_eq!(bad.parse::<Unit>(), Err(ParseError::BadUnit), "{bad:?}");
    }
}

#[test]
fn opcodes() {
    assert_eq!("ADDD".parse::<Type>(), Ok(Type::ADDD));
    assert_eq!("SUBD".parse::<Type>(), Ok(Type::SUBD));
    assert_eq!("MULTD".parse::<Type>(), Ok(Type::MULTD));
    assert_eq!("DIVD".parse::<Type>(), Ok(Type::DIVD));
    assert_eq!("LD".parse::<Type>(), Ok(Type::LD));
    assert_eq!("SD".parse::<Type>(), Ok(Type::SD));
    for bad in ["", "ADD", "ADDDD", "addd", "LD ", " LD", "MULT", "DIV", "ST"] {
        assert_eq!(bad.parse::<Type>(), Err(ParseError::BadOpcode), "{bad:?}");
    }
}

#[test]
fn each_reason_for_a_refusal() {
    assert_eq!(parse_instruction(""), Err(ParseError::MissingField));
    assert_eq!(parse_instruction("   \t "), Err(ParseError::MissingField));
    assert_eq!(parse_instruction("LD"), Err(ParseError::MissingField));
    assert_eq!(parse_instruction("LD F6 34+"), Err(ParseError::MissingField));
    // Too few fields count before a bad field does.
    assert_eq!(parse_instruction("XX F6 34+"), Err(ParseError::MissingField));
    assert_eq!(parse_instruction("MOV F6 34+ R2"), Err(ParseError::BadOpcode));
    assert_eq!(parse_instruction("ld F6 34+ R2"), Err(ParseError::BadOpcode));
    // The operation counts before the destination, and that before the operands.
    assert_eq!(parse_instruction("MOV X6 zz R2"), Err(ParseError::BadOpcode));
    assert_eq!(parse_instruction("LD X6 zz R2"), Err(ParseError::BadUnit));
    assert_eq!(parse_instruction("LD F7 34+ R2"), Err(ParseError::BadUnit));
    assert_eq!(parse_instruction("LD F32 34+ R2"), Err(ParseError::BadUnit));
    assert_eq!(parse_instruction("LD R6 34+ R2"), Err(ParseError::BadUnit));
    assert_eq!(parse_instruction("LD 6 34+ R2"), Err(ParseError::BadUnit));
    assert_eq!(parse_instruction("LD F6 zz R2"), Err(ParseError::BadOperand));
    assert_eq!(parse_instruction("LD F6 34+ R256"), Err(ParseError::BadOperand));
    assert_eq!(parse_instruction("ADDD F6 F8 F3"), Err(ParseError::BadOperand));
}

#[test]
fn operand_that_looks_like_a_unit_but_is_none_is_refused() {
    assert_eq!(parse_instruction("ADDD F6 F33 F2"), Err(ParseError::BadOperand));
    assert_eq!(parse_instruction("ADDD F6 R300 F2"), Err(ParseError::BadOperand));
}

#[test]
fn program_of_several_lines() {
    let program = parse_program("\n  LD F6 34+ R2\n\n   \nADDD F0 F6 F2\n").unwrap();
    assert_eq!(
        program,
        vec![
            expect(Type::LD, 6, ValueInner::Imm(34), reg(2)),
            expect(Type::ADDD, 0, fu(6), fu(2)),
        ]
    );
    assert_eq!(parse_program(""), Ok(vec![]));
    assert_eq!(parse_program("\n\n \n"), Ok(vec![]));
    assert_eq!(
        parse_program("LD F6 34+ R2"),
        Ok(vec![expect(Type::LD, 6, ValueInner::Imm(34), reg(2))])
    );
    assert_eq!(
        parse_program("LD F6 34+ R2\r\nSD F6 0 R1\r\n").map(|p| p.len()),
        Ok(2)
    );
}

#[test]
fn program_with_a_bad_line_is_refused_as_a_whole() {
    assert_eq!(
        parse_program("LD F6 34+ R2\nADDD F0 F6\nSD F6 0 R1"),
        Err(ParseError::MissingField)
    );
    assert_eq!(
        parse_program("LD F6 34+ R2\nNOP F0 F6 F2\nLD F6 zz R2"),
        Err(ParseError::BadOpcode)
    );
    assert_eq!(parse_program("LD F6 34+ R2\nLD F5 0 R1"), Err(ParseError::BadUnit));
}

#[test]
fn characters_and_spaces() {
    assert_eq!(characters("a\u{e9}\u{4e2d} b"), vec!['a', '\u{e9}', '\u{4e2d}', ' ', 'b']);
    assert_eq!(characters(""), Vec::<char>::new());
    assert_eq!(
        parse_chars(&"LD F6 34+ R2".chars().collect()),
        Ok(expect(Type::LD, 6, ValueInner::Imm(34), reg(2)))
    );
    for c in ['\u{0}', '\u{8}', '\u{e}', '\u{1f}', '!', '0', 'a', '\u{84}', '\u{86}', '\u{9f}', '\u{a1}',
        '\u{167f}', '\u{1681}', '\u{1fff}', '\u{200b}', '\u{2027}', '\u{202a}', '\u{202e}', '\u{2030}',
        '\u{205e}', '\u{2060}', '\u{2fff}', '\u{3001}', '\u{feff}'] {
        assert!(!space(c), "{c:?}");
    }
    for n in 0..=0x3100u32 {
        if let Some(c) = char::from_u32(n) {
            assert_eq!(space(c), c.is_whitespace(), "{n:x}");
        }
    }
}

#[test]
fn numbers_are_read_as_the_standard_library_reads_them() {
    for text in ["0", "7", "+7", "-7", "00", "-0", "+0", "255", "256", "+", "-", "1_000", "0x10", "1e3",
        "9223372036854775807", "-9223372036854775808", "9223372036854775808", "18446744073709551616"] {
        let ours = parse_instruction(&format!("LD F0 {text} R1"));
        match text.parse::<i64>() {
            Ok(n) => assert_eq!(ours.unwrap().src1, Some(Rc::new(ValueInner::Imm(n))), "{text:?}"),
            Err(_) => assert_eq!(ours, Err(ParseError::BadOperand), "{text:?}"),
        }
        let ours = format!("R{text}").parse::<Unit>();
        match text.parse::<u8>() {
            Ok(n) => assert_eq!(ours, Ok(Unit::Regs(RegId::new(n))), "{text:?}"),
            Err(_) => assert_eq!(ours, Err(ParseError::BadUnit), "{text:?}"),
        }
    }
}
