use std::rc::Rc;

use tomasulo_sim::parse::parse_instruction;
use tomasulo_sim::text::{brief_column, cycle_text, decimal, decimal_u64, hundredths, pad_left, pad_right, tag_column};
use tomasulo_sim::{
    FloatingUnit, FloatingUnitInner, FuId, RegId, RsId, RsInner, RsState, RsType, Type, Unit, Value,
    ValueInner,
};

fn imm(n: i64) -> Value {
    Rc::new(ValueInner::Imm(n))
}

#[test]
fn decimals() {
    assert_eq!(decimal_u64(0), "0");
    assert_eq!(decimal_u64(7), "7");
    assert_eq!(decimal_u64(10), "10");
    assert_eq!(decimal_u64(1203), "1203");
    assert_eq!(decimal_u64(u64::MAX), "18446744073709551615");
    assert_eq!(decimal(0), "0");
    assert_eq!(decimal(34), "34");
    assert_eq!(decimal(-34), "-34");
    assert_eq!(decimal(i64::MAX), "9223372036854775807");
    assert_eq!(decimal(i64::MIN), "-9223372036854775808");
    for n in [0i64, 1, -1, 9, 10, 99, 100, 101, -1000, 123456789, i64::MAX, i64::MIN] {
        assert_eq!(decimal(n), n.to_string());
    }
}

#[test]
fn constants_have_two_decimal_places() {
    assert_eq!(hundredths(0), "0.00");
    assert_eq!(hundredths(200), "2.00");
    assert_eq!(hundredths(3000), "30.00");
    assert_eq!(hundredths(5), "0.05");
    assert_eq!(hundredths(50), "0.50");
    assert_eq!(hundredths(-5), "-0.05");
    assert_eq!(hundredths(-50), "-0.50");
    assert_eq!(hundredths(-12345), "-123.45");
    assert_eq!(hundredths(i64::MAX), "92233720368547758.07");
    assert_eq!(hundredths(i64::MIN), "-92233720368547758.08");
    for i in 0..16 {
        assert_eq!(hundredths(200 * i), format!("{:2.2}", 2f64 * i as f64));
    }
}

#[test]
fn padding() {
    assert_eq!(pad_right("ab".to_string(), 5), "ab   ");
    assert_eq!(pad_right("abcde".to_string(), 5), "abcde");
    assert_eq!(pad_right("abcdef".to_string(), 5), "abcdef");
    assert_eq!(pad_right(String::new(), 0), "");
    assert_eq!(pad_right(String::new(), 2), "  ");
    assert_eq!(pad_left("7".to_string(), 3), "  7");
    assert_eq!(pad_left("123".to_string(), 3), "123");
    assert_eq!(pad_left("1234".to_string(), 3), "1234");
    assert_eq!(pad_left(String::new(), 1), " ");
    // The width counts characters, not bytes.
    assert_eq!(pad_right("\u{e9}".to_string(), 3), "\u{e9}  ");
    assert_eq!(pad_left("\u{e9}".to_string(), 3), "  \u{e9}");
}

#[test]
fn names() {
    assert_eq!(Type::ADDD.name(), "ADDD");
    assert_eq!(Type::SUBD.name(), "SUBD");
    assert_eq!(Type::MULTD.name(), "MULTD");
    assert_eq!(Type::DIVD.name(), "DIVD");
    assert_eq!(Type::LD.name(), "LD");
    assert_eq!(Type::SD.name(), "SD");
    for t in [Type::ADDD, Type::SUBD, Type::MULTD, Type::DIVD, Type::LD, Type::SD] {
        assert_eq!(t.name(), format!("{t:?}"));
    }
    for k in [RsType::ADD, RsType::MULT, RsType::LOAD, RsType::STORE] {
        assert_eq!(k.name(), format!("{k:?}"));
    }
    assert_eq!(RsState::Free.name(), "Free");
    assert_eq!(RsState::Busy.name(), "Busy");
    assert_eq!(RsState::Calculating.name(), "Calc");
    assert_eq!(RsState::Ready.name(), "Ready");
}

#[test]
fn labels() {
    assert_eq!(RsId(RsType::ADD, 0).label(), "ADD0");
    assert_eq!(RsId(RsType::MULT, 1).label(), "MULT1");
    assert_eq!(RsId(RsType::LOAD, 2).label(), "LOAD2");
    assert_eq!(RsId(RsType::STORE, 12).label(), "STORE12");
    assert_eq!(FuId::new(0).label(), "F00");
    assert_eq!(FuId::new(6).label(), "F06");
    assert_eq!(FuId::new(10).label(), "F10");
    assert_eq!(FuId::new(30).label(), "F30");
    assert_eq!(RegId::new(2).label(), "R2");
    assert_eq!(RegId::new(255).label(), "R255");
    assert_eq!(Unit::Rs(RsId(RsType::ADD, 1)).label(), "ADD1");
    assert_eq!(Unit::Fu(FuId::new(8)).label(), "F08");
    assert_eq!(Unit::Regs(RegId::new(3)).label(), "R3");
}

fn sample() -> ValueInner {
    // M[(34+R2)] * 4.00
    let sum = Rc::new(ValueInner::Op(
        Type::ADDD,
        imm(34),
        Rc::new(ValueInner::Unit(Unit::Regs(RegId::new(2)))),
    ));
    ValueInner::Op(
        Type::MULTD,
        Rc::new(ValueInner::MemAddr(sum)),
        Rc::new(ValueInner::Float(400)),
    )
}

#[test]
fn values_in_full() {
    assert_eq!(ValueInner::Imm(-3).text(), "-3");
    assert_eq!(ValueInner::Float(250).text(), "2.50");
    assert_eq!(ValueInner::Unit(Unit::Fu(FuId::new(4))).text(), "F04");
    assert_eq!(ValueInner::MemAddr(imm(8)).text(), "M[8]");
    assert_eq!(sample().text(), "(M[(34+R2)]*4.00)");
    assert_eq!(ValueInner::Op(Type::SUBD, imm(1), imm(-2)).text(), "(1--2)");
    assert_eq!(ValueInner::Op(Type::DIVD, imm(1), imm(2)).text(), "(1/2)");
    // A load or a store has no sign.
    assert_eq!(ValueInner::Op(Type::LD, imm(1), imm(2)).text(), "(12)");
}

#[test]
fn values_at_a_glance() {
    assert_eq!(ValueInner::Imm(-3).brief(), "-3");
    assert_eq!(ValueInner::Float(250).brief(), "2.50");
    assert_eq!(ValueInner::Unit(Unit::Regs(RegId::new(4))).brief(), "R4");
    assert_eq!(ValueInner::MemAddr(imm(8)).brief(), "M[..]");
    assert_eq!(sample().brief(), "..*..");
    assert_eq!(ValueInner::Op(Type::ADDD, imm(1), imm(2)).brief(), "..+..");
    assert_eq!(ValueInner::Op(Type::SD, imm(1), imm(2)).brief(), "....");
}

#[test]
fn columns() {
    assert_eq!(brief_column(&None), "None ");
    assert_eq!(brief_column(&Some(imm(3))), "3    ");
    assert_eq!(brief_column(&Some(Rc::new(sample()))), "..*..");
    assert_eq!(brief_column(&Some(imm(1234567))), "1234567");
    assert_eq!(tag_column(&None), "None  ");
    assert_eq!(tag_column(&Some(RsId(RsType::ADD, 0))), "ADD0  ");
    assert_eq!(tag_column(&Some(RsId(RsType::STORE, 2))), "STORE2");
    assert_eq!(cycle_text(None), " ");
    assert_eq!(cycle_text(Some(0)), "0");
    assert_eq!(cycle_text(Some(1001)), "1001");
}

#[test]
fn instruction_text_and_row() {
    let mut inst = parse_instruction("LD F6 34+ R2").unwrap();
    assert_eq!(inst.text(), "LD F06 34 R2");
    assert_eq!(inst.row(), "LD F06 34 R2        :    ,    ,    ,    ");
    inst.emit(1);
    inst.exec(2);
    assert_eq!(inst.row(), "LD F06 34 R2        :   1,   2,    ,    ");
    inst.exec(3);
    inst.exec(4);
    inst.write(4);
    assert_eq!(inst.row(), "LD F06 34 R2        :   1,   2,   3,   4");
    let mut long = parse_instruction("MULTD F10 F12 F14").unwrap();
    long.emit(998);
    long.start_cycle = Some(999);
    long.exec_cycle = Some(1008);
    long.write_cycle = Some(1009);
    assert_eq!(long.text(), "MULTD F10 F12 F14");
    assert_eq!(long.row(), "MULTD F10 F12 F14   : 998, 999, 1008, 1009");
    let wide = parse_instruction("LD F6 -9223372036854775808 R200").unwrap();
    assert_eq!(wide.row(), "LD F06 -9223372036854775808 R200:    ,    ,    ,    ");
}

#[test]
fn station_rows() {
    let table = {
        let mut t = FloatingUnit::new();
        t.mark_busy(FuId::new(0), RsId(RsType::MULT, 0));
        t
    };
    let mut station = RsInner::new(RsType::ADD, 1);
    assert_eq!(station.row(), "ADD1   : Free  ,None ,None ,None ,None  ,None  ,None ");
    station.apply(parse_instruction("ADDD F6 F0 F2").unwrap(), &table, 1).unwrap();
    assert_eq!(station.row(), "ADD1   : Busy  ,ADDD ,None ,2.00 ,MULT0 ,None  ,None ");
    let mut load = RsInner::new(RsType::LOAD, 2);
    load.apply(parse_instruction("LD F6 34+ R2").unwrap(), &table, 1).unwrap();
    load.state = RsState::Calculating;
    assert_eq!(load.row(), "LOAD2  : Calc  ,LD   ,None ,R2   ,None  ,None  ,34");
    let mut mult = RsInner::new(RsType::MULT, 0);
    mult.apply(parse_instruction("MULTD F6 F2 F4").unwrap(), &table, 1).unwrap();
    mult.vj = Some(Rc::new(sample()));
    mult.state = RsState::Ready;
    assert_eq!(mult.row(), "MULT0  : Ready ,MULTD,..*..,4.00 ,None  ,None  ,None ");
}

#[test]
fn slot_rows() {
    let free = FloatingUnitInner { qi: None, value: Some(imm(1)) };
    assert_eq!(free.row(FuId::new(2)), None);
    let waiting = FloatingUnitInner { qi: Some(RsId(RsType::LOAD, 0)), value: None };
    assert_eq!(waiting.row(FuId::new(2)), Some("F02 : LOAD0  -> None".to_string()));
    let written = FloatingUnitInner { qi: Some(RsId(RsType::MULT, 1)), value: Some(Rc::new(sample())) };
    assert_eq!(
        written.row(FuId::new(30)),
        Some("F30 : MULT1  -> (M[(34+R2)]*4.00)".to_string())
    );
}

#[test]
fn report_of_a_cycle() {
    let mut ex = tomasulo_sim::Executer::new();
    ex.add_insts(&tomasulo_sim::parse_program("LD F6 34+ R2\nADDD F0 F6 F2").unwrap());
    assert_eq!(
        ex.report(),
        "Cycle: 0 > Running\n\
         Reservation Stations:\n\
         ADD0   : Free  ,None ,None ,None ,None  ,None  ,None \n\
         ADD1   : Free  ,None ,None ,None ,None  ,None  ,None \n\
         ADD2   : Free  ,None ,None ,None ,None  ,None  ,None \n\
         MULT0  : Free  ,None ,None ,None ,None  ,None  ,None \n\
         MULT1  : Free  ,None ,None ,None ,None  ,None  ,None \n\
         LOAD0  : Free  ,None ,None ,None ,None  ,None  ,None \n\
         LOAD1  : Free  ,None ,None ,None ,None  ,None  ,None \n\
         LOAD2  : Free  ,None ,None ,None ,None  ,None  ,None \n\
         STORE0 : Free  ,None ,None ,None ,None  ,None  ,None \n\
         STORE1 : Free  ,None ,None ,None ,None  ,None  ,None \n\
         STORE2 : Free  ,None ,None ,None ,None  ,None  ,None \n\
         \n\
         Floating Units:\n\
         \n"
    );
    ex.step().unwrap();
    ex.release();
    ex.step().unwrap();
    assert_eq!(
        ex.report(),
        "Cycle: 2 > Running\n\
         Reservation Stations:\n\
         ADD0   : Busy  ,ADDD ,None ,2.00 ,LOAD0 ,None  ,None \n\
         ADD1   : Free  ,None ,None ,None ,None  ,None  ,None \n\
         ADD2   : Free  ,None ,None ,None ,None  ,None  ,None \n\
         MULT0  : Free  ,None ,None ,None ,None  ,None  ,None \n\
         MULT1  : Free  ,None ,None ,None ,None  ,None  ,None \n\
         LOAD0  : Calc  ,LD   ,None ,R2   ,None  ,None  ,34\n\
         LOAD1  : Free  ,None ,None ,None ,None  ,None  ,None \n\
         LOAD2  : Free  ,None ,None ,None ,None  ,None  ,None \n\
         STORE0 : Free  ,None ,None ,None ,None  ,None  ,None \n\
         STORE1 : Free  ,None ,None ,None ,None  ,None  ,None \n\
         STORE2 : Free  ,None ,None ,None ,None  ,None  ,None \n\
         \n\
         Floating Units:\n\
         F00 : ADD0   -> None\n\
         F06 : LOAD0  -> None\n\
         \n"
    );
    ex.release();
    assert_eq!(ex.run(), Ok(()));
    assert_eq!(ex.fu.rows(), "F00 : ADD0   -> (M[(34+R2)]+2.00)\nF06 : LOAD0  -> M[(34+R2)]\n");
    assert!(ex.report().starts_with("Cycle: 8 > Finished\nReservation Stations:\nADD0   : Free  ,"));
    assert_eq!(ex.rs.rows().lines().count(), 11);
}

#[test]
fn clones_are_equal_and_share() {
    let table = {
        let mut t = FloatingUnit::new();
        t.mark_busy(FuId::new(4), RsId(RsType::ADD, 2));
        t.mark_ready(FuId::new(4), RsId(RsType::ADD, 2), Rc::new(sample()));
        t.mark_busy(FuId::new(8), RsId(RsType::LOAD, 0));
        t
    };
    let copy = table.clone();
    assert_eq!(copy, table);
    assert!(Rc::ptr_eq(
        copy.inner[2].value.as_ref().unwrap(),
        table.inner[2].value.as_ref().unwrap()
    ));
    let value = sample();
    let copy = value.clone();
    assert_eq!(copy, value);
    match (&value, &copy) {
        (ValueInner::Op(_, a, _), ValueInner::Op(_, b, _)) => assert!(Rc::ptr_eq(a, b)),
        _ => panic!("an operation stays an operation"),
    }
    for leaf in [ValueInner::Imm(3), ValueInner::Float(-150), ValueInner::Unit(Unit::Regs(RegId::new(1)))] {
        assert_eq!(leaf.clone(), leaf);
    }
    assert_eq!(ValueInner::MemAddr(imm(2)).clone(), ValueInner::MemAddr(imm(2)));
}
