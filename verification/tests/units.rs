use std::rc::Rc;

use tomasulo_sim::units::rs::lookup;
use tomasulo_sim::value::{apply_op, fu_ref, new, share_opt};
use tomasulo_sim::{
    FloatingUnit, FloatingUnitInner, FuId, Instruction, RegId, ReservationStation, RsId, RsInner, RsState,
    RsType, SimError, Type, Unit, Value, ValueInner, FU_SIZE,
};

fn imm(n: i64) -> Value {
    Rc::new(ValueInner::Imm(n))
}

fn fu(n: u8) -> Value {
    Rc::new(ValueInner::Unit(Unit::Fu(FuId::new(n))))
}

fn reg(n: u8) -> Value {
    Rc::new(ValueInner::Unit(Unit::Regs(RegId::new(n))))
}

fn inst(op: Type, dest: u8, src1: Value, src2: Value) -> Instruction {
    let mut inst = Instruction::new(op, Unit::Fu(FuId::new(dest)));
    inst.src1 = Some(src1);
    inst.src2 = Some(src2);
    inst
}

#[test]
fn latencies() {
    assert_eq!(Type::ADDD.latency(), 2);
    assert_eq!(Type::SUBD.latency(), 2);
    assert_eq!(Type::LD.latency(), 2);
    assert_eq!(Type::SD.latency(), 2);
    assert_eq!(Type::MULTD.latency(), 10);
    assert_eq!(Type::DIVD.latency(), 20);
}

#[test]
fn station_kinds() {
    assert_eq!(Type::ADDD.kind(), RsType::ADD);
    assert_eq!(Type::SUBD.kind(), RsType::ADD);
    assert_eq!(Type::MULTD.kind(), RsType::MULT);
    assert_eq!(Type::DIVD.kind(), RsType::MULT);
    assert_eq!(Type::LD.kind(), RsType::LOAD);
    assert_eq!(Type::SD.kind(), RsType::STORE);
    assert_eq!(RsType::from(Type::DIVD), RsType::MULT);
    assert!(Type::LD.is_memory());
    assert!(Type::SD.is_memory());
    assert!(!Type::ADDD.is_memory());
}

#[test]
fn op_signs() {
    assert_eq!(Type::ADDD.op_str(), "+");
    assert_eq!(Type::SUBD.op_str(), "-");
    assert_eq!(Type::MULTD.op_str(), "*");
    assert_eq!(Type::DIVD.op_str(), "/");
    assert_eq!(Type::LD.op_str(), "");
    assert_eq!(Type::SD.op_str(), "");
}

#[test]
fn new_instruction_has_no_cycles() {
    let i = Instruction::new(Type::LD, Unit::Fu(FuId::new(6)));
    assert_eq!(i.op, Type::LD);
    assert_eq!(i.dest, Unit::Fu(FuId::new(6)));
    assert_eq!(i.src1, None);
    assert_eq!(i.src2, None);
    assert_eq!(i.emit_cycle, None);
    assert_eq!(i.start_cycle, None);
    assert_eq!(i.exec_cycle, None);
    assert_eq!(i.write_cycle, None);
    assert_eq!(i.left_cycle, None);
    assert!(!i.operands_ok());
    assert!(!i.issuable());
}

#[test]
fn instruction_lifecycle_of_an_addition() {
    let mut i = inst(Type::ADDD, 0, fu(2), fu(4));
    assert!(i.issuable());
    // Not issued: a step does nothing.
    assert!(!i.exec(3));
    assert_eq!(i.start_cycle, None);
    i.emit(5);
    assert_eq!(i.emit_cycle, Some(5));
    assert_eq!(i.left_cycle, Some(2));
    assert!(!i.exec(7));
    assert_eq!(i.start_cycle, Some(7));
    assert_eq!(i.left_cycle, Some(1));
    assert!(!i.exec(8));
    assert_eq!(i.start_cycle, Some(7));
    assert_eq!(i.left_cycle, Some(0));
    assert_eq!(i.exec_cycle, None);
    assert!(i.exec(9));
    assert_eq!(i.exec_cycle, Some(8));
    assert_eq!(i.left_cycle, None);
    // Finished: a further step does nothing.
    assert!(!i.exec(10));
    assert_eq!(i.exec_cycle, Some(8));
    i.write(9);
    assert_eq!(i.write_cycle, Some(9));
    assert_eq!(i.emit_cycle, Some(5));
}

#[test]
fn instruction_countdown_of_a_division() {
    let mut i = inst(Type::DIVD, 0, fu(2), fu(4));
    i.emit(1);
    let mut cycle = 2;
    while !i.exec(cycle) {
        cycle += 1;
    }
    assert_eq!(i.start_cycle, Some(2));
    assert_eq!(i.exec_cycle, Some(21));
    assert_eq!(cycle, 22);
}

#[test]
fn instruction_clone_shares_operands() {
    let i = inst(Type::MULTD, 0, fu(2), fu(4));
    let j = i.clone();
    assert_eq!(i, j);
    assert!(Rc::ptr_eq(i.src1.as_ref().unwrap(), j.src1.as_ref().unwrap()));
}

#[test]
fn destination_and_operand_checks() {
    let mut on_register = Instruction::new(Type::LD, Unit::Regs(RegId::new(1)));
    on_register.src1 = Some(imm(0));
    on_register.src2 = Some(reg(2));
    assert!(on_register.operands_ok());
    assert_eq!(on_register.dest_fu(), None);
    assert!(!on_register.issuable());
    let load = inst(Type::LD, 6, imm(34), reg(2));
    assert!(load.issuable());
    assert_eq!(load.dest_fu(), Some(FuId::new(6)));
    let bad = inst(Type::ADDD, 6, imm(34), fu(2));
    assert!(!bad.operands_ok());
    let bad = inst(Type::ADDD, 6, fu(2), reg(2));
    assert!(!bad.operands_ok());
}

#[test]
fn fu_ids() {
    assert_eq!(FU_SIZE, 16);
    assert_eq!(FuId::new(0).index(), 0);
    assert_eq!(FuId::new(6).index(), 3);
    assert_eq!(FuId::new(30).index(), 15);
    assert_eq!(FuId::new(30).id(), 30);
    assert_eq!(FuId::try_new(30), Some(FuId::new(30)));
    assert_eq!(FuId::try_new(32), None);
    assert_eq!(FuId::try_new(7), None);
    assert_eq!(FuId::try_new(255), None);
    assert_eq!(FuId::of_slot(15), FuId::new(30));
    assert_eq!(FuId::of_slot(0), FuId::new(0));
    assert_eq!(RegId::new(7).number(), 7);
}

#[test]
fn rs_ids_and_positions() {
    assert_eq!(RsId::new(RsType::MULT, 1), RsId(RsType::MULT, 1));
    assert_eq!(RsId(RsType::LOAD, 2).kind(), RsType::LOAD);
    assert_eq!(RsId(RsType::LOAD, 2).index(), 2);
    assert_eq!(RsId(RsType::ADD, 0).position(), Some(0));
    assert_eq!(RsId(RsType::ADD, 2).position(), Some(2));
    assert_eq!(RsId(RsType::ADD, 3).position(), None);
    assert_eq!(RsId(RsType::MULT, 0).position(), Some(3));
    assert_eq!(RsId(RsType::MULT, 1).position(), Some(4));
    assert_eq!(RsId(RsType::MULT, 2).position(), None);
    assert_eq!(RsId(RsType::LOAD, 0).position(), Some(5));
    assert_eq!(RsId(RsType::LOAD, 2).position(), Some(7));
    assert_eq!(RsId(RsType::STORE, 0).position(), Some(8));
    assert_eq!(RsId(RsType::STORE, 2).position(), Some(10));
    assert_eq!(RsId(RsType::STORE, 3).position(), None);
    assert_eq!(RsId(RsType::STORE, 255).position(), None);
    assert_eq!(RsType::ADD.count(), 3);
    assert_eq!(RsType::MULT.count(), 2);
    assert_eq!(RsType::LOAD.count(), 3);
    assert_eq!(RsType::STORE.count(), 3);
    assert_eq!(RsType::STORE.base(), 8);
}

#[test]
fn unit_conversions() {
    assert_eq!(Unit::from(RsId(RsType::ADD, 1)), Unit::Rs(RsId(RsType::ADD, 1)));
    assert_eq!(Unit::from(FuId::new(4)), Unit::Fu(FuId::new(4)));
    assert_eq!(Unit::from(RegId::new(4)), Unit::Regs(RegId(4)));
    assert_eq!(ValueInner::from(5i64), ValueInner::Imm(5));
    assert_eq!(
        ValueInner::from(Unit::Regs(RegId(1))),
        ValueInner::Unit(Unit::Regs(RegId(1)))
    );
    assert_eq!(ValueInner::from(imm(3)), ValueInner::MemAddr(imm(3)));
    assert_eq!(
        ValueInner::from((Type::SUBD, imm(3), imm(4))),
        ValueInner::Op(Type::SUBD, imm(3), imm(4))
    );
}

#[test]
fn values_are_equal_by_structure() {
    let a = apply_op(Type::ADDD, imm(1), new(ValueInner::MemAddr(reg(2))));
    let b = apply_op(Type::ADDD, imm(1), new(ValueInner::MemAddr(reg(2))));
    assert_eq!(a, b);
    assert!(!Rc::ptr_eq(&a, &b));
    let c = apply_op(Type::SUBD, imm(1), new(ValueInner::MemAddr(reg(2))));
    assert_ne!(a, c);
    assert_eq!(*new(ValueInner::Float(250)), ValueInner::Float(250));
    let shared = share_opt(&Some(a.clone()));
    assert!(Rc::ptr_eq(shared.as_ref().unwrap(), &a));
    assert_eq!(share_opt(&None), None);
    assert_eq!(fu_ref(&Some(fu(8))), Some(FuId::new(8)));
    assert_eq!(fu_ref(&Some(reg(8))), None);
    assert_eq!(fu_ref(&Some(imm(8))), None);
    assert_eq!(fu_ref(&None), None);
}

#[test]
fn new_table_holds_the_even_constants() {
    let table = FloatingUnit::new();
    for i in 0..FU_SIZE {
        let slot = table.get(FuId::of_slot(i));
        assert_eq!(slot.qi, None);
        assert_eq!(slot.value, Some(Rc::new(ValueInner::Float(200 * i as i64))));
    }
    assert_eq!(FloatingUnitInner::default(), FloatingUnitInner { qi: None, value: None });
    let slot = FloatingUnitInner { qi: Some(RsId(RsType::ADD, 0)), value: None }.with_value(150);
    assert_eq!(slot.qi, Some(RsId(RsType::ADD, 0)));
    assert_eq!(slot.value, Some(Rc::new(ValueInner::Float(150))));
    assert_eq!(slot.clone(), slot);
}

#[test]
fn mark_busy_clears_the_value_and_installs_the_owner() {
    let mut table = FloatingUnit::new();
    let add0 = RsId(RsType::ADD, 0);
    table.mark_busy(FuId::new(6), add0);
    assert_eq!(*table.get(FuId::new(6)), FloatingUnitInner { qi: Some(add0), value: None });
    // The other slots are as they were.
    assert_eq!(table.get(FuId::new(4)).qi, None);
    assert_eq!(table.get(FuId::new(8)).value, Some(Rc::new(ValueInner::Float(800))));
    assert_eq!(lookup(&table, FuId::new(6)), (None, Some(add0)));
    assert_eq!(lookup(&table, FuId::new(8)), (Some(Rc::new(ValueInner::Float(800))), None));
}

#[test]
fn mark_ready_writes_only_for_the_owner() {
    let mut table = FloatingUnit::new();
    let add0 = RsId(RsType::ADD, 0);
    let add1 = RsId(RsType::ADD, 1);
    table.mark_busy(FuId::new(6), add0);
    // The slot has been taken over: a write of the first owner is stale.
    table.mark_busy(FuId::new(6), add1);
    table.mark_ready(FuId::new(6), add0, imm(1));
    assert_eq!(*table.get(FuId::new(6)), FloatingUnitInner { qi: Some(add1), value: None });
    table.mark_ready(FuId::new(6), add1, imm(2));
    assert_eq!(*table.get(FuId::new(6)), FloatingUnitInner { qi: Some(add1), value: Some(imm(2)) });
    // A slot without an owner takes nothing.
    table.mark_ready(FuId::new(8), add1, imm(3));
    assert_eq!(table.get(FuId::new(8)).value, Some(Rc::new(ValueInner::Float(800))));
}

#[test]
fn try_get_value_finds_the_slot_of_the_owner() {
    let mut table = FloatingUnit::new();
    let add0 = RsId(RsType::ADD, 0);
    let mult1 = RsId(RsType::MULT, 1);
    assert_eq!(table.try_get_value(add0), None);
    table.mark_busy(FuId::new(6), add0);
    assert_eq!(table.try_get_value(add0), None);
    table.mark_ready(FuId::new(6), add0, imm(7));
    assert_eq!(table.try_get_value(add0), Some(imm(7)));
    assert_eq!(table.try_get_value(mult1), None);
    // Of two slots with one owner the first decides.
    table.mark_busy(FuId::new(2), add0);
    assert_eq!(table.try_get_value(add0), None);
    table.mark_busy(FuId::new(10), add0);
    table.mark_ready(FuId::new(2), add0, imm(8));
    assert_eq!(table.try_get_value(add0), Some(imm(8)));
}

#[test]
fn table_clear_forgets_owners_and_keeps_values() {
    let mut table = FloatingUnit::new();
    let add0 = RsId(RsType::ADD, 0);
    table.mark_busy(FuId::new(6), add0);
    table.mark_busy(FuId::new(8), add0);
    table.mark_ready(FuId::new(8), add0, imm(7));
    table.clear();
    assert_eq!(*table.get(FuId::new(6)), FloatingUnitInner { qi: None, value: None });
    assert_eq!(*table.get(FuId::new(8)), FloatingUnitInner { qi: None, value: Some(imm(7)) });
    assert_eq!(table.get(FuId::new(0)).value, Some(Rc::new(ValueInner::Float(0))));
}

#[test]
fn new_pool_has_its_stations_in_order() {
    let pool = ReservationStation::new();
    let ids: Vec<RsId> = pool.inner.iter().map(|s| s.id).collect();
    assert_eq!(
        ids,
        vec![
            RsId(RsType::ADD, 0),
            RsId(RsType::ADD, 1),
            RsId(RsType::ADD, 2),
            RsId(RsType::MULT, 0),
            RsId(RsType::MULT, 1),
            RsId(RsType::LOAD, 0),
            RsId(RsType::LOAD, 1),
            RsId(RsType::LOAD, 2),
            RsId(RsType::STORE, 0),
            RsId(RsType::STORE, 1),
            RsId(RsType::STORE, 2),
        ]
    );
    for s in pool.inner.iter() {
        assert_eq!(s.state, RsState::Free);
        assert!(s.inst.is_none() && s.vj.is_none() && s.vk.is_none());
        assert!(s.qj.is_none() && s.qk.is_none() && s.addr.is_none() && s.result.is_none());
    }
    assert_eq!(pool.get(RsId(RsType::MULT, 1)).unwrap().id, RsId(RsType::MULT, 1));
    assert!(pool.get(RsId(RsType::MULT, 2)).is_none());
}

#[test]
fn get_free_finds_the_first_free_station_of_the_kind() {
    let mut pool = ReservationStation::new();
    let table = FloatingUnit::new();
    assert_eq!(pool.get_free(RsType::MULT), Some(RsId(RsType::MULT, 0)));
    pool.inner[3].apply(inst(Type::MULTD, 0, fu(2), fu(4)), &table, 1).unwrap();
    assert_eq!(pool.get_free(RsType::MULT), Some(RsId(RsType::MULT, 1)));
    pool.inner[4].apply(inst(Type::DIVD, 6, fu(2), fu(4)), &table, 2).unwrap();
    assert_eq!(pool.get_free(RsType::MULT), None);
    assert_eq!(pool.get_free(RsType::ADD), Some(RsId(RsType::ADD, 0)));
    assert_eq!(pool.get_free(RsType::LOAD), Some(RsId(RsType::LOAD, 0)));
    assert_eq!(pool.get_free(RsType::STORE), Some(RsId(RsType::STORE, 0)));
    pool.inner[3].clear();
    assert_eq!(pool.get_free(RsType::MULT), Some(RsId(RsType::MULT, 0)));
}

#[test]
fn get_mut_gives_the_station_to_change() {
    let mut pool = ReservationStation::new();
    let table = FloatingUnit::new();
    {
        let station = pool.get_mut(RsId(RsType::LOAD, 1)).unwrap();
        station.apply(inst(Type::LD, 6, imm(34), reg(2)), &table, 1).unwrap();
    }
    assert_eq!(pool.inner[6].state, RsState::Busy);
    assert_eq!(pool.inner[5].state, RsState::Free);
    assert!(pool.get_mut(RsId(RsType::LOAD, 3)).is_none());
}

#[test]
fn apply_captures_the_operands_of_a_load() {
    let mut station = RsInner::new(RsType::LOAD, 0);
    let table = FloatingUnit::new();
    assert_eq!(station.apply(inst(Type::LD, 6, imm(34), reg(2)), &table, 3), Ok(()));
    assert_eq!(station.state, RsState::Busy);
    assert_eq!(station.addr, Some(imm(34)));
    assert_eq!(station.vk, Some(reg(2)));
    assert_eq!(station.qk, None);
    assert_eq!(station.vj, None);
    assert_eq!(station.qj, None);
    let held = station.inst.as_ref().unwrap();
    assert_eq!(held.emit_cycle, Some(3));
    assert_eq!(held.left_cycle, Some(2));
    assert!(station.is_ready());
    assert_eq!(station.dest(), Some(&Unit::Fu(FuId::new(6))));
}

#[test]
fn apply_looks_up_a_functional_unit_given_to_a_store() {
    let mut table = FloatingUnit::new();
    let mult0 = RsId(RsType::MULT, 0);
    table.mark_busy(FuId::new(4), mult0);
    let mut waiting = RsInner::new(RsType::STORE, 0);
    assert_eq!(waiting.apply(inst(Type::SD, 6, imm(0), fu(4)), &table, 1), Ok(()));
    assert_eq!(waiting.vk, None);
    assert_eq!(waiting.qk, Some(mult0));
    assert!(!waiting.is_ready());
    let mut knowing = RsInner::new(RsType::STORE, 1);
    assert_eq!(knowing.apply(inst(Type::SD, 6, imm(0), fu(2)), &table, 1), Ok(()));
    assert_eq!(knowing.vk, Some(Rc::new(ValueInner::Float(200))));
    assert_eq!(knowing.qk, None);
}

#[test]
fn apply_resolves_or_queues_the_operands_of_an_addition() {
    let mut table = FloatingUnit::new();
    let mult0 = RsId(RsType::MULT, 0);
    table.mark_busy(FuId::new(0), mult0);
    let mut station = RsInner::new(RsType::ADD, 1);
    assert_eq!(station.apply(inst(Type::ADDD, 6, fu(0), fu(2)), &table, 4), Ok(()));
    assert_eq!(station.vj, None);
    assert_eq!(station.qj, Some(mult0));
    assert_eq!(station.vk, Some(Rc::new(ValueInner::Float(200))));
    assert_eq!(station.qk, None);
    assert_eq!(station.addr, None);
    assert!(!station.is_ready());
}

#[test]
fn apply_refuses_what_cannot_be_issued() {
    let table = FloatingUnit::new();
    let cases = vec![
        Instruction::new(Type::ADDD, Unit::Fu(FuId::new(0))),
        Instruction::new(Type::LD, Unit::Fu(FuId::new(0))),
        inst(Type::ADDD, 0, imm(1), fu(2)),
        inst(Type::MULTD, 0, fu(2), reg(1)),
        {
            let mut i = Instruction::new(Type::LD, Unit::Regs(RegId::new(3)));
            i.src1 = Some(imm(0));
            i.src2 = Some(reg(1));
            i
        },
        {
            let mut i = Instruction::new(Type::SD, Unit::Fu(FuId::new(0)));
            i.src1 = Some(imm(0));
            i
        },
    ];
    for case in cases {
        let mut station = RsInner::new(RsType::ADD, 0);
        assert_eq!(station.apply(case, &table, 1), Err(SimError::InvariantViolation));
        assert_eq!(station.state, RsState::Free);
        assert!(station.inst.is_none() && station.vj.is_none() && station.vk.is_none());
        assert!(station.qj.is_none() && station.qk.is_none() && station.addr.is_none());
    }
}

#[test]
fn station_exec_builds_the_result() {
    let table = FloatingUnit::new();
    let mut station = RsInner::new(RsType::ADD, 0);
    // Without an instruction there is nothing to do.
    assert_eq!(station.exec(1), RsState::Free);
    station.apply(inst(Type::SUBD, 6, fu(2), fu(4)), &table, 1).unwrap();
    assert_eq!(station.exec(2), RsState::Calculating);
    assert_eq!(station.exec(3), RsState::Calculating);
    assert_eq!(station.result(), None);
    assert_eq!(station.exec(4), RsState::Ready);
    // The record of the state is the pool's to change.
    assert_eq!(station.state, RsState::Busy);
    assert_eq!(
        station.result(),
        Some(apply_op(Type::SUBD, new(ValueInner::Float(200)), new(ValueInner::Float(400))))
    );
    let taken = station.take().unwrap();
    assert_eq!(taken.exec_cycle, Some(3));
    assert!(station.inst.is_none());
    assert_eq!(station.take(), None);
    assert_eq!(station.dest(), None);

    let mut load = RsInner::new(RsType::LOAD, 0);
    load.apply(inst(Type::LD, 6, imm(34), reg(2)), &table, 1).unwrap();
    load.exec(2);
    load.exec(3);
    assert_eq!(load.exec(4), RsState::Ready);
    assert_eq!(
        load.result(),
        Some(new(ValueInner::MemAddr(apply_op(Type::ADDD, imm(34), reg(2)))))
    );
}

#[test]
fn station_clear_keeps_tag_and_result() {
    let table = FloatingUnit::new();
    let mut station = RsInner::new(RsType::ADD, 2);
    station.apply(inst(Type::ADDD, 6, fu(2), fu(4)), &table, 1).unwrap();
    station.exec(2);
    station.exec(3);
    station.exec(4);
    let result = station.result();
    assert!(result.is_some());
    station.clear();
    assert_eq!(station.id, RsId(RsType::ADD, 2));
    assert_eq!(station.state, RsState::Free);
    assert!(station.inst.is_none() && station.vj.is_none() && station.vk.is_none());
    assert!(station.qj.is_none() && station.qk.is_none() && station.addr.is_none());
    assert_eq!(station.result(), result);
}

#[test]
fn poll_takes_what_the_table_holds_under_the_tag() {
    let mut table = FloatingUnit::new();
    let mult0 = RsId(RsType::MULT, 0);
    let mult1 = RsId(RsType::MULT, 1);
    table.mark_busy(FuId::new(0), mult0);
    table.mark_busy(FuId::new(2), mult1);
    let mut station = RsInner::new(RsType::ADD, 0);
    station.apply(inst(Type::ADDD, 6, fu(0), fu(2)), &table, 1).unwrap();
    station.poll(&table);
    assert_eq!((station.qj, station.qk), (Some(mult0), Some(mult1)));
    table.mark_ready(FuId::new(2), mult1, imm(9));
    station.poll(&table);
    assert_eq!((station.qj, station.qk), (Some(mult0), None));
    assert_eq!(station.vj, None);
    assert_eq!(station.vk, Some(imm(9)));
}

#[test]
fn flush_reaches_the_waiting_stations_only() {
    let mut table = FloatingUnit::new();
    let mut pool = ReservationStation::new();
    let mult0 = RsId(RsType::MULT, 0);
    let load0 = RsId(RsType::LOAD, 0);
    table.mark_busy(FuId::new(0), mult0);
    table.mark_busy(FuId::new(2), load0);
    pool.inner[0].apply(inst(Type::ADDD, 6, fu(0), fu(0)), &table, 1).unwrap();
    pool.inner[1].apply(inst(Type::ADDD, 8, fu(2), fu(0)), &table, 2).unwrap();
    pool.inner[2].apply(inst(Type::ADDD, 10, fu(4), fu(6)), &table, 3).unwrap();
    pool.flush(mult0, imm(5));
    assert_eq!((pool.inner[0].qj, pool.inner[0].qk), (None, None));
    assert_eq!(pool.inner[0].vj, Some(imm(5)));
    assert_eq!(pool.inner[0].vk, Some(imm(5)));
    assert_eq!((pool.inner[1].qj, pool.inner[1].qk), (Some(load0), None));
    assert_eq!(pool.inner[1].vj, None);
    assert_eq!(pool.inner[1].vk, Some(imm(5)));
    assert_eq!(pool.inner[2].vj, Some(Rc::new(ValueInner::Float(400))));
    assert_eq!(pool.inner[2].vk, Some(Rc::new(ValueInner::Float(600))));
    // A free station hears nothing.
    assert!(pool.inner[3].vj.is_none());
    // A station that is neither busy nor calculating keeps its tags.
    let mut ready = RsInner::new(RsType::ADD, 0);
    ready.state = RsState::Ready;
    ready.qj = Some(mult0);
    ready.flush(mult0, &imm(1));
    assert_eq!(ready.qj, Some(mult0));
    assert_eq!(ready.vj, None);
}

#[test]
fn pool_pass_moves_the_stations_through_their_states() {
    let mut table = FloatingUnit::new();
    let mut pool = ReservationStation::new();
    let load0 = RsId(RsType::LOAD, 0);
    table.mark_busy(FuId::new(2), load0);
    pool.inner[5].apply(inst(Type::LD, 2, imm(0), reg(1)), &table, 1).unwrap();
    pool.inner[0].apply(inst(Type::ADDD, 6, fu(2), fu(4)), &table, 1).unwrap();
    // Cycle 1: the load has its operands, the addition waits.
    assert_eq!(pool.exec(&table, 1), vec![]);
    assert_eq!(pool.inner[5].state, RsState::Calculating);
    assert_eq!(pool.inner[0].state, RsState::Busy);
    assert_eq!(pool.exec(&table, 2), vec![]);
    assert_eq!(pool.exec(&table, 3), vec![]);
    assert_eq!(pool.exec(&table, 4), vec![load0]);
    assert_eq!(pool.inner[5].state, RsState::Ready);
    assert_eq!(pool.inner[0].state, RsState::Busy);
    // A ready station stays as it is until it is released.
    assert_eq!(pool.exec(&table, 5), vec![]);
    assert_eq!(pool.inner[5].state, RsState::Ready);
    pool.release(RsId(RsType::LOAD, 1));
    assert_eq!(pool.inner[5].state, RsState::Ready);
    pool.release(RsId(RsType::ADD, 0));
    assert_eq!(pool.inner[0].state, RsState::Busy);
    pool.release(RsId(RsType::LOAD, 7));
    pool.release(load0);
    assert_eq!(pool.inner[5].state, RsState::Free);
    assert!(pool.inner[5].inst.is_none());
    pool.clear();
    assert!(pool.inner.iter().all(|s| s.state == RsState::Free));
}

#[test]
fn pool_pass_reports_the_finished_stations_in_order() {
    let table = FloatingUnit::new();
    let mut pool = ReservationStation::new();
    pool.inner[8].apply(inst(Type::SD, 2, imm(0), reg(1)), &table, 1).unwrap();
    pool.inner[1].apply(inst(Type::ADDD, 6, fu(2), fu(4)), &table, 1).unwrap();
    pool.inner[6].apply(inst(Type::LD, 8, imm(0), reg(1)), &table, 1).unwrap();
    for cycle in 1..=3 {
        assert_eq!(pool.exec(&table, cycle), vec![]);
    }
    assert_eq!(
        pool.exec(&table, 4),
        vec![RsId(RsType::ADD, 1), RsId(RsType::LOAD, 1), RsId(RsType::STORE, 0)]
    );
}
