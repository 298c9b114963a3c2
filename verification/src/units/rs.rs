//! The reservation-station pool.

use std::rc::Rc;
use vstd::prelude::*;

use crate::error::SimError;
use crate::inst::{Instruction, Type};
use crate::units::fu::{spec_try_get_value, FloatingUnit, FloatingUnitInner, FuId};
use crate::units::Unit;
use crate::value::{apply_op, fu_ref, new, share, share_opt, spec_fu_ref, Value, ValueInner};

verus! {

/// The number of stations for additions and subtractions.
pub const ADD_RS_COUNT: usize = 3;

/// The number of stations for multiplications and divisions.
pub const MULT_RS_COUNT: usize = 2;

/// The number of load buffers.
pub const LOAD_BUFFER_COUNT: usize = 3;

/// The number of store buffers.
pub const STORE_BUFFER_COUNT: usize = 3;

/// The number of stations of all kinds.
pub const RS_COUNT: usize = 11;

/// The kind of work a station takes.
#[allow(clippy::upper_case_acronyms)]
#[derive(Debug, Clone, Copy, PartialEq, Eq, Hash, PartialOrd, Ord, Structural)]
pub enum RsType {
    ADD,
    MULT,
    LOAD,
    STORE,
}

/// The tag of a station: its kind and its index among the stations of
/// that kind.
#[derive(Debug, Clone, Copy, PartialEq, Eq, Hash, PartialOrd, Ord, Structural)]
pub struct RsId(pub RsType, pub u8);

impl RsType {
    /// How many stations of this kind the pool has.
    pub open spec fn spec_count(self) -> int {
        match self {
            RsType::ADD => ADD_RS_COUNT as int,
            RsType::MULT => MULT_RS_COUNT as int,
            RsType::LOAD => LOAD_BUFFER_COUNT as int,
            RsType::STORE => STORE_BUFFER_COUNT as int,
        }
    }

    /// The pool's index of the first station of this kind.
    pub open spec fn spec_base(self) -> int {
        match self {
            RsType::ADD => 0,
            RsType::MULT => 3,
            RsType::LOAD => 5,
            RsType::STORE => 8,
        }
    }

    /// How many stations of this kind the pool has.
    pub fn count(self) -> (n: usize)
        ensures
            n == self.spec_count(),
    {
        match self {
            RsType::ADD => ADD_RS_COUNT,
            RsType::MULT => MULT_RS_COUNT,
            RsType::LOAD => LOAD_BUFFER_COUNT,
            RsType::STORE => STORE_BUFFER_COUNT,
        }
    }

    /// The pool's index of the first station of this kind.
    pub fn base(self) -> (n: usize)
        ensures
            n == self.spec_base(),
    {
        match self {
            RsType::ADD => 0,
            RsType::MULT => 3,
            RsType::LOAD => 5,
            RsType::STORE => 8,
        }
    }
}

impl RsId {
    /// Whether the pool has a station with this tag.
    pub open spec fn in_pool(self) -> bool {
        self.1 < self.0.spec_count()
    }

    /// The pool's index of the station with this tag.
    pub open spec fn slot(self) -> int {
        self.0.spec_base() + self.1
    }

    /// The tag of the station at the pool's index `i`.
    pub open spec fn at(i: int) -> RsId {
        if i < 3 {
            RsId(RsType::ADD, i as u8)
        } else if i < 5 {
            RsId(RsType::MULT, (i - 3) as u8)
        } else if i < 8 {
            RsId(RsType::LOAD, (i - 5) as u8)
        } else {
            RsId(RsType::STORE, (i - 8) as u8)
        }
    }

    /// The pool's indices and the tags of its stations stand for each other.
    pub proof fn lemma_slot_at()
        ensures
            forall|i: int| 0 <= i < RS_COUNT ==> (#[trigger] RsId::at(i)).in_pool() && RsId::at(i).slot() == i,
            forall|id: RsId| #[trigger] id.in_pool() ==> 0 <= id.slot() < RS_COUNT && RsId::at(id.slot()) == id,
    {
    }

    /// The tag of the station of kind `kind` with the index `index`.
    pub fn new(kind: RsType, index: u8) -> (id: RsId)
        ensures
            id == RsId(kind, index),
    {
        RsId(kind, index)
    }

    /// The station's kind.
    pub fn kind(&self) -> (kind: RsType)
        ensures
            kind == self.0,
    {
        self.0
    }

    /// The station's index among the stations of its kind.
    pub fn index(&self) -> (index: u8)
        ensures
            index == self.1,
    {
        self.1
    }

    /// The pool's index of the station with this tag, if the pool has one.
    pub fn position(&self) -> (i: Option<usize>)
        ensures
            i is Some <==> self.in_pool(),
            i matches Some(n) ==> n == self.slot() && n < RS_COUNT,
    {
        if (self.1 as usize) < self.0.count() {
            Some(self.0.base() + self.1 as usize)
        } else {
            None
        }
    }
}

/// The state of a station. A station goes from `Free` to `Busy` when an
/// instruction is applied to it, to `Calculating` once its operands are
/// there, to `Ready` when the calculation has finished, and back to `Free`
/// when it is released.
#[derive(Debug, Clone, Copy, Eq, PartialEq, Hash, Structural)]
pub enum RsState {
    Busy,
    Free,
    Calculating,
    Ready,
}

/// One reservation station.
#[derive(Debug)]
pub struct RsInner {
    pub id: RsId,
    pub state: RsState,
    /// The instruction that the station holds.
    pub inst: Option<Instruction>,
    /// The first operand, once it is known.
    pub vj: Option<Value>,
    /// The second operand, once it is known.
    pub vk: Option<Value>,
    /// The station that will produce the first operand.
    pub qj: Option<RsId>,
    /// The station that will produce the second operand.
    pub qk: Option<RsId>,
    /// The address operand of a load or a store.
    pub addr: Option<Value>,
    /// What the last calculation gave.
    pub result: Option<Value>,
}

/// How an operand that names the functional unit `id` stands: the value
/// that the slot holds, or else the station that the slot waits for.
pub open spec fn spec_lookup(slots: Seq<FloatingUnitInner>, id: FuId) -> (Option<Value>, Option<RsId>) {
    match slots[id.slot()].value {
        Some(v) => (Some(v), None),
        None => (None, slots[id.slot()].qi),
    }
}

/// How an operand that names the functional unit `id` stands.
pub fn lookup(fu: &FloatingUnit, id: FuId) -> (found: (Option<Value>, Option<RsId>))
    ensures
        found == spec_lookup(fu@, id),
{
    let slot = fu.get(id);
    match &slot.value {
        Some(v) => (Some(share(v)), None),
        None => (None, slot.qi),
    }
}

impl RsInner {
    /// The station `id` of kind `rs_type`, free and empty.
    pub open spec fn spec_new(rs_type: RsType, id: u8) -> RsInner {
        RsInner {
            id: RsId(rs_type, id),
            inst: None,
            state: RsState::Free,
            vj: None,
            vk: None,
            qj: None,
            qk: None,
            addr: None,
            result: None,
        }
    }

    /// Whether the operands are there that the station's instruction is
    /// calculated from.
    pub open spec fn spec_is_ready(self) -> bool {
        match self.inst {
            Some(inst) => if inst.op.spec_is_memory() {
                self.vk is Some
            } else {
                self.vj is Some && self.vk is Some
            },
            None => false,
        }
    }

    /// Whether everything is there that the result is built from.
    pub open spec fn spec_can_compute(self) -> bool {
        match self.inst {
            Some(inst) => if inst.op.spec_is_memory() {
                self.addr is Some && self.vk is Some
            } else {
                self.vj is Some && self.vk is Some
            },
            None => false,
        }
    }

    /// Whether the station holds an instruction that has not finished its
    /// calculation.
    pub open spec fn in_flight(self) -> bool {
        self.state == RsState::Busy || self.state == RsState::Calculating
    }

    /// What holds of a station in each state.
    ///
    /// A free station is empty. The instruction that any other station holds
    /// names a functional unit as its destination. A busy station holds an
    /// issued instruction whose countdown has not begun, and no operand of it
    /// is both known and waited for. A calculating one has its operands, waits for none, and
    /// has recorded the start of the calculation once the countdown has
    /// begun. A ready one has a result, and the instruction, as long as it
    /// is there, has recorded the end of its calculation.
    pub open spec fn wf(self) -> bool {
        match self.state {
            RsState::Free => {
                &&& self.inst is None
                &&& self.vj is None
                &&& self.vk is None
                &&& self.qj is None
                &&& self.qk is None
                &&& self.addr is None
            },
            RsState::Busy => {
                &&& self.inst matches Some(inst)
                &&& inst.left_cycle == Some(inst.op.spec_latency())
                &&& inst.emit_cycle is Some
                &&& inst.spec_dest_fu() is Some
                &&& !(self.vj is Some && self.qj is Some)
                &&& !(self.vk is Some && self.qk is Some)
                &&& inst.op.spec_is_memory() ==> self.addr is Some && self.vj is None && self.qj
                    is None
            },
            RsState::Calculating => {
                &&& self.inst matches Some(inst)
                &&& inst.left_cycle matches Some(left)
                &&& left <= inst.op.spec_latency()
                &&& left < inst.op.spec_latency() ==> inst.start_cycle is Some
                &&& inst.emit_cycle is Some
                &&& inst.spec_dest_fu() is Some
                &&& self.spec_can_compute()
                &&& self.qj is None
                &&& self.qk is None
            },
            RsState::Ready => {
                &&& self.result is Some
                &&& self.inst matches Some(inst) ==> {
                    &&& inst.left_cycle is None
                    &&& inst.emit_cycle is Some
                    &&& inst.start_cycle is Some
                    &&& inst.exec_cycle is Some
                    &&& inst.spec_dest_fu() is Some
                }
            },
        }
    }

    /// The station after `inst` has been applied to it in `cycle`.
    ///
    /// A load or a store takes its first operand as the address. Its second
    /// operand is looked up in `slots` if it names a functional unit and is
    /// taken as it stands otherwise. Any other instruction looks both
    /// operands up. An operand that is looked up gives its value where the
    /// slot holds one, and else the station that the slot waits for.
    pub open spec fn spec_apply(self, inst: Instruction, slots: Seq<FloatingUnitInner>, cycle: u64) -> RsInner {
        if inst.op.spec_is_memory() {
            let second = match spec_fu_ref(inst.src2) {
                Some(id) => spec_lookup(slots, id),
                None => (inst.src2, None),
            };
            RsInner {
                inst: Some(inst.spec_emit(cycle)),
                state: RsState::Busy,
                addr: inst.src1,
                vk: second.0,
                qk: second.1,
                ..self
            }
        } else {
            let first = spec_lookup(slots, spec_fu_ref(inst.src1)->0);
            let second = spec_lookup(slots, spec_fu_ref(inst.src2)->0);
            RsInner {
                inst: Some(inst.spec_emit(cycle)),
                state: RsState::Busy,
                vj: first.0,
                qj: first.1,
                vk: second.0,
                qk: second.1,
                ..self
            }
        }
    }

    /// The empty station with the same tag. What the last calculation gave
    /// stays.
    pub open spec fn spec_clear(self) -> RsInner {
        RsInner {
            inst: None,
            state: RsState::Free,
            vj: None,
            vk: None,
            qj: None,
            qk: None,
            addr: None,
            ..self
        }
    }

    /// What the station's instruction gives: for a load or a store the
    /// memory at the sum of the address and the second operand, for any other
    /// instruction its operation on the two operands.
    pub open spec fn spec_outcome(self) -> Value {
        let op = self.inst->0.op;
        if op.spec_is_memory() {
            Rc::new(ValueInner::MemAddr(Rc::new(ValueInner::Op(Type::ADDD, self.addr->0, self.vk->0))))
        } else {
            Rc::new(ValueInner::Op(op, self.vj->0, self.vk->0))
        }
    }

    /// Whether the next step of the calculation finds the instruction
    /// finished.
    pub open spec fn spec_finishing(self) -> bool {
        self.inst matches Some(inst) && inst.spec_finishing()
    }

    /// The station after one more step of its instruction's calculation,
    /// made in `cycle`. The step that finds the instruction finished leaves
    /// the result. The station's state is not touched.
    pub open spec fn spec_exec(self, cycle: u64) -> RsInner {
        match self.inst {
            Some(inst) => if inst.spec_finishing() {
                RsInner { inst: Some(inst.spec_exec(cycle)), result: Some(self.spec_outcome()), ..self }
            } else {
                RsInner { inst: Some(inst.spec_exec(cycle)), ..self }
            },
            None => self,
        }
    }

    /// The state that a step of the calculation reports.
    pub open spec fn spec_exec_state(self) -> RsState {
        match self.inst {
            Some(inst) => if inst.spec_finishing() {
                RsState::Ready
            } else {
                RsState::Calculating
            },
            None => RsState::Free,
        }
    }

    /// The station after it has asked the functional-unit table for each
    /// operand that it waits for: an operand whose station the table holds a
    /// value for is known from now on.
    pub open spec fn spec_poll(self, slots: Seq<FloatingUnitInner>) -> RsInner {
        let first = match self.qj {
            Some(tag) => match spec_try_get_value(slots, tag) {
                Some(v) => (Some(v), None),
                None => (self.vj, self.qj),
            },
            None => (self.vj, self.qj),
        };
        let second = match self.qk {
            Some(tag) => match spec_try_get_value(slots, tag) {
                Some(v) => (Some(v), None),
                None => (self.vk, self.qk),
            },
            None => (self.vk, self.qk),
        };
        RsInner { vj: first.0, qj: first.1, vk: second.0, qk: second.1, ..self }
    }

    /// Whether the station is calculating and this cycle's pass finds its
    /// instruction finished.
    pub open spec fn spec_completes(self) -> bool {
        self.state == RsState::Calculating && self.spec_finishing()
    }

    /// The station after one cycle's pass.
    ///
    /// A busy station whose operands are there begins to calculate; one
    /// that still waits asks the functional-unit table. A calculating
    /// station makes one step, and is ready if that step finds the
    /// instruction finished. A free or ready station stays as it is.
    pub open spec fn spec_tick(self, slots: Seq<FloatingUnitInner>, cycle: u64) -> RsInner {
        match self.state {
            RsState::Busy => if self.spec_is_ready() {
                RsInner { state: RsState::Calculating, ..self }
            } else {
                self.spec_poll(slots)
            },
            RsState::Calculating => if self.spec_finishing() {
                RsInner { state: RsState::Ready, ..self.spec_exec(cycle) }
            } else {
                self.spec_exec(cycle)
            },
            _ => self,
        }
    }

    /// The station after the station `tag` has broadcast `value`: a busy or
    /// calculating station takes the value for each operand for which it
    /// waited for `tag`.
    pub open spec fn spec_flush(self, tag: RsId, value: Value) -> RsInner {
        if self.in_flight() {
            let first = if self.qj == Some(tag) {
                (Some(value), None)
            } else {
                (self.vj, self.qj)
            };
            let second = if self.qk == Some(tag) {
                (Some(value), None)
            } else {
                (self.vk, self.qk)
            };
            RsInner { vj: first.0, qj: first.1, vk: second.0, qk: second.1, ..self }
        } else {
            self
        }
    }

    /// Whether the station writes back: it is ready and still holds its
    /// instruction.
    pub open spec fn spec_writes(self) -> bool {
        self.state == RsState::Ready && self.inst is Some
    }

    /// The station without its instruction.
    pub open spec fn spec_take(self) -> RsInner {
        RsInner { inst: None, ..self }
    }

    /// The station `id` of kind `rs_type`, free and empty.
    pub fn new(rs_type: RsType, id: u8) -> (station: RsInner)
        ensures
            station == RsInner::spec_new(rs_type, id),
            station.wf(),
    {
        RsInner {
            id: RsId(rs_type, id),
            inst: None,
            state: RsState::Free,
            vj: None,
            vk: None,
            qj: None,
            qk: None,
            addr: None,
            result: None,
        }
    }

    /// Whether the station is as `wf` says.
    pub fn well_formed(&self) -> (ok: bool)
        ensures
            ok == self.wf(),
    {
        match self.state {
            RsState::Free => self.inst.is_none() && self.vj.is_none() && self.vk.is_none()
                && self.qj.is_none() && self.qk.is_none() && self.addr.is_none(),
            RsState::Busy => match &self.inst {
                Some(inst) => {
                    let wound = match inst.left_cycle {
                        Some(left) => left == inst.op.latency(),
                        None => false,
                    };
                    wound && inst.emit_cycle.is_some() && inst.dest_fu().is_some() && !(self.vj.is_some()
                        && self.qj.is_some()) && !(self.vk.is_some() && self.qk.is_some()) && (
                    !inst.op.is_memory() || (self.addr.is_some() && self.vj.is_none() && self.qj.is_none()))
                },
                None => false,
            },
            RsState::Calculating => match &self.inst {
                Some(inst) => match inst.left_cycle {
                    Some(left) => {
                        let operands = if inst.op.is_memory() {
                            self.addr.is_some() && self.vk.is_some()
                        } else {
                            self.vj.is_some() && self.vk.is_some()
                        };
                        left <= inst.op.latency() && (left == inst.op.latency()
                            || inst.start_cycle.is_some()) && inst.emit_cycle.is_some()
                            && inst.dest_fu().is_some() && operands && self.qj.is_none()
                            && self.qk.is_none()
                    },
                    None => false,
                },
                None => false,
            },
            RsState::Ready => self.result.is_some() && match &self.inst {
                Some(inst) => inst.left_cycle.is_none() && inst.emit_cycle.is_some()
                    && inst.start_cycle.is_some() && inst.exec_cycle.is_some() && inst.dest_fu().is_some(),
                None => true,
            },
        }
    }

    /// Applies `inst` to the station, which is free, in `cycle`.
    ///
    /// The instruction is refused, and the station left as it was, when it
    /// lacks an operand, names something else than a functional unit as its
    /// destination or, not being a load or a store, as an operand. Otherwise
    /// the station is busy with the instruction, issued in `cycle`, and with
    /// its operands as `spec_apply` says.
    pub fn apply(&mut self, inst: Instruction, fu: &FloatingUnit, cycle: u64) -> (applied: Result<(), SimError>)
        requires
            old(self).state == RsState::Free,
        ensures
            applied is Ok <==> inst.spec_issuable(),
            applied is Ok ==> *final(self) == old(self).spec_apply(inst, fu@, cycle),
            applied is Err ==> *final(self) == *old(self),
            applied matches Err(e) ==> e == SimError::InvariantViolation,
            old(self).wf() ==> final(self).wf(),
    {
        let mut inst = inst;
        if inst.dest_fu().is_none() {
            return Err(SimError::InvariantViolation);
        }
        if inst.op.is_memory() {
            if inst.src1.is_none() || inst.src2.is_none() {
                return Err(SimError::InvariantViolation);
            }
            let second = match fu_ref(&inst.src2) {
                Some(id) => lookup(fu, id),
                None => (share_opt(&inst.src2), None),
            };
            self.addr = share_opt(&inst.src1);
            self.vk = second.0;
            self.qk = second.1;
        } else {
            let first = match fu_ref(&inst.src1) {
                Some(id) => lookup(fu, id),
                None => {
                    return Err(SimError::InvariantViolation);
                },
            };
            let second = match fu_ref(&inst.src2) {
                Some(id) => lookup(fu, id),
                None => {
                    return Err(SimError::InvariantViolation);
                },
            };
            self.vj = first.0;
            self.qj = first.1;
            self.vk = second.0;
            self.qk = second.1;
        }
        inst.emit(cycle);
        self.inst = Some(inst);
        self.state = RsState::Busy;
        Ok(())
    }

    /// Empties the station and sets it free.
    pub fn clear(&mut self)
        ensures
            *final(self) == old(self).spec_clear(),
            final(self).wf(),
    {
        self.inst = None;
        self.state = RsState::Free;
        self.vj = None;
        self.vk = None;
        self.qj = None;
        self.qk = None;
        self.addr = None;
    }

    /// Whether the operands are there that the station's instruction, which
    /// it holds, is calculated from.
    pub fn is_ready(&self) -> (ready: bool)
        requires
            self.inst is Some,
        ensures
            ready == self.spec_is_ready(),
    {
        match &self.inst {
            Some(inst) => if inst.op.is_memory() {
                self.vk.is_some()
            } else {
                self.vj.is_some() && self.vk.is_some()
            },
            None => false,
        }
    }

    /// The destination of the station's instruction.
    #[inline]
    pub fn dest(&self) -> (dest: Option<&Unit>)
        ensures
            dest is Some <==> self.inst is Some,
            dest matches Some(unit) ==> *unit == self.inst->0.dest,
    {
        match &self.inst {
            Some(inst) => Some(&inst.dest),
            None => None,
        }
    }

    /// What the last calculation gave.
    #[inline]
    pub fn result(&self) -> (result: Option<Value>)
        ensures
            result == self.result,
    {
        share_opt(&self.result)
    }

    /// Makes one step of the calculation in `cycle` and reports the state
    /// that the station is in by it: `Ready` for the step that finds the
    /// instruction finished, which leaves the result; `Calculating` for any
    /// other; `Free` for a station without an instruction. The station's own
    /// record of its state is not touched.
    pub fn exec(&mut self, cycle: u64) -> (state: RsState)
        requires
            old(self).spec_finishing() ==> cycle >= 1 && old(self).spec_can_compute(),
        ensures
            *final(self) == old(self).spec_exec(cycle),
            state == old(self).spec_exec_state(),
    {
        let finished = match &mut self.inst {
            Some(inst) => Some((inst.op, inst.exec(cycle))),
            None => None,
        };
        match finished {
            Some((op, true)) => {
                let result = self.outcome(op);
                self.result = Some(result);
                RsState::Ready
            },
            Some((_, false)) => RsState::Calculating,
            None => RsState::Free,
        }
    }

    /// Builds what the operation `op` gives on the station's operands.
    fn outcome(&self, op: Type) -> (value: Value)
        requires
            if op.spec_is_memory() {
                self.addr is Some && self.vk is Some
            } else {
                self.vj is Some && self.vk is Some
            },
        ensures
            value == (if op.spec_is_memory() {
                Rc::new(ValueInner::MemAddr(Rc::new(ValueInner::Op(Type::ADDD, self.addr->0, self.vk->0))))
            } else {
                Rc::new(ValueInner::Op(op, self.vj->0, self.vk->0))
            }),
    {
        match (&self.addr, &self.vj, &self.vk) {
            (Some(addr), _, Some(vk)) if op.is_memory() => {
                let sum = apply_op(Type::ADDD, share(addr), share(vk));
                new(ValueInner::MemAddr(sum))
            },
            (_, Some(vj), Some(vk)) => apply_op(op, share(vj), share(vk)),
            _ => {
                proof {
                    assert(false);
                }
                new(ValueInner::Imm(0))
            },
        }
    }

    /// Takes the instruction out of the station.
    pub fn take(&mut self) -> (inst: Option<Instruction>)
        ensures
            inst == old(self).inst,
            *final(self) == old(self).spec_take(),
    {
        self.inst.take()
    }

    /// Asks the functional-unit table for each operand that the station
    /// waits for.
    pub fn poll(&mut self, fu: &FloatingUnit)
        ensures
            *final(self) == old(self).spec_poll(fu@),
    {
        if let Some(tag) = self.qj {
            if let Some(value) = fu.try_get_value(tag) {
                self.vj = Some(value);
                self.qj = None;
            }
        }
        if let Some(tag) = self.qk {
            if let Some(value) = fu.try_get_value(tag) {
                self.vk = Some(value);
                self.qk = None;
            }
        }
    }

    /// Takes `value` for each operand for which the station, busy or
    /// calculating, waited for the station `tag`.
    pub fn flush(&mut self, tag: RsId, value: &Value)
        ensures
            *final(self) == old(self).spec_flush(tag, *value),
            old(self).wf() ==> final(self).wf(),
    {
        if self.state == RsState::Busy || self.state == RsState::Calculating {
            if self.qj == Some(tag) {
                self.vj = Some(share(value));
                self.qj = None;
            }
            if self.qk == Some(tag) {
                self.vk = Some(share(value));
                self.qk = None;
            }
        }
    }
}

/// The tags, in the pool's order, of the stations among the first `n` of
/// `stations` that this cycle's pass finds finished.
pub open spec fn spec_completing(stations: Seq<RsInner>, n: int) -> Seq<RsId>
    decreases n,
{
    if n <= 0 {
        Seq::empty()
    } else if stations[n - 1].spec_completes() {
        spec_completing(stations, n - 1).push(stations[n - 1].id)
    } else {
        spec_completing(stations, n - 1)
    }
}

/// The tag of the first free station of kind `rs_type` at or after the
/// index `from`.
pub open spec fn spec_free_from(stations: Seq<RsInner>, rs_type: RsType, from: int) -> Option<RsId>
    decreases stations.len() - from,
{
    if from < 0 || from >= stations.len() {
        None
    } else if stations[from].id.0 == rs_type && stations[from].state == RsState::Free {
        Some(stations[from].id)
    } else {
        spec_free_from(stations, rs_type, from + 1)
    }
}

/// The index of the first station at or after the index `from` that has the
/// tag `id`.
pub open spec fn spec_find(stations: Seq<RsInner>, id: RsId, from: int) -> Option<int>
    decreases stations.len() - from,
{
    if from < 0 || from >= stations.len() {
        None
    } else if stations[from].id == id {
        Some(from)
    } else {
        spec_find(stations, id, from + 1)
    }
}

/// The stations of a new pool.
pub open spec fn initial_stations() -> Seq<RsInner> {
    Seq::new(RS_COUNT as nat, |i: int| RsInner::spec_new(RsId::at(i).0, RsId::at(i).1))
}

/// The stations after one cycle's pass over each of them.
pub open spec fn spec_tick_all(stations: Seq<RsInner>, slots: Seq<FloatingUnitInner>, cycle: u64) -> Seq<RsInner> {
    Seq::new(stations.len(), |i: int| stations[i].spec_tick(slots, cycle))
}

/// The stations after the station `tag` has broadcast `value` to each of
/// them.
pub open spec fn spec_flush_all(stations: Seq<RsInner>, tag: RsId, value: Value) -> Seq<RsInner> {
    Seq::new(stations.len(), |i: int| stations[i].spec_flush(tag, value))
}

/// The stations, each of them empty and free.
pub open spec fn spec_clear_all(stations: Seq<RsInner>) -> Seq<RsInner> {
    Seq::new(stations.len(), |i: int| stations[i].spec_clear())
}

/// The stations after the release of the station `id`: that station is empty
/// and free if it was ready, and nothing changes otherwise.
pub open spec fn spec_release(stations: Seq<RsInner>, id: RsId) -> Seq<RsInner> {
    match spec_find(stations, id, 0) {
        Some(i) => if stations[i].state == RsState::Ready {
            stations.update(i, stations[i].spec_clear())
        } else {
            stations
        },
        None => stations,
    }
}

/// A free station of a pool that `spec_free_from` finds stands at the index
/// of its tag, at or after `from`.
pub proof fn lemma_free_from(stations: Seq<RsInner>, rs_type: RsType, from: int)
    requires
        stations_wf(stations),
        0 <= from,
    ensures
        spec_free_from(stations, rs_type, from) matches Some(id) ==> {
            &&& id.in_pool()
            &&& from <= id.slot() < RS_COUNT
            &&& id.0 == rs_type
            &&& stations[id.slot()].id == id
            &&& stations[id.slot()].state == RsState::Free
        },
    decreases stations.len() - from,
{
    RsId::lemma_slot_at();
    if from < stations.len() {
        if stations[from].id.0 == rs_type && stations[from].state == RsState::Free {
        } else {
            lemma_free_from(stations, rs_type, from + 1);
        }
    }
}

/// In a pool that is as `wf` says a station is found at the index of its
/// tag, and nowhere else.
pub proof fn lemma_find_wf(stations: Seq<RsInner>, id: RsId, from: int)
    requires
        stations_wf(stations),
        0 <= from,
    ensures
        spec_find(stations, id, from) == (if id.in_pool() && from <= id.slot() {
            Some(id.slot())
        } else {
            None
        }),
    decreases stations.len() - from,
{
    RsId::lemma_slot_at();
    if from < stations.len() {
        if stations[from].id != id {
            lemma_find_wf(stations, id, from + 1);
        }
    }
}

/// What a cycle's pass keeps of a station that is as `wf` says.
pub proof fn lemma_tick_wf(station: RsInner, slots: Seq<FloatingUnitInner>, cycle: u64)
    requires
        station.wf(),
    ensures
        station.spec_tick(slots, cycle).wf(),
        station.spec_tick(slots, cycle).id == station.id,
{
}

/// The reservation-station pool: three stations for additions, two for
/// multiplications, three load buffers and three store buffers, in this
/// order.
#[derive(Debug)]
pub struct ReservationStation {
    pub inner: Vec<RsInner>,
}

impl View for ReservationStation {
    type V = Seq<RsInner>;

    open spec fn view(&self) -> Seq<RsInner> {
        self.inner@
    }
}

/// Whether `stations` are the stations of a pool: each of them at the index
/// of its tag, and as `RsInner::wf` says.
pub open spec fn stations_wf(stations: Seq<RsInner>) -> bool {
    &&& stations.len() == RS_COUNT
    &&& forall|i: int| 0 <= i < RS_COUNT ==> (#[trigger] stations[i]).id == RsId::at(i)
    &&& forall|i: int| 0 <= i < RS_COUNT ==> (#[trigger] stations[i]).wf()
}

impl ReservationStation {
    /// Whether the pool has its stations, each at the index of its tag and
    /// as `RsInner::wf` says.
    pub open spec fn wf(&self) -> bool {
        stations_wf(self@)
    }

    /// Whether the pool is as `wf` says.
    pub fn well_formed(&self) -> (ok: bool)
        ensures
            ok == self.wf(),
    {
        if self.inner.len() != RS_COUNT {
            return false;
        }
        let mut i: usize = 0;
        while i < RS_COUNT
            invariant
                i <= RS_COUNT,
                self@.len() == RS_COUNT,
                forall|j: int| 0 <= j < i ==> (#[trigger] self@[j]).id == RsId::at(j),
                forall|j: int| 0 <= j < i ==> (#[trigger] self@[j]).wf(),
            decreases RS_COUNT - i,
        {
            proof {
                RsId::lemma_slot_at();
            }
            let at = self.inner[i].id.position();
            let here = match at {
                Some(n) => n == i,
                None => false,
            };
            if !here || !self.inner[i].well_formed() {
                assert(!(self@[i as int].id == RsId::at(i as int) && self@[i as int].wf()));
                return false;
            }
            i = i + 1;
        }
        true
    }

    /// A pool of free stations.
    pub fn new() -> (pool: ReservationStation)
        ensures
            pool@ == initial_stations(),
            pool.wf(),
    {
        let mut inner: Vec<RsInner> = Vec::new();
        let mut i: u8 = 0;
        while i < 3
            invariant
                i <= 3,
                inner@.len() == i,
                forall|j: int| 0 <= j < i ==> inner@[j] == initial_stations()[j],
            decreases 3 - i,
        {
            inner.push(RsInner::new(RsType::ADD, i));
            i = i + 1;
        }
        i = 0;
        while i < 2
            invariant
                i <= 2,
                inner@.len() == 3 + i,
                forall|j: int| 0 <= j < 3 + i ==> inner@[j] == initial_stations()[j],
            decreases 2 - i,
        {
            inner.push(RsInner::new(RsType::MULT, i));
            i = i + 1;
        }
        i = 0;
        while i < 3
            invariant
                i <= 3,
                inner@.len() == 5 + i,
                forall|j: int| 0 <= j < 5 + i ==> inner@[j] == initial_stations()[j],
            decreases 3 - i,
        {
            inner.push(RsInner::new(RsType::LOAD, i));
            i = i + 1;
        }
        i = 0;
        while i < 3
            invariant
                i <= 3,
                inner@.len() == 8 + i,
                forall|j: int| 0 <= j < 8 + i ==> inner@[j] == initial_stations()[j],
            decreases 3 - i,
        {
            inner.push(RsInner::new(RsType::STORE, i));
            i = i + 1;
        }
        assert(inner@ =~= initial_stations());
        ReservationStation { inner }
    }

    /// The first free station of kind `rs_type`, if there is one.
    pub fn get_free(&self, rs_type: RsType) -> (free: Option<RsId>)
        ensures
            free == spec_free_from(self@, rs_type, 0),
    {
        let mut i: usize = 0;
        while i < self.inner.len()
            invariant
                i <= self.inner.len(),
                spec_free_from(self@, rs_type, 0) == spec_free_from(self@, rs_type, i as int),
            decreases self.inner.len() - i,
        {
            if self.inner[i].id.0 == rs_type && self.inner[i].state == RsState::Free {
                return Some(self.inner[i].id);
            }
            i = i + 1;
        }
        None
    }

    /// The index of the first station with the tag `id`, if the pool has
    /// one.
    pub fn find(&self, id: RsId) -> (found: Option<usize>)
        ensures
            found is Some <==> spec_find(self@, id, 0) is Some,
            found matches Some(i) ==> spec_find(self@, id, 0) == Some(i as int) && i < self@.len()
                && self@[i as int].id == id,
            self.wf() ==> (found is Some <==> id.in_pool()),
            self.wf() ==> (found matches Some(i) ==> i == id.slot()),
    {
        proof {
            if self.wf() {
                lemma_find_wf(self@, id, 0);
            }
        }
        let mut i: usize = 0;
        while i < self.inner.len()
            invariant
                i <= self.inner.len(),
                spec_find(self@, id, 0) == spec_find(self@, id, i as int),
            decreases self.inner.len() - i,
        {
            if self.inner[i].id == id {
                return Some(i);
            }
            i = i + 1;
        }
        None
    }

    /// The station with the tag `id`, if the pool has one: the first of
    /// them, which is the only one in a pool that is as `wf` says.
    #[inline]
    pub fn get(&self, id: RsId) -> (station: Option<&RsInner>)
        ensures
            station is Some <==> spec_find(self@, id, 0) is Some,
            station matches Some(s) ==> *s == self@[spec_find(self@, id, 0)->0] && s.id == id,
            self.wf() ==> (station is Some <==> id.in_pool()),
            self.wf() ==> (station matches Some(s) ==> *s == self@[id.slot()]),
    {
        match self.find(id) {
            Some(i) => Some(&self.inner[i]),
            None => None,
        }
    }

    /// The station with the tag `id`, if the pool has one, to be changed in
    /// place: when the borrow ends, the pool holds at the station's index
    /// what the caller has left there.
    #[inline]
    pub fn get_mut(&mut self, id: RsId) -> (station: Option<&mut RsInner>)
        ensures
            station is Some <==> spec_find(old(self)@, id, 0) is Some,
            station matches Some(s) ==> *s == old(self)@[spec_find(old(self)@, id, 0)->0] && s.id == id
                && final(self)@ == old(self)@.update(spec_find(old(self)@, id, 0)->0, *final(s)),
            station is None ==> final(self)@ == old(self)@,
            old(self).wf() ==> (station is Some <==> id.in_pool()),
            old(self).wf() ==> (station matches Some(s) ==> spec_find(old(self)@, id, 0) == Some(id.slot())),
    {
        match self.find(id) {
            Some(i) => Some(&mut self.inner[i]),
            None => None,
        }
    }

    /// Empties every station and sets it free.
    pub fn clear(&mut self)
        ensures
            final(self)@ == spec_clear_all(old(self)@),
            old(self).wf() ==> final(self).wf(),
    {
        let n: usize = self.inner.len();
        let mut i: usize = 0;
        while i < n
            invariant
                i <= n,
                n == old(self)@.len(),
                self@.len() == n,
                forall|j: int| 0 <= j < i ==> self@[j] == old(self)@[j].spec_clear(),
                forall|j: int| i <= j < n ==> self@[j] == old(self)@[j],
            decreases n - i,
        {
            self.inner[i].clear();
            i = i + 1;
        }
        assert(self@ =~= spec_clear_all(old(self)@));
    }

    /// One cycle's pass over the pool, made in `cycle`.
    ///
    /// Every busy station whose operands are there begins to calculate;
    /// every other busy station asks `fu` for the operands it waits for.
    /// Every calculating station makes one step. The stations that this
    /// finds finished are ready, and their tags are returned in the pool's
    /// order: they are the ones to write back.
    pub fn exec(&mut self, fu: &FloatingUnit, cycle: u64) -> (ready: Vec<RsId>)
        requires
            old(self).wf(),
            cycle >= 1,
        ensures
            final(self)@ == spec_tick_all(old(self)@, fu@, cycle),
            ready@ == spec_completing(old(self)@, RS_COUNT as int),
            final(self).wf(),
    {
        let mut ready: Vec<RsId> = Vec::new();
        let n: usize = self.inner.len();
        let mut i: usize = 0;
        while i < n
            invariant
                i <= n,
                n == RS_COUNT,
                cycle >= 1,
                old(self).wf(),
                self@.len() == n,
                forall|j: int| 0 <= j < i ==> self@[j] == old(self)@[j].spec_tick(fu@, cycle),
                forall|j: int| i <= j < n ==> self@[j] == old(self)@[j],
                ready@ == spec_completing(old(self)@, i as int),
            decreases n - i,
        {
            assert(old(self)@[i as int].wf());
            if self.inner[i].state == RsState::Busy {
                if self.inner[i].is_ready() {
                    self.inner[i].state = RsState::Calculating;
                } else {
                    self.inner[i].poll(fu);
                }
            } else if self.inner[i].state == RsState::Calculating {
                match self.inner[i].exec(cycle) {
                    RsState::Ready => {
                        ready.push(self.inner[i].id);
                        self.inner[i].state = RsState::Ready;
                    },
                    _ => {},
                }
            }
            i = i + 1;
        }
        assert(self@ =~= spec_tick_all(old(self)@, fu@, cycle));
        assert forall|j: int| 0 <= j < RS_COUNT implies (#[trigger] self@[j]).wf() && self@[j].id
            == RsId::at(j) by {
            lemma_tick_wf(old(self)@[j], fu@, cycle);
        }
        ready
    }

    /// Broadcasts `value` as the result of the station `tag`: every busy or
    /// calculating station takes it for each operand for which it waited
    /// for `tag`.
    pub fn flush(&mut self, tag: RsId, value: Value)
        ensures
            final(self)@ == spec_flush_all(old(self)@, tag, value),
            old(self).wf() ==> final(self).wf(),
    {
        let n: usize = self.inner.len();
        let mut i: usize = 0;
        while i < n
            invariant
                i <= n,
                n == old(self)@.len(),
                self@.len() == n,
                forall|j: int| 0 <= j < i ==> self@[j] == old(self)@[j].spec_flush(tag, value),
                forall|j: int| i <= j < n ==> self@[j] == old(self)@[j],
            decreases n - i,
        {
            self.inner[i].flush(tag, &value);
            i = i + 1;
        }
        assert(self@ =~= spec_flush_all(old(self)@, tag, value));
    }

    /// Releases the station `id`: if it is ready, it is emptied and set
    /// free.
    pub fn release(&mut self, id: RsId)
        ensures
            final(self)@ == spec_release(old(self)@, id),
            old(self).wf() ==> final(self).wf(),
    {
        if let Some(i) = self.find(id) {
            if self.inner[i].state == RsState::Ready {
                self.inner[i].clear();
            }
        }
        assert(self@ =~= spec_release(old(self)@, id));
    }
}

} // verus!
