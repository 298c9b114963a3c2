//! Instructions and their lifecycle: issue, start of the calculation, end of
//! the calculation, write-back.

use vstd::prelude::*;

use crate::units::fu::FuId;
use crate::units::rs::RsType;
use crate::units::Unit;
use crate::value::{fu_ref, share_opt, spec_fu_ref, Value};

verus! {

/// The operation of an instruction.
#[allow(clippy::upper_case_acronyms)]
#[derive(Debug, Clone, Copy, Eq, Hash, PartialEq, Structural)]
pub enum Type {
    ADDD,
    SUBD,
    MULTD,
    DIVD,
    LD,
    SD,
}

impl Type {
    /// The number of cycles the operation calculates for.
    pub open spec fn spec_latency(self) -> u64 {
        match self {
            Type::ADDD | Type::SUBD | Type::LD | Type::SD => 2,
            Type::MULTD => 10,
            Type::DIVD => 20,
        }
    }

    /// The kind of station that takes the operation.
    pub open spec fn spec_kind(self) -> RsType {
        match self {
            Type::ADDD | Type::SUBD => RsType::ADD,
            Type::MULTD | Type::DIVD => RsType::MULT,
            Type::LD => RsType::LOAD,
            Type::SD => RsType::STORE,
        }
    }

    /// Whether the operation moves data between a register and memory.
    pub open spec fn spec_is_memory(self) -> bool {
        self == Type::LD || self == Type::SD
    }

    /// The sign that stands for the operation in a value.
    pub open spec fn spec_op_str(self) -> Seq<char> {
        match self {
            Type::ADDD => seq!['+'],
            Type::SUBD => seq!['-'],
            Type::MULTD => seq!['*'],
            Type::DIVD => seq!['/'],
            _ => Seq::empty(),
        }
    }

    /// The number of cycles the operation calculates for.
    pub fn latency(self) -> (cycles: u64)
        ensures
            cycles == self.spec_latency(),
    {
        match self {
            Type::ADDD | Type::SUBD | Type::LD | Type::SD => 2,
            Type::MULTD => 10,
            Type::DIVD => 20,
        }
    }

    /// The kind of station that takes the operation.
    pub fn kind(self) -> (kind: RsType)
        ensures
            kind == self.spec_kind(),
    {
        match self {
            Type::ADDD | Type::SUBD => RsType::ADD,
            Type::MULTD | Type::DIVD => RsType::MULT,
            Type::LD => RsType::LOAD,
            Type::SD => RsType::STORE,
        }
    }

    /// Whether the operation moves data between a register and memory.
    pub fn is_memory(self) -> (memory: bool)
        ensures
            memory == self.spec_is_memory(),
    {
        match self {
            Type::LD | Type::SD => true,
            _ => false,
        }
    }

    /// The sign that stands for the operation in a value; empty for loads
    /// and stores.
    pub fn op_str(&self) -> (sign: &'static str)
        ensures
            sign@ == self.spec_op_str(),
    {
        proof {
            reveal_strlit("+");
            reveal_strlit("-");
            reveal_strlit("*");
            reveal_strlit("/");
            reveal_strlit("");
        }
        match self {
            Type::ADDD => {
                assert("+"@ =~= seq!['+']);
                "+"
            },
            Type::SUBD => {
                assert("-"@ =~= seq!['-']);
                "-"
            },
            Type::MULTD => {
                assert("*"@ =~= seq!['*']);
                "*"
            },
            Type::DIVD => {
                assert("/"@ =~= seq!['/']);
                "/"
            },
            _ => {
                assert(""@ =~= Seq::<char>::empty());
                ""
            },
        }
    }
}

/// An instruction with the cycles of its lifecycle.
#[derive(Debug, PartialEq)]
pub struct Instruction {
    pub op: Type,
    pub dest: Unit,
    pub src1: Option<Value>,
    pub src2: Option<Value>,
    /// The cycle in which the instruction was issued.
    pub emit_cycle: Option<u64>,
    /// The first cycle of the calculation.
    pub start_cycle: Option<u64>,
    /// The last cycle of the calculation.
    pub exec_cycle: Option<u64>,
    /// The cycle of the write-back.
    pub write_cycle: Option<u64>,
    /// The number of cycles left to finish the instruction.
    pub left_cycle: Option<u64>,
}

impl Instruction {
    /// The instruction `op` with the destination `dest`, without operands
    /// and not yet issued.
    pub open spec fn spec_new(op: Type, dest: Unit) -> Instruction {
        Instruction {
            op,
            dest,
            src1: None,
            src2: None,
            emit_cycle: None,
            start_cycle: None,
            exec_cycle: None,
            write_cycle: None,
            left_cycle: None,
        }
    }

    /// The functional unit that the instruction names as its destination.
    pub open spec fn spec_dest_fu(self) -> Option<FuId> {
        match self.dest {
            Unit::Fu(id) => Some(id),
            _ => None,
        }
    }

    /// Whether the instruction has the operands that a station needs: a
    /// load or a store has both of them, any other instruction names a
    /// functional unit with each. A functional unit that an operand names is
    /// one of the table's.
    pub open spec fn spec_operands_ok(self) -> bool {
        if self.op.spec_is_memory() {
            &&& self.src1 is Some
            &&& self.src2 is Some
            &&& spec_fu_ref(self.src2) matches Some(id) ==> id.wf()
        } else {
            &&& spec_fu_ref(self.src1) matches Some(id) && id.wf()
            &&& spec_fu_ref(self.src2) matches Some(id) && id.wf()
        }
    }

    /// Whether the instruction can be issued: it has the operands that a
    /// station needs and names a functional unit of the table as its
    /// destination.
    pub open spec fn spec_issuable(self) -> bool {
        &&& self.spec_operands_ok()
        &&& self.spec_dest_fu() matches Some(id) && id.wf()
    }

    /// The instruction after its issue in `cycle`.
    pub open spec fn spec_emit(self, cycle: u64) -> Instruction {
        Instruction { emit_cycle: Some(cycle), left_cycle: Some(self.op.spec_latency()), ..self }
    }

    /// Whether the countdown has run out, so that the next step of the
    /// calculation finds the instruction finished.
    pub open spec fn spec_finishing(self) -> bool {
        self.left_cycle == Some(0u64)
    }

    /// The instruction after one more step of its calculation, made in
    /// `cycle`.
    pub open spec fn spec_exec(self, cycle: u64) -> Instruction {
        match self.left_cycle {
            Some(left) => {
                if left == 0 {
                    Instruction { left_cycle: None, exec_cycle: Some((cycle - 1) as u64), ..self }
                } else if left == self.op.spec_latency() {
                    Instruction {
                        start_cycle: Some(cycle),
                        left_cycle: Some((left - 1) as u64),
                        ..self
                    }
                } else {
                    Instruction { left_cycle: Some((left - 1) as u64), ..self }
                }
            },
            None => self,
        }
    }

    /// The instruction after its write-back in `cycle`.
    pub open spec fn spec_write(self, cycle: u64) -> Instruction {
        Instruction { write_cycle: Some(cycle), ..self }
    }

    /// The instruction `op` with the destination `dest`, without operands
    /// and not yet issued.
    pub fn new(op: Type, dest: Unit) -> (inst: Instruction)
        ensures
            inst == Instruction::spec_new(op, dest),
    {
        Instruction {
            op,
            dest,
            src1: None,
            src2: None,
            emit_cycle: None,
            start_cycle: None,
            exec_cycle: None,
            write_cycle: None,
            left_cycle: None,
        }
    }

    /// The functional unit that the instruction names as its destination.
    pub fn dest_fu(&self) -> (id: Option<FuId>)
        ensures
            id == self.spec_dest_fu(),
            id matches Some(f) ==> f.wf(),
    {
        match self.dest {
            Unit::Fu(id) => {
                let _ = id.index();
                Some(id)
            },
            _ => None,
        }
    }

    /// Whether the instruction has the operands that a station needs.
    pub fn operands_ok(&self) -> (ok: bool)
        ensures
            ok == self.spec_operands_ok(),
    {
        if self.op.is_memory() {
            let _ = fu_ref(&self.src2);
            self.src1.is_some() && self.src2.is_some()
        } else {
            fu_ref(&self.src1).is_some() && fu_ref(&self.src2).is_some()
        }
    }

    /// Whether the instruction can be issued.
    pub fn issuable(&self) -> (ok: bool)
        ensures
            ok == self.spec_issuable(),
    {
        self.operands_ok() && self.dest_fu().is_some()
    }

    /// Emit the instruction: stamp the cycle of its issue and wind up the
    /// countdown to the operation's latency.
    pub fn emit(&mut self, cycle: u64)
        ensures
            *final(self) == old(self).spec_emit(cycle),
    {
        self.emit_cycle = Some(cycle);
        self.left_cycle = Some(self.op.latency());
    }

    /// Execute the instruction for one cycle.
    ///
    /// While the countdown runs it goes down by one, and the first step
    /// stamps the start of the calculation. Once it has run out, the call
    /// reports the instruction as finished and stamps the cycle before
    /// `cycle` as the last of the calculation. An instruction that was not
    /// issued, or that has finished, is left as it is.
    pub fn exec(&mut self, cycle: u64) -> (finished: bool)
        requires
            old(self).spec_finishing() ==> cycle >= 1,
        ensures
            *final(self) == old(self).spec_exec(cycle),
            finished == old(self).spec_finishing(),
    {
        if let Some(left) = self.left_cycle {
            if left == 0 {
                self.left_cycle = None;
                self.exec_cycle = Some(cycle - 1);
                true
            } else if left == self.op.latency() {
                self.start_cycle = Some(cycle);
                self.left_cycle = Some(left - 1);
                false
            } else {
                self.left_cycle = Some(left - 1);
                false
            }
        } else {
            false
        }
    }

    /// Stamp the cycle of the write-back.
    #[inline]
    pub fn write(&mut self, cycle: u64)
        ensures
            *final(self) == old(self).spec_write(cycle),
    {
        self.write_cycle = Some(cycle);
    }
}

impl Clone for Instruction {
    /// A copy of the instruction that shares its operands.
    fn clone(&self) -> (copy: Self)
        ensures
            copy == *self,
    {
        Instruction {
            op: self.op,
            dest: self.dest,
            src1: share_opt(&self.src1),
            src2: share_opt(&self.src2),
            emit_cycle: self.emit_cycle,
            start_cycle: self.start_cycle,
            exec_cycle: self.exec_cycle,
            write_cycle: self.write_cycle,
            left_cycle: self.left_cycle,
        }
    }
}

impl From<Type> for RsType {
    /// The kind of station that takes the operation.
    fn from(t: Type) -> (kind: RsType) {
        t.kind()
    }
}

impl vstd::std_specs::convert::FromSpecImpl<Type> for RsType {
    open spec fn obeys_from_spec() -> bool {
        true
    }

    open spec fn from_spec(t: Type) -> RsType {
        t.spec_kind()
    }
}

} // verus!
