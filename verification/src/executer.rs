//! The executer: the driver that takes a program through the stations, one
//! cycle after another.
//!
//! A cycle has five steps, in this order. *Issue*: the instruction at the
//! head of the backlog goes to a free station of its kind, if there is one.
//! *Execute*: every station makes its pass. *Write-back*: every station that
//! is ready hands its result to the functional-unit table and its instruction
//! to the list of the completed ones. *Broadcast*: every station that waits
//! for one of these results takes it. *Release*: once the cycle's state has
//! been looked at, the ready stations are set free.

use std::collections::VecDeque;
use vstd::prelude::*;

use crate::accounting::{
    law_run_accounts, lemma_added_accounted, lemma_cycle_accounted, lemma_initial_accounted,
    lemma_release_accounted,
};
use crate::coherence::{lemma_cycle_inv, lemma_initial_inv};
use crate::error::SimError;
use crate::inst::{Instruction, Type};
use crate::laws::law_run_keeps_inv;
use crate::units::fu::{initial_slots, spec_clear, spec_mark_busy, FloatingUnit, FloatingUnitInner, FU_SIZE};
use crate::units::rs::{
    initial_stations, lemma_free_from, spec_clear_all, spec_completing, spec_free_from, spec_tick_all,
    stations_wf, ReservationStation, RsId, RsInner, RsState, RS_COUNT,
};
use crate::value::{share, Value};

verus! {

/// The cycle after which a run that has not completed is given up.
pub const CYCLE_LIMIT: u64 = 1000;

/// The executer.
#[derive(Debug)]
pub struct Executer {
    pub rs: ReservationStation,
    pub fu: FloatingUnit,
    /// The backlog: the instructions that wait to be issued, in program
    /// order.
    pub insts: VecDeque<Instruction>,
    /// The instructions that have written back, in the order in which they
    /// did.
    pub insts_comp: Vec<Instruction>,
    /// The number of instructions that were handed to the executer.
    pub inst_count: usize,
    /// The number of the last cycle that was run.
    pub cycle: u64,
    /// Whether every instruction has written back.
    pub finished: bool,
}

/// The state of an executer as a mathematical value.
pub struct Machine {
    pub stations: Seq<RsInner>,
    pub slots: Seq<FloatingUnitInner>,
    pub backlog: Seq<Instruction>,
    pub completed: Seq<Instruction>,
    pub inst_count: nat,
    pub cycle: u64,
    pub finished: bool,
}

impl View for Executer {
    type V = Machine;

    open spec fn view(&self) -> Machine {
        Machine {
            stations: self.rs@,
            slots: self.fu@,
            backlog: self.insts@,
            completed: self.insts_comp@,
            inst_count: self.inst_count as nat,
            cycle: self.cycle,
            finished: self.finished,
        }
    }
}

/// The value that the station `tag` broadcasts in this cycle, if `tag` names
/// one of the first `n` stations of the pool and that station writes back.
pub open spec fn spec_tag_value(stations: Seq<RsInner>, tag: Option<RsId>, n: int) -> Option<Value> {
    match tag {
        Some(t) => if t.in_pool() && t.slot() < n && stations[t.slot()].spec_writes() {
            stations[t.slot()].result
        } else {
            None
        },
        None => None,
    }
}

/// The station `station` after the broadcasts of those among the first `n`
/// of `stations` that write back: a busy or calculating station takes, for
/// each operand that it waits for, the result of the station it waits for,
/// if that one broadcasts.
pub open spec fn spec_hear(station: RsInner, stations: Seq<RsInner>, n: int) -> RsInner {
    if station.in_flight() {
        let first = match spec_tag_value(stations, station.qj, n) {
            Some(v) => (Some(v), None),
            None => (station.vj, station.qj),
        };
        let second = match spec_tag_value(stations, station.qk, n) {
            Some(v) => (Some(v), None),
            None => (station.vk, station.qk),
        };
        RsInner { vj: first.0, qj: first.1, vk: second.0, qk: second.1, ..station }
    } else {
        station
    }
}

/// The station at the index `i` after write-back and broadcast: one that
/// writes back gives its instruction away, any other hears the broadcasts.
pub open spec fn spec_settle(stations: Seq<RsInner>, i: int) -> RsInner {
    if stations[i].spec_writes() {
        stations[i].spec_take()
    } else {
        spec_hear(stations[i], stations, RS_COUNT as int)
    }
}

/// The slot `slot`, which has the index `f`, after the write-back of the
/// first `n` stations: it takes the result of the station that it waits for,
/// if that one is among them and writes back an instruction with this slot as
/// its destination.
pub open spec fn spec_slot_written(stations: Seq<RsInner>, slot: FloatingUnitInner, f: int, n: int) -> FloatingUnitInner {
    match spec_tag_value(stations, slot.qi, n) {
        Some(v) => match stations[slot.qi->0.slot()].inst->0.spec_dest_fu() {
            Some(d) => if d.slot() == f {
                FloatingUnitInner { qi: slot.qi, value: Some(v) }
            } else {
                slot
            },
            None => slot,
        },
        None => slot,
    }
}

/// The instructions, with `cycle` as the cycle of their write-back, of the
/// stations among the first `n` of `stations` that write back, in the pool's
/// order.
pub open spec fn spec_written(stations: Seq<RsInner>, cycle: u64, n: int) -> Seq<Instruction>
    decreases n,
{
    if n <= 0 {
        Seq::empty()
    } else if stations[n - 1].spec_writes() {
        spec_written(stations, cycle, n - 1).push(stations[n - 1].inst->0.spec_write(cycle))
    } else {
        spec_written(stations, cycle, n - 1)
    }
}

impl Machine {
    /// The state of a new executer.
    pub open spec fn initial() -> Machine {
        Machine {
            stations: initial_stations(),
            slots: initial_slots(),
            backlog: Seq::empty(),
            completed: Seq::empty(),
            inst_count: 0,
            cycle: 0,
            finished: false,
        }
    }

    /// Whether the state has the pool's stations, as `RsInner::wf` says, and
    /// the table's slots.
    pub open spec fn wf(self) -> bool {
        &&& stations_wf(self.stations)
        &&& self.slots.len() == FU_SIZE
    }

    /// The station that the head of the backlog can go to in this cycle.
    pub open spec fn spec_target(self) -> Option<RsId> {
        if self.backlog.len() == 0 {
            None
        } else {
            spec_free_from(self.stations, self.backlog[0].op.spec_kind(), 0)
        }
    }

    /// Whether the issue fails: there is a station for the head of the
    /// backlog, and that instruction cannot be issued.
    pub open spec fn spec_violation(self) -> bool {
        self.spec_target() is Some && !self.backlog[0].spec_issuable()
    }

    /// The state after the issue.
    ///
    /// Where there is a station for the head of the backlog, the
    /// instruction leaves the backlog and is applied to that station, which
    /// looks its operands up in the table as it stands; then, unless the
    /// instruction is a store, its destination waits for the station.
    /// Otherwise nothing changes.
    pub open spec fn spec_issue(self) -> Machine {
        match self.spec_target() {
            Some(id) => {
                let inst = self.backlog[0];
                let station = self.stations[id.slot()].spec_apply(inst, self.slots, self.cycle);
                Machine {
                    stations: self.stations.update(id.slot(), station),
                    slots: if inst.op == Type::SD {
                        self.slots
                    } else {
                        spec_mark_busy(self.slots, inst.spec_dest_fu()->0, id)
                    },
                    backlog: self.backlog.skip(1),
                    ..self
                }
            },
            None => self,
        }
    }

    /// The state after the pass over the stations.
    pub open spec fn spec_execute(self) -> Machine {
        Machine { stations: spec_tick_all(self.stations, self.slots, self.cycle), ..self }
    }

    /// The state after write-back and broadcast.
    pub open spec fn spec_write(self) -> Machine {
        Machine {
            stations: Seq::new(self.stations.len(), |i: int| spec_settle(self.stations, i)),
            slots: Seq::new(
                self.slots.len(),
                |f: int| spec_slot_written(self.stations, self.slots[f], f, RS_COUNT as int),
            ),
            completed: self.completed + spec_written(self.stations, self.cycle, RS_COUNT as int),
            ..self
        }
    }

    /// The state at the beginning of the next cycle: the cycle's number has
    /// gone up by one.
    pub open spec fn spec_begin(self) -> Machine {
        Machine { cycle: (self.cycle + 1) as u64, ..self }
    }

    /// The state after the next cycle, up to the point at which the state is
    /// looked at: the cycle's number goes up by one; then come issue,
    /// execute, write-back and broadcast; the run has finished if as many
    /// instructions have written back as were handed over.
    pub open spec fn spec_step(self) -> Machine {
        let done = self.spec_begin().spec_issue().spec_execute().spec_write();
        Machine { finished: done.completed.len() == done.inst_count, ..done }
    }

    /// The tags of the stations that the next cycle finds finished, in the
    /// pool's order.
    pub open spec fn spec_step_ready(self) -> Seq<RsId> {
        spec_completing(self.spec_begin().spec_issue().stations, RS_COUNT as int)
    }

    /// The state after the release: every ready station is empty and free.
    pub open spec fn spec_release(self) -> Machine {
        Machine {
            stations: Seq::new(
                self.stations.len(),
                |i: int|
                    if self.stations[i].state == RsState::Ready {
                        self.stations[i].spec_clear()
                    } else {
                        self.stations[i]
                    },
            ),
            ..self
        }
    }

    /// The state after a whole cycle: the step and the release.
    pub open spec fn spec_cycle(self) -> Machine {
        self.spec_step().spec_release()
    }

    /// The state after `n` whole cycles.
    pub open spec fn spec_cycles(self, n: nat) -> Machine
        decreases n,
    {
        if n == 0 {
            self
        } else {
            self.spec_cycles((n - 1) as nat).spec_cycle()
        }
    }

    /// How many more cycles a run may begin from this state before it is
    /// given up.
    pub open spec fn spec_cycles_left(self) -> nat {
        if self.cycle <= CYCLE_LIMIT {
            (CYCLE_LIMIT + 1 - self.cycle) as nat
        } else {
            0
        }
    }

    /// The state in which a run from this state ends, and how it ends.
    ///
    /// A run goes on cycle by cycle until it has finished. It ends with
    /// `InvariantViolation`, in the state before the cycle, when an issue
    /// fails, and with `SimulationDivergence` after a cycle whose number is
    /// above the limit and that has not finished the run; a run whose
    /// counter cannot go up any more ends so before the cycle.
    pub open spec fn spec_run(self) -> (Machine, Result<(), SimError>)
        decreases self.spec_cycles_left(),
    {
        if self.finished {
            (self, Ok(()))
        } else if self.cycle == u64::MAX {
            (self, Err(SimError::SimulationDivergence))
        } else if self.spec_begin().spec_violation() {
            (self, Err(SimError::InvariantViolation))
        } else {
            let next = self.spec_cycle();
            if next.finished {
                (next, Ok(()))
            } else if next.cycle > CYCLE_LIMIT {
                (next, Err(SimError::SimulationDivergence))
            } else {
                next.spec_run()
            }
        }
    }
}

/// The cycle by which a table of instructions goes: the cycle of the
/// instruction's issue, or 0 if it was not issued.
pub open spec fn spec_issue_key(inst: Instruction) -> u64 {
    match inst.emit_cycle {
        Some(cycle) => cycle,
        None => 0,
    }
}

/// Whether no instruction of `rows` stands before one that was issued in an
/// earlier cycle.
pub open spec fn spec_in_issue_order(rows: Seq<Instruction>) -> bool {
    forall|i: int, j: int| 0 <= i <= j < rows.len() ==> spec_issue_key(rows[i]) <= spec_issue_key(rows[j])
}

/// The place of an instruction with the key `key` in the table `rows`, at
/// or after `from`: behind every instruction that was not issued later.
pub open spec fn spec_place(rows: Seq<Instruction>, key: u64, from: int) -> int
    decreases rows.len() - from,
{
    if 0 <= from < rows.len() && spec_issue_key(rows[from]) <= key {
        spec_place(rows, key, from + 1)
    } else {
        from
    }
}

/// The table of the first `n` of the instructions `done`: each of them, in
/// their order, put in its place among those before it. Instructions that were
/// issued in the same cycle keep their order.
pub open spec fn spec_table(done: Seq<Instruction>, n: int) -> Seq<Instruction>
    decreases n,
{
    if n <= 0 {
        Seq::empty()
    } else {
        let rows = spec_table(done, n - 1);
        rows.insert(spec_place(rows, spec_issue_key(done[n - 1]), 0), done[n - 1])
    }
}

/// The cycle by which a table of instructions goes.
pub fn issue_key(inst: &Instruction) -> (key: u64)
    ensures
        key == spec_issue_key(*inst),
{
    match inst.emit_cycle {
        Some(cycle) => cycle,
        None => 0,
    }
}

/// The broadcasts of the stations among the first `n` of `stations` that
/// write back, in the pool's order: the station's tag with its result.
spec fn spec_broadcasts(stations: Seq<RsInner>, n: int) -> Seq<(RsId, Value)>
    decreases n,
{
    if n <= 0 {
        Seq::empty()
    } else if stations[n - 1].spec_writes() {
        spec_broadcasts(stations, n - 1).push((stations[n - 1].id, stations[n - 1].result->0))
    } else {
        spec_broadcasts(stations, n - 1)
    }
}

/// The station `station` after the first `n` broadcasts of `queue`, one
/// after the other.
spec fn spec_flush_list(station: RsInner, queue: Seq<(RsId, Value)>, n: int) -> RsInner
    decreases n,
{
    if n <= 0 {
        station
    } else {
        spec_flush_list(station, queue, n - 1).spec_flush(queue[n - 1].0, queue[n - 1].1)
    }
}

/// The first broadcasts of a queue do to a station what they do when more
/// follow.
proof fn lemma_flush_list_prefix(station: RsInner, queue: Seq<(RsId, Value)>, more: (RsId, Value), n: int)
    requires
        0 <= n <= queue.len(),
    ensures
        spec_flush_list(station, queue.push(more), n) == spec_flush_list(station, queue, n),
    decreases n,
{
    if n > 0 {
        lemma_flush_list_prefix(station, queue, more, n - 1);
    }
}

/// A station that is neither busy nor calculating hears nothing.
proof fn lemma_flush_list_idle(station: RsInner, queue: Seq<(RsId, Value)>, n: int)
    requires
        !station.in_flight(),
    ensures
        spec_flush_list(station, queue, n) == station,
    decreases n,
{
    if n > 0 {
        lemma_flush_list_idle(station, queue, n - 1);
    }
}

/// To take the broadcasts one after the other is to hear them all at once.
proof fn lemma_flush_list_hears(station: RsInner, stations: Seq<RsInner>, n: int)
    requires
        stations_wf(stations),
        0 <= n <= RS_COUNT,
    ensures
        spec_flush_list(
            station,
            spec_broadcasts(stations, n),
            spec_broadcasts(stations, n).len() as int,
        ) == spec_hear(station, stations, n),
    decreases n,
{
    RsId::lemma_slot_at();
    if n > 0 {
        lemma_flush_list_hears(station, stations, n - 1);
        let before = spec_broadcasts(stations, n - 1);
        if stations[n - 1].spec_writes() {
            let more = (stations[n - 1].id, stations[n - 1].result->0);
            lemma_flush_list_prefix(station, before, more, before.len() as int);
            assert(stations[n - 1].wf());
            assert(stations[n - 1].id == RsId::at(n - 1));
        }
    }
}

impl Executer {
    /// An executer with a new pool and a new table, without instructions, at
    /// cycle 0.
    pub fn new() -> (executer: Executer)
        ensures
            executer@ == Machine::initial(),
            executer@.wf(),
            executer@.inv(),
            executer@.accounted(),
    {
        proof {
            lemma_initial_inv();
            lemma_initial_accounted();
        }
        Executer {
            rs: ReservationStation::new(),
            fu: FloatingUnit::new(),
            insts: VecDeque::new(),
            insts_comp: Vec::new(),
            inst_count: 0,
            cycle: 0,
            finished: false,
        }
    }

    /// Add instructions to the executer: they go to the end of the backlog,
    /// in their order, and are counted.
    #[inline]
    pub fn add_insts(&mut self, inst: &[Instruction])
        requires
            old(self).inst_count + inst@.len() <= usize::MAX,
        ensures
            final(self)@ == (Machine {
                backlog: old(self)@.backlog + inst@,
                inst_count: old(self)@.inst_count + inst@.len(),
                ..old(self)@
            }),
            old(self)@.wf() ==> final(self)@.wf(),
            old(self)@.inv() ==> final(self)@.inv(),
            old(self)@.accounted() ==> final(self)@.accounted(),
    {
        proof {
            if old(self)@.accounted() {
                lemma_added_accounted(old(self)@, inst@);
            }
        }
        let n: usize = inst.len();
        let mut i: usize = 0;
        while i < n
            invariant
                i <= n,
                n == inst@.len(),
                self.insts@ == old(self).insts@ + inst@.take(i as int),
                self.rs == old(self).rs,
                self.fu == old(self).fu,
                self.insts_comp == old(self).insts_comp,
                self.inst_count == old(self).inst_count,
                self.cycle == old(self).cycle,
                self.finished == old(self).finished,
            decreases n - i,
        {
            self.insts.push_back(inst[i].clone());
            assert(inst@.take(i + 1) =~= inst@.take(i as int).push(inst@[i as int]));
            i = i + 1;
        }
        assert(inst@.take(n as int) =~= inst@);
        self.inst_count = self.inst_count + n;
    }

    /// Clear the executer: every station is emptied and set free, no slot of
    /// the table waits for a station any more, the backlog is emptied, and
    /// the cycle counter goes back to 0. The completed instructions and the
    /// count of instructions stay.
    pub fn clear(&mut self)
        ensures
            final(self)@ == (Machine {
                stations: spec_clear_all(old(self)@.stations),
                slots: spec_clear(old(self)@.slots),
                backlog: Seq::empty(),
                cycle: 0,
                finished: false,
                ..old(self)@
            }),
            old(self)@.wf() ==> final(self)@.wf(),
    {
        self.rs.clear();
        self.fu.clear();
        self.insts.clear();
        self.cycle = 0;
        self.finished = false;
    }

    /// Whether the executer has its stations and slots as `Machine::wf`
    /// says, which is what a cycle asks for.
    pub fn well_formed(&self) -> (ok: bool)
        ensures
            ok == self@.wf(),
    {
        self.rs.well_formed()
    }

    /// Whether the run is to be given up: the cycle counter is above the
    /// limit, and instructions are still to complete.
    pub fn diverged(&self) -> (given_up: bool)
        ensures
            given_up == (!self.finished && self.cycle > CYCLE_LIMIT),
    {
        !self.finished && self.cycle > CYCLE_LIMIT
    }

    /// The completed instructions in the order of their issue: a table in
    /// which no instruction stands before one that was issued in an earlier
    /// cycle, and which holds the completed instructions and no others;
    /// instructions that were issued in the same cycle stand in the order in
    /// which they completed. An instruction without a cycle of issue counts
    /// as issued in cycle 0.
    pub fn table(&self) -> (rows: Vec<Instruction>)
        ensures
            rows@ == spec_table(self.insts_comp@, self.insts_comp@.len() as int),
            spec_in_issue_order(rows@),
            rows@.to_multiset() == self.insts_comp@.to_multiset(),
    {
        let mut rows: Vec<Instruction> = Vec::new();
        let n: usize = self.insts_comp.len();
        let mut k: usize = 0;
        assert(rows@ =~= self.insts_comp@.take(0));
        while k < n
            invariant
                k <= n,
                n == self.insts_comp@.len(),
                rows@ == spec_table(self.insts_comp@, k as int),
                spec_in_issue_order(rows@),
                rows@.to_multiset() == self.insts_comp@.take(k as int).to_multiset(),
            decreases n - k,
        {
            let inst = self.insts_comp[k].clone();
            let key = issue_key(&inst);
            let mut p: usize = 0;
            while p < rows.len() && issue_key(&rows[p]) <= key
                invariant
                    p <= rows@.len(),
                    forall|j: int| 0 <= j < p ==> spec_issue_key(#[trigger] rows@[j]) <= key,
                    spec_place(rows@, key, 0) == spec_place(rows@, key, p as int),
                decreases rows@.len() - p,
            {
                p = p + 1;
            }
            proof {
                vstd::seq_lib::to_multiset_insert(rows@, p as int, inst);
                vstd::seq_lib::to_multiset_build(self.insts_comp@.take(k as int), inst);
                assert(self.insts_comp@.take(k + 1) =~= self.insts_comp@.take(k as int).push(inst));
            }
            let ghost before = rows@;
            rows.insert(p, inst);
            assert(spec_in_issue_order(rows@)) by {
                assert forall|i: int, j: int| 0 <= i <= j < rows@.len() implies spec_issue_key(rows@[i])
                    <= spec_issue_key(rows@[j]) by {
                    if i < p && j > p {
                        assert(rows@[i] == before[i] && rows@[j] == before[j - 1]);
                    } else if i > p {
                        assert(rows@[i] == before[i - 1] && rows@[j] == before[j - 1]);
                    } else if j < p {
                        assert(rows@[i] == before[i] && rows@[j] == before[j]);
                    } else if i == p && j > p {
                        assert(rows@[j] == before[j - 1]);
                        assert(spec_issue_key(before[p as int]) > key);
                    }
                }
            }
            k = k + 1;
        }
        assert(self.insts_comp@.take(n as int) =~= self.insts_comp@);
        rows
    }

    /// Whether the issue of this cycle fails: there is a free station for
    /// the head of the backlog, and that instruction lacks an operand or
    /// names something else where it has to name a functional unit.
    pub fn violation(&self) -> (fails: bool)
        ensures
            fails == self@.spec_violation(),
    {
        if self.insts.len() == 0 {
            return false;
        }
        match self.rs.get_free(self.insts[0].op.kind()) {
            Some(_) => !self.insts[0].issuable(),
            None => false,
        }
    }

    /// Issue instructions to the reservation station: the head of the
    /// backlog, if there is a free station for it.
    fn issue(&mut self)
        requires
            old(self)@.wf(),
            !old(self)@.spec_violation(),
        ensures
            final(self)@ == old(self)@.spec_issue(),
            final(self)@.wf(),
    {
        if self.insts.len() == 0 {
            return ;
        }
        let target = self.rs.get_free(self.insts[0].op.kind());
        proof {
            lemma_free_from(self.rs@, self.insts@[0].op.spec_kind(), 0);
        }
        if let Some(id) = target {
            if let Some(i) = id.position() {
                if let Some(inst) = self.insts.pop_front() {
                    let op = inst.op;
                    let dest = inst.dest_fu();
                    let applied = self.rs.inner[i].apply(inst, &self.fu, self.cycle);
                    assert(applied is Ok);
                    match (op, dest) {
                        (Type::SD, _) => {},
                        (_, Some(d)) => {
                            self.fu.mark_busy(d, id);
                        },
                        _ => {},
                    }
                    assert(self.rs@ =~= old(self)@.spec_issue().stations);
                    assert(self.insts@ =~= old(self)@.spec_issue().backlog);
                }
            }
        }
    }

    /// Execute instructions in the reservation station: one pass over the
    /// pool. Returns the stations that the pass found finished.
    #[inline]
    fn exec(&mut self) -> (ready: Vec<RsId>)
        requires
            old(self)@.wf(),
            old(self).cycle >= 1,
        ensures
            final(self)@ == old(self)@.spec_execute(),
            ready@ == spec_completing(old(self)@.stations, RS_COUNT as int),
            final(self)@.wf(),
    {
        self.rs.exec(&self.fu, self.cycle)
    }

    /// Write the result back from the reservation station to the FU.
    ///
    /// This will also broadcast the result to the other reservation stations.
    fn write(&mut self)
        requires
            old(self)@.wf(),
        ensures
            final(self)@ == old(self)@.spec_write(),
            final(self)@.wf(),
    {
        let mut queue: Vec<(RsId, Value)> = Vec::new();
        let n: usize = self.rs.inner.len();
        let mut k: usize = 0;
        while k < n
            invariant
                k <= n,
                n == RS_COUNT,
                old(self)@.wf(),
                self.rs@.len() == n,
                forall|i: int|
                    0 <= i < k ==> self.rs@[i] == (if old(self).rs@[i].spec_writes() {
                        old(self).rs@[i].spec_take()
                    } else {
                        old(self).rs@[i]
                    }),
                forall|i: int| k <= i < n ==> self.rs@[i] == old(self).rs@[i],
                forall|f: int|
                    0 <= f < FU_SIZE ==> self.fu@[f] == spec_slot_written(
                        old(self).rs@,
                        old(self).fu@[f],
                        f,
                        k as int,
                    ),
                self.insts_comp@ == old(self).insts_comp@ + spec_written(
                    old(self).rs@,
                    old(self).cycle,
                    k as int,
                ),
                queue@ == spec_broadcasts(old(self).rs@, k as int),
                self.insts == old(self).insts,
                self.inst_count == old(self).inst_count,
                self.cycle == old(self).cycle,
                self.finished == old(self).finished,
            decreases n - k,
        {
            proof {
                RsId::lemma_slot_at();
            }
            assert(old(self).rs@[k as int].wf());
            assert(old(self).rs@[k as int].id == RsId::at(k as int));
            let ghost slots_before = self.fu@;
            if self.rs.inner[k].state == RsState::Ready {
                let id = self.rs.inner[k].id;
                let result = self.rs.inner[k].result();
                let taken = self.rs.inner[k].take();
                if let Some(value) = result {
                    if let Some(inst) = taken {
                        let mut inst = inst;
                        if let Some(dest) = inst.dest_fu() {
                            self.fu.mark_ready(dest, id, share(&value));
                        }
                        inst.write(self.cycle);
                        self.insts_comp.push(inst);
                        queue.push((id, value));
                    }
                }
            }
            assert forall|f: int| 0 <= f < FU_SIZE implies self.fu@[f] == spec_slot_written(
                old(self).rs@,
                old(self).fu@[f],
                f,
                k + 1,
            ) by {
                assert(slots_before[f] == spec_slot_written(old(self).rs@, old(self).fu@[f], f, k as int));
            }
            k = k + 1;
        }
        let ghost heard = self.rs@;
        let m: usize = queue.len();
        let mut j: usize = 0;
        while j < m
            invariant
                j <= m,
                m == queue@.len(),
                self.rs@.len() == RS_COUNT,
                heard.len() == RS_COUNT,
                forall|i: int| 0 <= i < RS_COUNT ==> self.rs@[i] == spec_flush_list(heard[i], queue@, j as int),
                forall|f: int|
                    0 <= f < FU_SIZE ==> self.fu@[f] == spec_slot_written(
                        old(self).rs@,
                        old(self).fu@[f],
                        f,
                        RS_COUNT as int,
                    ),
                self.insts_comp@ == old(self).insts_comp@ + spec_written(
                    old(self).rs@,
                    old(self).cycle,
                    RS_COUNT as int,
                ),
                self.insts == old(self).insts,
                self.inst_count == old(self).inst_count,
                self.cycle == old(self).cycle,
                self.finished == old(self).finished,
            decreases m - j,
        {
            let ghost before = self.rs@;
            self.rs.flush(queue[j].0, share(&queue[j].1));
            assert forall|i: int| 0 <= i < RS_COUNT implies self.rs@[i] == spec_flush_list(
                heard[i],
                queue@,
                j + 1,
            ) by {
                assert(self.rs@[i] == before[i].spec_flush(queue@[j as int].0, queue@[j as int].1));
            }
            j = j + 1;
        }
        proof {
            assert(queue@ == spec_broadcasts(old(self).rs@, RS_COUNT as int));
            assert forall|i: int| 0 <= i < RS_COUNT implies self.rs@[i] == spec_settle(old(self).rs@, i) by {
                assert(heard[i] == (if old(self).rs@[i].spec_writes() {
                    old(self).rs@[i].spec_take()
                } else {
                    old(self).rs@[i]
                }));
                if old(self).rs@[i].spec_writes() {
                    lemma_flush_list_idle(heard[i], queue@, m as int);
                } else {
                    lemma_flush_list_hears(heard[i], old(self).rs@, RS_COUNT as int);
                }
            }
            assert(self.rs@ =~= old(self)@.spec_write().stations);
            assert(self.fu@ =~= old(self)@.spec_write().slots);
            assert forall|i: int| 0 <= i < RS_COUNT implies (#[trigger] self.rs@[i]).wf() && self.rs@[i].id
                == RsId::at(i) by {
                assert(old(self).rs@[i].wf());
                assert(old(self).rs@[i].id == RsId::at(i));
            }
        }
    }

    /// Runs the next cycle up to the point at which its state is to be
    /// looked at: issue, execute, write-back and broadcast, in this order.
    ///
    /// Fails, and changes nothing, when the issue fails. Otherwise returns
    /// the tags of the stations that the cycle found finished, in the pool's
    /// order; they are ready, and stay so until the release. After a step
    /// from a state as the invariant says, the release gives such a state
    /// again.
    pub fn step(&mut self) -> (outcome: Result<Vec<RsId>, SimError>)
        requires
            old(self)@.wf(),
            old(self).cycle < u64::MAX,
        ensures
            outcome is Err <==> old(self)@.spec_violation(),
            outcome matches Err(e) ==> e == SimError::InvariantViolation && final(self)@ == old(self)@,
            outcome matches Ok(ready) ==> final(self)@ == old(self)@.spec_step() && ready@ == old(
                self,
            )@.spec_step_ready(),
            final(self)@.wf(),
            old(self)@.inv() && outcome is Ok ==> final(self)@.spec_release().inv(),
            old(self)@.inv() && old(self)@.accounted() ==> final(self)@.accounted()
                && final(self)@.spec_release().accounted(),
    {
        proof {
            if old(self)@.inv() && old(self)@.accounted() {
                if old(self)@.spec_violation() {
                    lemma_release_accounted(old(self)@);
                } else {
                    lemma_cycle_accounted(old(self)@);
                }
            }
            if old(self)@.inv() && !old(self)@.spec_violation() {
                lemma_cycle_inv(old(self)@);
            }
        }
        if self.violation() {
            return Err(SimError::InvariantViolation);
        }
        self.cycle = self.cycle + 1;
        self.issue();
        let ready = self.exec();
        self.write();
        self.finished = self.insts_comp.len() == self.inst_count;
        Ok(ready)
    }

    /// Clear the reservation station: sets every ready station free.
    ///
    /// This comes after the state of the cycle has been looked at, so that
    /// the stations that finished in the cycle are seen as ready.
    pub fn release(&mut self)
        ensures
            final(self)@ == old(self)@.spec_release(),
            old(self)@.wf() ==> final(self)@.wf(),
    {
        let n: usize = self.rs.inner.len();
        let mut i: usize = 0;
        while i < n
            invariant
                i <= n,
                n == old(self).rs@.len(),
                self.rs@.len() == n,
                forall|j: int| 0 <= j < i ==> self.rs@[j] == old(self)@.spec_release().stations[j],
                forall|j: int| i <= j < n ==> self.rs@[j] == old(self).rs@[j],
                self.fu == old(self).fu,
                self.insts == old(self).insts,
                self.insts_comp == old(self).insts_comp,
                self.inst_count == old(self).inst_count,
                self.cycle == old(self).cycle,
                self.finished == old(self).finished,
            decreases n - i,
        {
            if self.rs.inner[i].state == RsState::Ready {
                self.rs.inner[i].clear();
            }
            i = i + 1;
        }
        assert(self.rs@ =~= old(self)@.spec_release().stations);
        proof {
            if old(self)@.wf() {
                assert forall|j: int| 0 <= j < RS_COUNT implies (#[trigger] self.rs@[j]).wf()
                    && self.rs@[j].id == RsId::at(j) by {
                    assert(old(self).rs@[j].wf());
                    assert(old(self).rs@[j].id == RsId::at(j));
                }
            }
        }
    }

    /// Run the simulation: cycle after cycle until every instruction has
    /// written back.
    ///
    /// Fails with `InvariantViolation` when an issue fails, and with
    /// `SimulationDivergence` when a cycle above the limit ends with
    /// instructions still to complete. Either way the executer is left as it
    /// was when the run ended. A run keeps the invariant and loses no
    /// instruction; when it ends without a failure, having begun unfinished,
    /// nothing is left in the backlog or in a station.
    pub fn run(&mut self) -> (outcome: Result<(), SimError>)
        requires
            old(self)@.wf(),
        ensures
            (final(self)@, outcome) == old(self)@.spec_run(),
            final(self)@.wf(),
            old(self)@.inv() ==> final(self)@.inv(),
            old(self)@.inv() && old(self)@.accounted() ==> final(self)@.accounted(),
            old(self)@.inv() && old(self)@.accounted() && !old(self).finished && outcome is Ok
                ==> final(self)@.idle(),
    {
        proof {
            if old(self)@.inv() {
                law_run_keeps_inv(old(self)@);
                if old(self)@.accounted() {
                    law_run_accounts(old(self)@);
                }
            }
        }
        while !self.finished
            invariant
                self@.wf(),
                self@.spec_run() == old(self)@.spec_run(),
                old(self)@.inv() ==> old(self)@.spec_run().0.inv(),
                old(self)@.inv() && old(self)@.accounted() ==> old(self)@.spec_run().0.accounted(),
                old(self)@.inv() && old(self)@.accounted() && !old(self).finished && old(
                    self,
                )@.spec_run().1 is Ok ==> old(self)@.spec_run().0.idle(),
            decreases self@.spec_cycles_left(),
        {
            if self.cycle == u64::MAX {
                return Err(SimError::SimulationDivergence);
            }
            match self.step() {
                Err(e) => {
                    return Err(e);
                },
                Ok(_) => {},
            }
            self.release();
            if self.finished {
                return Ok(());
            }
            // avoid infinite loop
            if self.diverged() {
                return Err(SimError::SimulationDivergence);
            }
        }
        Ok(())
    }
}

} // verus!
