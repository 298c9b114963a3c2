//! What holds of an executer between two cycles, and why a cycle keeps it.
//!
//! The invariant ties the three parts of the machine together. Every station
//! is timed: its instruction was issued in a cycle that has been run, and a
//! countdown that has begun agrees with the recorded start. Every busy
//! station is fed: each operand is known or is waited for from a station that
//! was issued earlier and still holds its instruction. Every slot of the table
//! is fed: it holds a value or waits for a station that will deliver one to
//! it. No two instructions under way were issued in the same cycle, and every
//! completed instruction carries the four cycles of its lifecycle, in order.

use vstd::prelude::*;

use crate::executer::{spec_hear, spec_settle, spec_slot_written, spec_written, Machine};
use crate::inst::Instruction;
use crate::units::fu::FloatingUnitInner;
use crate::units::rs::{
    lemma_free_from, lemma_tick_wf, spec_lookup, stations_wf, RsId, RsInner, RsState, RS_COUNT,
};
use crate::units::fu::{FuId, FU_SIZE};

verus! {

/// Whether the station holds an instruction that has not written back.
pub open spec fn pending(station: RsInner) -> bool {
    station.in_flight() || station.spec_writes()
}

/// The cycle in which the instruction of the station at the index `i` was
/// issued.
pub open spec fn emit_of(stations: Seq<RsInner>, i: int) -> int {
    stations[i].inst->0.emit_cycle->0 as int
}

/// Whether the station's record of its instruction agrees with the clock:
/// `now` is the cycle that is being run, or was run last, and `ticked` the
/// last cycle whose pass over the stations is over.
///
/// A busy station's instruction was issued by `now`. A calculating station's
/// instruction was issued by `ticked`; if its countdown has begun, it began
/// after the issue, by `ticked`, and has gone down by one for every cycle
/// since. A ready station that still holds its instruction has finished it
/// in the cycle before `now`, counted from the start by the latency.
pub open spec fn station_timed(station: RsInner, ticked: int, now: int) -> bool {
    match station.state {
        RsState::Busy => station.inst->0.emit_cycle->0 <= now,
        RsState::Calculating => {
            let inst = station.inst->0;
            let left = inst.left_cycle->0;
            let start = inst.start_cycle->0;
            &&& inst.emit_cycle->0 <= ticked
            &&& left < inst.op.spec_latency() ==> {
                &&& inst.emit_cycle->0 < start
                &&& start <= ticked
                &&& left + (ticked - start + 1) == inst.op.spec_latency()
            }
        },
        RsState::Ready => station.inst matches Some(inst) ==> {
            &&& inst.emit_cycle->0 < inst.start_cycle->0
            &&& inst.exec_cycle->0 == inst.start_cycle->0 + inst.op.spec_latency() - 1
            &&& inst.exec_cycle->0 + 1 == now
        },
        RsState::Free => true,
    }
}

/// Whether `tag`, for which the station at the index `i` waits, names a
/// station of the pool that was issued earlier and has not written back.
pub open spec fn tag_ok(stations: Seq<RsInner>, i: int, tag: Option<RsId>) -> bool {
    tag matches Some(t) ==> {
        &&& t.in_pool()
        &&& pending(stations[t.slot()])
        &&& emit_of(stations, t.slot()) < emit_of(stations, i)
    }
}

/// Whether the station at the index `i`, if it is busy, has for each operand
/// that its instruction is calculated from either the value or a station to
/// wait for.
pub open spec fn station_fed(stations: Seq<RsInner>, i: int) -> bool {
    let station = stations[i];
    station.state == RsState::Busy ==> {
        &&& tag_ok(stations, i, station.qj)
        &&& tag_ok(stations, i, station.qk)
        &&& station.vk is Some || station.qk is Some
        &&& station.inst->0.op.spec_is_memory() || station.vj is Some || station.qj is Some
    }
}

/// Whether the slot at the index `f` holds a value or waits for a station of
/// the pool that has not written back and has this slot as its destination.
pub open spec fn slot_fed(stations: Seq<RsInner>, slots: Seq<FloatingUnitInner>, f: int) -> bool {
    slots[f].value is None ==> {
        &&& slots[f].qi matches Some(t)
        &&& t.in_pool()
        &&& pending(stations[t.slot()])
        &&& stations[t.slot()].inst->0.spec_dest_fu() matches Some(d)
        &&& d.slot() == f
    }
}

/// Whether no two stations that have not written back hold instructions
/// that were issued in the same cycle.
pub open spec fn emits_distinct(stations: Seq<RsInner>) -> bool {
    forall|i: int, j: int|
        0 <= i < RS_COUNT && 0 <= j < RS_COUNT && i != j && pending(#[trigger] stations[i]) && pending(
            #[trigger] stations[j],
        ) ==> emit_of(stations, i) != emit_of(stations, j)
}

/// Whether the instruction carries the four cycles of its lifecycle as the
/// engine stamps them: the calculation starts after the issue, lasts for the
/// latency of the operation, and the write-back comes in the cycle after it.
pub open spec fn inst_timed(inst: Instruction) -> bool {
    &&& inst.emit_cycle is Some
    &&& inst.start_cycle is Some
    &&& inst.exec_cycle is Some
    &&& inst.write_cycle is Some
    &&& inst.emit_cycle->0 < inst.start_cycle->0
    &&& inst.exec_cycle->0 == inst.start_cycle->0 + inst.op.spec_latency() - 1
    &&& inst.write_cycle->0 == inst.exec_cycle->0 + 1
}

impl Machine {
    /// The invariant, with `ticked` as the last cycle whose pass over the
    /// stations is over.
    pub open spec fn inv_at(self, ticked: int) -> bool {
        &&& self.wf()
        &&& forall|i: int|
            0 <= i < RS_COUNT ==> station_timed(#[trigger] self.stations[i], ticked, self.cycle as int)
        &&& forall|i: int| 0 <= i < RS_COUNT ==> #[trigger] station_fed(self.stations, i)
        &&& forall|f: int| 0 <= f < FU_SIZE ==> #[trigger] slot_fed(self.stations, self.slots, f)
        &&& emits_distinct(self.stations)
        &&& forall|k: int|
            0 <= k < self.completed.len() ==> inst_timed(#[trigger] self.completed[k])
                && self.completed[k].write_cycle->0 <= self.cycle
    }

    /// Whether no station is ready.
    pub open spec fn quiet(self) -> bool {
        forall|i: int| 0 <= i < RS_COUNT ==> (#[trigger] self.stations[i]).state != RsState::Ready
    }

    /// The invariant that holds between two cycles.
    pub open spec fn inv(self) -> bool {
        self.inv_at(self.cycle as int) && self.quiet()
    }

    /// Whether every instruction of the backlog can be issued.
    pub open spec fn program_ok(self) -> bool {
        forall|k: int| 0 <= k < self.backlog.len() ==> (#[trigger] self.backlog[k]).spec_issuable()
    }
}

/// A new executer is as the invariant says.
pub proof fn lemma_initial_inv()
    ensures
        Machine::initial().inv(),
{
    RsId::lemma_slot_at();
}

/// The issue keeps the invariant: after it the clock stands at the new
/// cycle, whose pass is still to come.
pub proof fn lemma_issue_inv(m: Machine)
    requires
        m.inv(),
        !m.spec_violation(),
        m.cycle < u64::MAX,
    ensures
        m.spec_begin().spec_issue().inv_at(m.cycle as int),
        m.spec_begin().spec_issue().quiet(),
        m.spec_begin().spec_issue().cycle == m.cycle + 1,
{
    RsId::lemma_slot_at();
    let m0 = m.spec_begin();
    let m1 = m0.spec_issue();
    let ticked = m.cycle as int;
    assert(m0.spec_target() == m.spec_target());
    match m0.spec_target() {
        Some(id) => {
            lemma_free_from(m.stations, m.backlog[0].op.spec_kind(), 0);
            let x = id.slot();
            let inst = m.backlog[0];
            assert(inst.spec_issuable());
            assert(m.stations[x].wf());
            assert(m1.stations[x].wf());
            assert forall|i: int| 0 <= i < RS_COUNT implies (#[trigger] m1.stations[i]).wf()
                && m1.stations[i].id == RsId::at(i) by {
                assert(m.stations[i].wf());
            }
            assert forall|i: int| 0 <= i < RS_COUNT implies station_timed(
                #[trigger] m1.stations[i],
                ticked,
                m1.cycle as int,
            ) by {
                assert(station_timed(m.stations[i], ticked, m.cycle as int));
            }
            assert forall|i: int| 0 <= i < RS_COUNT && i != x && pending(m1.stations[i]) implies emit_of(
                m1.stations,
                i,
            ) <= ticked by {
                assert(station_timed(m.stations[i], ticked, m.cycle as int));
                assert(m.stations[i].wf());
            }
            assert forall|f: int| 0 <= f < FU_SIZE implies #[trigger] slot_fed(m1.stations, m1.slots, f) by {
                assert(slot_fed(m.stations, m.slots, f));
            }
            assert forall|i: int| 0 <= i < RS_COUNT implies #[trigger] station_fed(m1.stations, i) by {
                assert(station_fed(m.stations, i));
                if i == x {
                    let s = m1.stations[x];
                    assert(s == m.stations[x].spec_apply(inst, m.slots, m1.cycle));
                    assert(emit_of(m1.stations, x) == ticked + 1);
                    assert forall|id: FuId| id.wf() implies tag_ok(
                        m1.stations,
                        x,
                        (#[trigger] spec_lookup(m.slots, id)).1,
                    ) && (spec_lookup(m.slots, id).0 is Some || spec_lookup(m.slots, id).1 is Some) by {
                        assert(slot_fed(m.stations, m.slots, id.slot()));
                    }
                    assert(tag_ok(m1.stations, x, s.qj));
                    assert(tag_ok(m1.stations, x, s.qk));
                } else {
                    assert(m1.stations[i] == m.stations[i]);
                    assert(tag_ok(m1.stations, i, m.stations[i].qj));
                    assert(tag_ok(m1.stations, i, m.stations[i].qk));
                }
            }
            assert(emits_distinct(m1.stations));
        },
        None => {
            assert(m1 == m0);
            assert forall|i: int| 0 <= i < RS_COUNT implies station_timed(
                #[trigger] m1.stations[i],
                ticked,
                m1.cycle as int,
            ) by {
                assert(station_timed(m.stations[i], ticked, m.cycle as int));
            }
            assert forall|i: int| 0 <= i < RS_COUNT implies #[trigger] station_fed(m1.stations, i) by {
                assert(station_fed(m.stations, i));
            }
            assert forall|f: int| 0 <= f < FU_SIZE implies #[trigger] slot_fed(m1.stations, m1.slots, f) by {
                assert(slot_fed(m.stations, m.slots, f));
            }
        },
    }
}

/// What a cycle's pass keeps of a station: whether it holds an instruction
/// that has not written back, and that instruction's issue, operation and
/// destination.
pub proof fn lemma_tick_keeps(station: RsInner, slots: Seq<FloatingUnitInner>, cycle: u64)
    requires
        station.wf(),
    ensures
        pending(station.spec_tick(slots, cycle)) == pending(station),
        station.spec_tick(slots, cycle).inst is Some == station.inst is Some,
        station.inst matches Some(inst) ==> {
            let after = station.spec_tick(slots, cycle).inst->0;
            &&& after.emit_cycle == inst.emit_cycle
            &&& after.op == inst.op
            &&& after.dest == inst.dest
        },
{
}

/// The pass over the stations keeps the invariant, and the stations that are
/// ready after it still hold their instructions.
pub proof fn lemma_execute_inv(m: Machine)
    requires
        m.inv_at(m.cycle - 1),
        m.quiet(),
        m.cycle >= 1,
    ensures
        m.spec_execute().inv_at(m.cycle as int),
        forall|i: int|
            0 <= i < RS_COUNT && (#[trigger] m.spec_execute().stations[i]).state == RsState::Ready
                ==> m.spec_execute().stations[i].spec_writes(),
{
    RsId::lemma_slot_at();
    let m2 = m.spec_execute();
    let now = m.cycle as int;
    assert forall|i: int| 0 <= i < RS_COUNT implies {
        &&& (#[trigger] m2.stations[i]).wf()
        &&& m2.stations[i].id == RsId::at(i)
        &&& station_timed(m2.stations[i], now, now)
        &&& pending(m2.stations[i]) == pending(m.stations[i])
        &&& pending(m.stations[i]) ==> emit_of(m2.stations, i) == emit_of(m.stations, i)
        &&& pending(m.stations[i]) ==> m2.stations[i].inst->0.dest == m.stations[i].inst->0.dest
        &&& m2.stations[i].state == RsState::Ready ==> m2.stations[i].spec_writes()
    } by {
        assert(m.stations[i].wf());
        assert(m.stations[i].state != RsState::Ready);
        assert(station_timed(m.stations[i], now - 1, now));
        lemma_tick_wf(m.stations[i], m.slots, m.cycle);
        lemma_tick_keeps(m.stations[i], m.slots, m.cycle);
    }
    assert forall|i: int| 0 <= i < RS_COUNT implies #[trigger] station_fed(m2.stations, i) by {
        assert(station_fed(m.stations, i));
        assert(m.stations[i].wf());
        if m2.stations[i].state == RsState::Busy {
            assert(m.stations[i].state == RsState::Busy);
            let s = m.stations[i];
            let t = m2.stations[i];
            assert(t.qj is Some ==> t.qj == s.qj);
            assert(t.qk is Some ==> t.qk == s.qk);
            assert(tag_ok(m2.stations, i, t.qj));
            assert(tag_ok(m2.stations, i, t.qk));
        }
    }
    assert forall|f: int| 0 <= f < FU_SIZE implies #[trigger] slot_fed(m2.stations, m2.slots, f) by {
        assert(slot_fed(m.stations, m.slots, f));
    }
    assert(emits_distinct(m2.stations)) by {
        assert forall|i: int, j: int|
            0 <= i < RS_COUNT && 0 <= j < RS_COUNT && i != j && pending(#[trigger] m2.stations[i])
                && pending(#[trigger] m2.stations[j]) implies emit_of(m2.stations, i) != emit_of(
            m2.stations,
            j,
        ) by {
            assert(pending(m.stations[i]) && pending(m.stations[j]));
        }
    }
}

/// The instructions that a write-back hands over carry the cycles of their
/// lifecycle.
pub proof fn lemma_written_timed(stations: Seq<RsInner>, cycle: u64, n: int)
    requires
        stations_wf(stations),
        0 <= n <= RS_COUNT,
        forall|i: int| 0 <= i < RS_COUNT ==> station_timed(#[trigger] stations[i], cycle as int, cycle as int),
    ensures
        forall|k: int|
            0 <= k < spec_written(stations, cycle, n).len() ==> inst_timed(
                #[trigger] spec_written(stations, cycle, n)[k],
            ) && spec_written(stations, cycle, n)[k].write_cycle->0 == cycle,
    decreases n,
{
    if n > 0 {
        lemma_written_timed(stations, cycle, n - 1);
        assert(stations[n - 1].wf());
        assert(station_timed(stations[n - 1], cycle as int, cycle as int));
    }
}

/// Write-back and broadcast keep the invariant, and no station is left to
/// write back.
pub proof fn lemma_write_inv(m: Machine)
    requires
        m.inv_at(m.cycle as int),
        forall|i: int|
            0 <= i < RS_COUNT && (#[trigger] m.stations[i]).state == RsState::Ready ==> m.stations[i].spec_writes(),
    ensures
        m.spec_write().inv_at(m.cycle as int),
        forall|i: int| 0 <= i < RS_COUNT ==> !(#[trigger] m.spec_write().stations[i]).spec_writes(),
{
    RsId::lemma_slot_at();
    let m3 = m.spec_write();
    let now = m.cycle as int;
    assert forall|i: int| 0 <= i < RS_COUNT implies {
        &&& (#[trigger] m3.stations[i]).wf()
        &&& m3.stations[i].id == RsId::at(i)
        &&& station_timed(m3.stations[i], now, now)
        &&& !m3.stations[i].spec_writes()
        &&& pending(m3.stations[i]) == m.stations[i].in_flight()
        &&& m3.stations[i].state == m.stations[i].state
        &&& pending(m3.stations[i]) ==> m3.stations[i].inst == m.stations[i].inst
    } by {
        assert(m.stations[i].wf());
        assert(station_timed(m.stations[i], now, now));
        assert(m3.stations[i] == spec_settle(m.stations, i));
    }
    assert forall|i: int| 0 <= i < RS_COUNT implies #[trigger] station_fed(m3.stations, i) by {
        assert(station_fed(m.stations, i));
        assert(m.stations[i].wf());
        assert(m3.stations[i] == spec_settle(m.stations, i));
        if m3.stations[i].state == RsState::Busy {
            let s = m.stations[i];
            let t = m3.stations[i];
            assert(t == spec_hear(s, m.stations, RS_COUNT as int));
            if let Some(tag) = s.qj {
                assert(m.stations[tag.slot()].wf());
            }
            if let Some(tag) = s.qk {
                assert(m.stations[tag.slot()].wf());
            }
            assert(tag_ok(m3.stations, i, t.qj));
            assert(tag_ok(m3.stations, i, t.qk));
        }
    }
    assert forall|f: int| 0 <= f < FU_SIZE implies #[trigger] slot_fed(m3.stations, m3.slots, f) by {
        assert(slot_fed(m.stations, m.slots, f));
        assert(m3.slots[f] == spec_slot_written(m.stations, m.slots[f], f, RS_COUNT as int));
        if let Some(tag) = m.slots[f].qi {
            if tag.in_pool() {
                assert(m.stations[tag.slot()].wf());
            }
        }
    }
    assert(emits_distinct(m3.stations)) by {
        assert forall|i: int, j: int|
            0 <= i < RS_COUNT && 0 <= j < RS_COUNT && i != j && pending(#[trigger] m3.stations[i])
                && pending(#[trigger] m3.stations[j]) implies emit_of(m3.stations, i) != emit_of(
            m3.stations,
            j,
        ) by {
            assert(pending(m.stations[i]) && pending(m.stations[j]));
        }
    }
    lemma_written_timed(m.stations, m.cycle, RS_COUNT as int);
}

/// The release of the ready stations, none of which holds an instruction
/// any more, gives a state as the invariant for the time between two cycles
/// says.
pub proof fn lemma_release_inv(m: Machine)
    requires
        m.inv_at(m.cycle as int),
        forall|i: int| 0 <= i < RS_COUNT ==> !(#[trigger] m.stations[i]).spec_writes(),
    ensures
        m.spec_release().inv(),
{
    RsId::lemma_slot_at();
    let m4 = m.spec_release();
    let now = m.cycle as int;
    assert forall|i: int| 0 <= i < RS_COUNT implies {
        &&& (#[trigger] m4.stations[i]).wf()
        &&& m4.stations[i].id == RsId::at(i)
        &&& station_timed(m4.stations[i], now, now)
        &&& m4.stations[i].state != RsState::Ready
        &&& pending(m4.stations[i]) == pending(m.stations[i])
        &&& pending(m4.stations[i]) ==> m4.stations[i] == m.stations[i]
    } by {
        assert(m.stations[i].wf());
        assert(station_timed(m.stations[i], now, now));
        assert(!m.stations[i].spec_writes());
    }
    assert forall|i: int| 0 <= i < RS_COUNT implies #[trigger] station_fed(m4.stations, i) by {
        assert(station_fed(m.stations, i));
    }
    assert forall|f: int| 0 <= f < FU_SIZE implies #[trigger] slot_fed(m4.stations, m4.slots, f) by {
        assert(slot_fed(m.stations, m.slots, f));
    }
    assert(emits_distinct(m4.stations)) by {
        assert forall|i: int, j: int|
            0 <= i < RS_COUNT && 0 <= j < RS_COUNT && i != j && pending(#[trigger] m4.stations[i])
                && pending(#[trigger] m4.stations[j]) implies emit_of(m4.stations, i) != emit_of(
            m4.stations,
            j,
        ) by {
            assert(pending(m.stations[i]) && pending(m.stations[j]));
        }
    }
}

/// A cycle keeps the invariant.
pub proof fn lemma_cycle_inv(m: Machine)
    requires
        m.inv(),
        !m.spec_violation(),
        m.cycle < u64::MAX,
    ensures
        m.spec_cycle().inv(),
        m.spec_cycle().cycle == m.cycle + 1,
{
    let m1 = m.spec_begin().spec_issue();
    lemma_issue_inv(m);
    lemma_execute_inv(m1);
    let m2 = m1.spec_execute();
    lemma_write_inv(m2);
    let m3 = m2.spec_write();
    let m3f = Machine { finished: m3.completed.len() == m3.inst_count, ..m3 };
    assert(m3f == m.spec_step());
    assert(m3f.inv_at(m3f.cycle as int));
    lemma_release_inv(m3f);
}

} // verus!
