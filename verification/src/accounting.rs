//! Where the instructions are: every instruction that was handed to the
//! executer waits in the backlog, is held by a station, or has written back.

use vstd::prelude::*;

use crate::coherence::{lemma_execute_inv, lemma_issue_inv, lemma_tick_keeps};
use crate::executer::{spec_settle, spec_written, Machine};
use crate::units::rs::{lemma_free_from, RsId, RsInner, RsState, RS_COUNT};

verus! {

/// How many of the first `n` stations hold an instruction.
pub open spec fn held(stations: Seq<RsInner>, n: int) -> nat
    decreases n,
{
    if n <= 0 {
        0
    } else if stations[n - 1].inst is Some {
        held(stations, n - 1) + 1
    } else {
        held(stations, n - 1)
    }
}

impl Machine {
    /// Whether every instruction is accounted for: as many were handed over
    /// as wait in the backlog, are held by a station, or have written back.
    pub open spec fn accounted(self) -> bool {
        self.inst_count == self.completed.len() + self.backlog.len() + held(self.stations, RS_COUNT as int)
    }

    /// Whether nothing is left to do: the backlog is empty, and no station
    /// holds an instruction.
    pub open spec fn idle(self) -> bool {
        &&& self.backlog.len() == 0
        &&& forall|i: int| 0 <= i < RS_COUNT ==> (#[trigger] self.stations[i]).inst is None
    }
}

/// Stations that hold instructions at the same places hold as many.
proof fn lemma_held_same(a: Seq<RsInner>, b: Seq<RsInner>, n: int)
    requires
        forall|i: int|
            #![trigger a[i]]
            #![trigger b[i]]
            0 <= i < n ==> a[i].inst is Some == b[i].inst is Some,
    ensures
        held(a, n) == held(b, n),
    decreases n,
{
    if n > 0 {
        lemma_held_same(a, b, n - 1);
    }
}

/// An instruction that goes to an empty station is one more that is held.
proof fn lemma_held_more(a: Seq<RsInner>, x: int, station: RsInner, n: int)
    requires
        0 <= x < a.len(),
        0 <= n <= a.len(),
        a[x].inst is None,
        station.inst is Some,
    ensures
        held(a.update(x, station), n) == held(a, n) + if x < n {
            1nat
        } else {
            0nat
        },
    decreases n,
{
    if n > 0 {
        lemma_held_more(a, x, station, n - 1);
    }
}

/// What the stations hand over at the write-back they hold no longer.
proof fn lemma_held_written(stations: Seq<RsInner>, cycle: u64, n: int)
    requires
        0 <= n <= stations.len(),
    ensures
        held(Seq::new(stations.len(), |i: int| spec_settle(stations, i)), n) + spec_written(
            stations,
            cycle,
            n,
        ).len() == held(stations, n),
    decreases n,
{
    if n > 0 {
        lemma_held_written(stations, cycle, n - 1);
    }
}

/// No instruction is held if and only if every station is empty.
proof fn lemma_held_none(stations: Seq<RsInner>, n: int)
    ensures
        held(stations, n) == 0 <==> forall|i: int| 0 <= i < n ==> (#[trigger] stations[i]).inst is None,
    decreases n,
{
    if n > 0 {
        lemma_held_none(stations, n - 1);
    }
}

/// A new executer has no instruction to account for.
pub proof fn lemma_initial_accounted()
    ensures
        Machine::initial().accounted(),
{
    lemma_held_none(Machine::initial().stations, RS_COUNT as int);
}

/// Instructions that are handed over are accounted for in the backlog.
pub proof fn lemma_added_accounted(m: Machine, more: Seq<crate::inst::Instruction>)
    requires
        m.accounted(),
    ensures
        (Machine { backlog: m.backlog + more, inst_count: m.inst_count + more.len(), ..m }).accounted(),
{
}

/// A cycle loses no instruction and makes none.
pub proof fn lemma_cycle_accounted(m: Machine)
    requires
        m.inv(),
        m.accounted(),
        !m.spec_violation(),
        m.cycle < u64::MAX,
    ensures
        m.spec_cycle().accounted(),
        m.spec_step().accounted(),
{
    RsId::lemma_slot_at();
    let m1 = m.spec_begin().spec_issue();
    assert(m1.accounted()) by {
        match m.spec_begin().spec_target() {
            Some(id) => {
                lemma_free_from(m.stations, m.backlog[0].op.spec_kind(), 0);
                assert(m.stations[id.slot()].wf());
                lemma_held_more(m.stations, id.slot(), m1.stations[id.slot()], RS_COUNT as int);
                assert(m1.stations =~= m.stations.update(id.slot(), m1.stations[id.slot()]));
            },
            None => {},
        }
    }
    lemma_issue_inv(m);
    let m2 = m1.spec_execute();
    assert(m2.accounted()) by {
        assert forall|i: int| 0 <= i < RS_COUNT implies (#[trigger] m1.stations[i]).inst is Some == (
        #[trigger] m2.stations[i]).inst is Some by {
            assert(m1.stations[i].wf());
            lemma_tick_keeps(m1.stations[i], m1.slots, m1.cycle);
        }
        lemma_held_same(m1.stations, m2.stations, RS_COUNT as int);
    }
    lemma_execute_inv(m1);
    let m3 = m2.spec_write();
    assert(m3.accounted()) by {
        lemma_held_written(m2.stations, m2.cycle, RS_COUNT as int);
        assert(m3.stations =~= Seq::new(m2.stations.len(), |i: int| spec_settle(m2.stations, i)));
    }
    let stepped = m.spec_step();
    assert(stepped.stations == m3.stations && stepped.completed == m3.completed);
    let m4 = m.spec_cycle();
    assert(m4.accounted()) by {
        assert forall|i: int| 0 <= i < RS_COUNT implies (#[trigger] stepped.stations[i]).inst is Some == (
        #[trigger] m4.stations[i]).inst is Some by {
            assert(m2.stations[i].wf());
            assert(stepped.stations[i] == spec_settle(m2.stations, i));
            assert(stepped.stations[i].state == RsState::Ready ==> stepped.stations[i].inst is None);
        }
        lemma_held_same(stepped.stations, m4.stations, RS_COUNT as int);
    }
}

/// The run has finished exactly when nothing is left to do: in a state in
/// which every instruction is accounted for, as many instructions have
/// written back as were handed over if and only if the backlog is empty and
/// no station holds an instruction.
pub proof fn law_finished_means_idle(m: Machine)
    requires
        m.accounted(),
    ensures
        m.completed.len() == m.inst_count <==> m.idle(),
{
    lemma_held_none(m.stations, RS_COUNT as int);
}

/// The release loses no instruction, as the ready stations hold none.
pub proof fn lemma_release_accounted(m: Machine)
    requires
        m.accounted(),
        m.stations.len() == RS_COUNT,
        forall|i: int|
            0 <= i < RS_COUNT && (#[trigger] m.stations[i]).state == RsState::Ready ==> m.stations[i].inst
                is None,
    ensures
        m.spec_release().accounted(),
{
    let after = m.spec_release().stations;
    assert forall|i: int| 0 <= i < RS_COUNT implies (#[trigger] m.stations[i]).inst is Some == after[i].inst
        is Some by {}
    lemma_held_same(m.stations, after, RS_COUNT as int);
}

/// A run loses no instruction, and a run that ends well ends with nothing
/// left to do: from a state as the invariant says, in which every
/// instruction is accounted for and the run has not finished, a run that
/// ends without a failure leaves the backlog empty and every station
/// without an instruction.
pub proof fn law_run_accounts(m: Machine)
    requires
        m.inv(),
        m.accounted(),
    ensures
        m.spec_run().0.accounted(),
        !m.finished && m.spec_run().1 is Ok ==> m.spec_run().0.idle(),
    decreases m.spec_cycles_left(),
{
    if !m.finished && m.cycle < u64::MAX && !m.spec_begin().spec_violation() {
        crate::coherence::lemma_cycle_inv(m);
        lemma_cycle_accounted(m);
        let next = m.spec_cycle();
        if next.finished {
            law_finished_means_idle(next);
        } else if next.cycle <= crate::executer::CYCLE_LIMIT {
            law_run_accounts(next);
        }
    }
}

} // verus!
