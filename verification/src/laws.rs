//! What holds of every run: the laws of the engine.

use vstd::prelude::*;

use crate::coherence::{inst_timed, lemma_cycle_inv, station_timed};
use crate::executer::{spec_settle, Machine};
use crate::inst::Instruction;
use crate::units::fu::{spec_try_get_value, FloatingUnitInner};
use crate::units::rs::{lemma_free_from, RsId, RsInner, RsState, RS_COUNT};
use crate::value::spec_fu_ref;

verus! {

/// A cycle issues at most one instruction, and the one at the head: the
/// backlog after a cycle is the backlog before it, as a whole or without its
/// first instruction.
pub proof fn law_one_issue_per_cycle(m: Machine)
    ensures
        m.spec_cycle().backlog == m.backlog || (m.backlog.len() > 0 && m.spec_cycle().backlog
            == m.backlog.skip(1)),
        m.spec_begin().spec_target() is None ==> m.spec_cycle().backlog == m.backlog,
{
}

/// A cycle fills at most one station: a station that was free is free after
/// the cycle unless it is the one that the head of the backlog went to.
pub proof fn law_one_station_per_cycle(m: Machine, i: int)
    requires
        m.wf(),
        0 <= i < RS_COUNT,
        m.stations[i].state == RsState::Free,
    ensures
        m.spec_cycle().stations[i].state != RsState::Free ==> m.backlog.len() > 0
            && m.spec_begin().spec_target() == Some(RsId::at(i)) && m.spec_cycle().backlog
            == m.backlog.skip(1),
{
    RsId::lemma_slot_at();
    if m.backlog.len() > 0 {
        lemma_free_from(m.stations, m.backlog[0].op.spec_kind(), 0);
    }
    let m1 = m.spec_begin().spec_issue();
    let m2 = m1.spec_execute();
    assert(m2.spec_write().stations[i] == spec_settle(m2.stations, i));
}

/// The backlog keeps its order across stalls: after `n` cycles it is what
/// is left of the backlog when at most `n` instructions have been taken from
/// its head, so that no instruction is issued before one that stood before
/// it.
pub proof fn law_backlog_in_order(m: Machine, n: nat) -> (k: int)
    ensures
        0 <= k <= n,
        k <= m.backlog.len(),
        m.spec_cycles(n).backlog == m.backlog.skip(k),
    decreases n,
{
    if n == 0 {
        assert(m.backlog.skip(0) =~= m.backlog);
        0
    } else {
        let k = law_backlog_in_order(m, (n - 1) as nat);
        let before = m.spec_cycles((n - 1) as nat);
        law_one_issue_per_cycle(before);
        if before.spec_cycle().backlog == before.backlog {
            k
        } else {
            assert(m.backlog.skip(k).skip(1) =~= m.backlog.skip(k + 1));
            k + 1
        }
    }
}

/// How a station that waits gets its first operand in a cycle.
///
/// The station at the index `i` is busy when the cycle's pass begins and
/// waits for the station `tag`. After pass, write-back and broadcast it no
/// longer waits if and only if the table held a value under `tag` or the
/// station `tag` writes back in this cycle and so broadcasts its result; and
/// then it has that value as its operand. Otherwise it waits on, as before.
pub proof fn law_first_operand_resolves(m: Machine, i: int, tag: RsId)
    requires
        m.wf(),
        0 <= i < RS_COUNT,
        m.stations[i].state == RsState::Busy,
        m.stations[i].qj == Some(tag),
    ensures
        ({
            let after = m.spec_execute().spec_write().stations[i];
            let polled = spec_try_get_value(m.slots, tag);
            let heard = tag.in_pool() && m.spec_execute().stations[tag.slot()].spec_writes();
            &&& after.qj is None <==> polled is Some || heard
            &&& polled is Some ==> after.vj == polled
            &&& polled is None && heard ==> after.vj == m.spec_execute().stations[tag.slot()].result
            &&& polled is None && !heard ==> after.qj == Some(tag) && after.vj == m.stations[i].vj
        }),
{
    RsId::lemma_slot_at();
    let m2 = m.spec_execute();
    assert(m.stations[i].wf());
    assert(m2.spec_write().stations[i] == spec_settle(m2.stations, i));
    if tag.in_pool() {
        assert(m.stations[tag.slot()].wf());
    }
}

/// How a station that waits gets its second operand in a cycle: as it gets
/// the first.
pub proof fn law_second_operand_resolves(m: Machine, i: int, tag: RsId)
    requires
        m.wf(),
        0 <= i < RS_COUNT,
        m.stations[i].state == RsState::Busy,
        m.stations[i].qk == Some(tag),
    ensures
        ({
            let after = m.spec_execute().spec_write().stations[i];
            let polled = spec_try_get_value(m.slots, tag);
            let heard = tag.in_pool() && m.spec_execute().stations[tag.slot()].spec_writes();
            &&& after.qk is None <==> polled is Some || heard
            &&& polled is Some ==> after.vk == polled
            &&& polled is None && heard ==> after.vk == m.spec_execute().stations[tag.slot()].result
            &&& polled is None && !heard ==> after.qk == Some(tag) && after.vk == m.stations[i].vk
        }),
{
    RsId::lemma_slot_at();
    let m2 = m.spec_execute();
    assert(m.stations[i].wf());
    assert(m2.spec_write().stations[i] == spec_settle(m2.stations, i));
    if tag.in_pool() {
        assert(m.stations[tag.slot()].wf());
    }
}

/// A wait-tag is cleared exactly when the station it names broadcasts,
/// as long as the table holds no value under the tag: the station at the
/// index `i`, busy and waiting for `tag` with either operand, has stopped
/// waiting for it after the cycle if and only if the station `tag` writes
/// back in this cycle.
pub proof fn law_tag_cleared_by_broadcast(m: Machine, i: int, tag: RsId)
    requires
        m.wf(),
        0 <= i < RS_COUNT,
        m.stations[i].state == RsState::Busy,
        spec_try_get_value(m.slots, tag) is None,
    ensures
        ({
            let after = m.spec_execute().spec_write().stations[i];
            let heard = tag.in_pool() && m.spec_execute().stations[tag.slot()].spec_writes();
            &&& m.stations[i].qj == Some(tag) ==> (after.qj is None <==> heard)
            &&& m.stations[i].qk == Some(tag) ==> (after.qk is None <==> heard)
        }),
{
    if m.stations[i].qj == Some(tag) {
        law_first_operand_resolves(m, i, tag);
    }
    if m.stations[i].qk == Some(tag) {
        law_second_operand_resolves(m, i, tag);
    }
}

/// An operand is known from the issue on exactly when it resolves at once:
/// an operand that is looked up in the table is known if and only if the slot
/// holds a value, and is waited for, from the station that the slot names,
/// otherwise; the second operand of a load or a store that names no
/// functional unit, an immediate or a register, is known as it stands.
pub proof fn law_operands_at_issue(station: RsInner, inst: Instruction, slots: Seq<FloatingUnitInner>, cycle: u64)
    requires
        inst.spec_issuable(),
    ensures
        ({
            let after = station.spec_apply(inst, slots, cycle);
            let second = spec_fu_ref(inst.src2);
            &&& !inst.op.spec_is_memory() ==> {
                let first = spec_fu_ref(inst.src1)->0;
                &&& after.vj == slots[first.slot()].value
                &&& after.qj == (if slots[first.slot()].value is Some {
                    None
                } else {
                    slots[first.slot()].qi
                })
            }
            &&& second matches Some(id) ==> {
                &&& after.vk == slots[id.slot()].value
                &&& after.qk == (if slots[id.slot()].value is Some {
                    None
                } else {
                    slots[id.slot()].qi
                })
            }
            &&& second is None ==> after.vk == inst.src2 && after.qk is None
        }),
{
}

/// The latency law: a calculation that began in the cycle `C` and takes
/// `L` cycles is finished when the clock shows `C + L - 1`, whatever the
/// other stations do. Until then the countdown stands at the number of
/// cycles that are still to come.
pub proof fn law_latency(m: Machine, i: int)
    requires
        m.inv(),
        0 <= i < RS_COUNT,
        m.stations[i].state == RsState::Calculating,
        m.stations[i].inst->0.left_cycle->0 < m.stations[i].inst->0.op.spec_latency(),
    ensures
        ({
            let inst = m.stations[i].inst->0;
            let end = inst.start_cycle->0 + inst.op.spec_latency() - 1;
            &&& inst.start_cycle is Some
            &&& m.cycle <= end
            &&& inst.left_cycle->0 == end - m.cycle
            &&& m.stations[i].spec_completes() <==> m.cycle == end
        }),
{
    assert(m.stations[i].wf());
    assert(station_timed(m.stations[i], m.cycle as int, m.cycle as int));
}

/// The latency law, seen from the cycle: a station whose calculation is
/// finished when the clock shows `C + L - 1` is ready after the next cycle,
/// its instruction has `C + L - 1` as the last cycle of its calculation, and
/// no other calculating station is ready then.
pub proof fn law_ready_after_latency(m: Machine, i: int)
    requires
        m.inv(),
        !m.spec_violation(),
        m.cycle < u64::MAX,
        0 <= i < RS_COUNT,
        m.stations[i].state == RsState::Calculating,
    ensures
        m.spec_step().stations[i].state == RsState::Ready <==> m.stations[i].spec_completes(),
        m.stations[i].spec_completes() ==> {
            let inst = m.stations[i].inst->0;
            &&& inst.start_cycle is Some
            &&& m.cycle == inst.start_cycle->0 + inst.op.spec_latency() - 1
        },
{
    RsId::lemma_slot_at();
    assert(m.stations[i].wf());
    assert(station_timed(m.stations[i], m.cycle as int, m.cycle as int));
    let m1 = m.spec_begin().spec_issue();
    lemma_free_from(m.stations, m.backlog[0].op.spec_kind(), 0);
    assert(m1.stations[i] == m.stations[i]);
    let m2 = m1.spec_execute();
    assert(m2.spec_write().stations[i] == spec_settle(m2.stations, i));
}

/// The four cycles of a lifecycle come in order: an instruction that has
/// written back was issued before its calculation began, the calculation
/// lasted for the latency of the operation, and the write-back came in the
/// cycle after it.
pub proof fn law_lifecycle_in_order(m: Machine, k: int)
    requires
        m.inv(),
        0 <= k < m.completed.len(),
    ensures
        inst_timed(m.completed[k]),
        m.completed[k].emit_cycle->0 <= m.completed[k].start_cycle->0,
        m.completed[k].start_cycle->0 <= m.completed[k].exec_cycle->0,
        m.completed[k].exec_cycle->0 <= m.completed[k].write_cycle->0,
        m.completed[k].exec_cycle->0 - m.completed[k].start_cycle->0 + 1
            == m.completed[k].op.spec_latency(),
        m.completed[k].write_cycle->0 <= m.cycle,
{
}

/// The laws hold of every state that a run goes through: cycles without a
/// failed issue keep the invariant.
pub proof fn law_cycles_keep_inv(m: Machine, n: nat)
    requires
        m.inv(),
        m.program_ok(),
        m.cycle + n <= u64::MAX,
    ensures
        m.spec_cycles(n).inv(),
        m.spec_cycles(n).program_ok(),
        m.spec_cycles(n).cycle == m.cycle + n,
    decreases n,
{
    if n > 0 {
        law_cycles_keep_inv(m, (n - 1) as nat);
        let before = m.spec_cycles((n - 1) as nat);
        lemma_cycle_inv(before);
        law_one_issue_per_cycle(before);
    }
}

/// A run keeps the invariant: whichever way it ends, the state that it
/// leaves is as the invariant says.
pub proof fn law_run_keeps_inv(m: Machine)
    requires
        m.inv(),
    ensures
        m.spec_run().0.inv(),
    decreases m.spec_cycles_left(),
{
    if !m.finished && m.cycle < u64::MAX && !m.spec_begin().spec_violation() {
        lemma_cycle_inv(m);
        let next = m.spec_cycle();
        if !next.finished && next.cycle <= crate::executer::CYCLE_LIMIT {
            law_run_keeps_inv(next);
        }
    }
}

} // verus!
