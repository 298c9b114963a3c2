//! Why no instruction is under way for ever.
//!
//! An instruction under way waits only for instructions that were issued
//! before it and are still under way. The pool has eleven stations, so a
//! chain of instructions that wait for each other has eleven links at most,
//! and every link takes the instruction's latency and two cycles more. The
//! rank of a station is the bound that this gives for the station as it
//! stands; it goes down with every cycle.

use vstd::prelude::*;

use crate::coherence::{
    emit_of, lemma_cycle_inv, lemma_execute_inv, lemma_issue_inv, pending, station_fed, station_timed,
    tag_ok,
};
use crate::executer::{spec_hear, spec_settle, Machine, CYCLE_LIMIT};
use crate::laws::law_one_issue_per_cycle;
use crate::units::rs::{lemma_free_from, RsId, RsInner, RsState, RS_COUNT};

verus! {

/// The most cycles that one link of a chain takes: the longest latency and
/// two cycles more.
pub const LINK_CYCLES: u64 = 22;

/// The most cycles that an instruction is under way: eleven links.
pub const TURNAROUND: u64 = 242;

/// The rank that the station at the index `i` counts on for the operand that
/// it awaits from the station `tag`.
pub open spec fn tag_rank(stations: Seq<RsInner>, i: int, tag: Option<RsId>) -> nat
    decreases emit_of(stations, i), 0nat,
{
    match tag {
        Some(t) => if t.in_pool() && 0 <= emit_of(stations, t.slot()) < emit_of(stations, i) {
            rank(stations, t.slot())
        } else {
            0
        },
        None => 0,
    }
}

/// A bound for the number of cycles after which the station at the index `i`
/// is ready: for a calculating station what is left of its countdown and
/// one cycle more; for a busy station the latency of its instruction, two
/// cycles more, and the larger rank of the stations it waits for.
pub open spec fn rank(stations: Seq<RsInner>, i: int) -> nat
    decreases emit_of(stations, i), 1nat,
{
    let station = stations[i];
    match station.state {
        RsState::Calculating => (station.inst->0.left_cycle->0 + 1) as nat,
        RsState::Busy => {
            let first = tag_rank(stations, i, station.qj);
            let second = tag_rank(stations, i, station.qk);
            (station.inst->0.op.spec_latency() + 2 + if first >= second {
                first
            } else {
                second
            }) as nat
        },
        _ => 0,
    }
}

/// How many of the first `n` stations hold an instruction that has not
/// written back and was issued before the cycle `e`.
pub open spec fn earlier(stations: Seq<RsInner>, e: int, n: int) -> nat
    decreases n,
{
    if n <= 0 {
        0
    } else if pending(stations[n - 1]) && emit_of(stations, n - 1) < e {
        earlier(stations, e, n - 1) + 1
    } else {
        earlier(stations, e, n - 1)
    }
}

/// Fewer instructions were issued before an earlier cycle.
proof fn lemma_earlier_mono(stations: Seq<RsInner>, e1: int, e2: int, n: int)
    requires
        e1 <= e2,
    ensures
        earlier(stations, e1, n) <= earlier(stations, e2, n),
        earlier(stations, e2, n) <= n || n < 0,
    decreases n,
{
    if n > 0 {
        lemma_earlier_mono(stations, e1, e2, n - 1);
    }
}

/// Strictly fewer, if an instruction under way was issued in between.
proof fn lemma_earlier_strict(stations: Seq<RsInner>, e1: int, e2: int, n: int, x: int)
    requires
        e1 <= e2,
        0 <= x < n,
        pending(stations[x]),
        e1 <= emit_of(stations, x) < e2,
    ensures
        earlier(stations, e1, n) < earlier(stations, e2, n),
    decreases n,
{
    if x == n - 1 {
        lemma_earlier_mono(stations, e1, e2, n - 1);
    } else {
        lemma_earlier_strict(stations, e1, e2, n - 1, x);
    }
}

/// A station that is not counted leaves room.
proof fn lemma_earlier_room(stations: Seq<RsInner>, e: int, n: int, x: int)
    requires
        0 <= x < n,
        !(pending(stations[x]) && emit_of(stations, x) < e),
    ensures
        earlier(stations, e, n) <= n - 1,
    decreases n,
{
    if x == n - 1 {
        lemma_earlier_mono(stations, e, e, n - 1);
    } else {
        lemma_earlier_room(stations, e, n - 1, x);
    }
}

/// The rank of a station under way is at most a link for the station and
/// one for every instruction under way that was issued before its own.
proof fn lemma_rank_by_links(m: Machine, i: int)
    requires
        m.inv(),
        0 <= i < RS_COUNT,
        m.stations[i].in_flight(),
    ensures
        1 <= rank(m.stations, i) <= LINK_CYCLES * (earlier(m.stations, emit_of(m.stations, i), RS_COUNT as int) + 1),
    decreases emit_of(m.stations, i),
{
    RsId::lemma_slot_at();
    let station = m.stations[i];
    let e = emit_of(m.stations, i);
    let links = earlier(m.stations, e, RS_COUNT as int);
    assert(station.wf());
    if station.state == RsState::Busy {
        assert(station_fed(m.stations, i));
        assert(tag_ok(m.stations, i, station.qj));
        assert(tag_ok(m.stations, i, station.qk));
        if let Some(t) = station.qj {
            assert(m.stations[t.slot()].state != RsState::Ready);
            lemma_rank_by_links(m, t.slot());
            lemma_earlier_strict(m.stations, emit_of(m.stations, t.slot()), e, RS_COUNT as int, t.slot());
            assert(tag_rank(m.stations, i, station.qj) <= LINK_CYCLES * links) by (nonlinear_arith)
                requires
                    tag_rank(m.stations, i, station.qj) <= LINK_CYCLES * (earlier(
                        m.stations,
                        emit_of(m.stations, t.slot()),
                        RS_COUNT as int,
                    ) + 1),
                    earlier(m.stations, emit_of(m.stations, t.slot()), RS_COUNT as int) + 1 <= links,
            ;
        }
        if let Some(t) = station.qk {
            assert(m.stations[t.slot()].state != RsState::Ready);
            lemma_rank_by_links(m, t.slot());
            lemma_earlier_strict(m.stations, emit_of(m.stations, t.slot()), e, RS_COUNT as int, t.slot());
            assert(tag_rank(m.stations, i, station.qk) <= LINK_CYCLES * links) by (nonlinear_arith)
                requires
                    tag_rank(m.stations, i, station.qk) <= LINK_CYCLES * (earlier(
                        m.stations,
                        emit_of(m.stations, t.slot()),
                        RS_COUNT as int,
                    ) + 1),
                    earlier(m.stations, emit_of(m.stations, t.slot()), RS_COUNT as int) + 1 <= links,
            ;
        }
        assert(tag_rank(m.stations, i, station.qj) <= LINK_CYCLES * links);
        assert(tag_rank(m.stations, i, station.qk) <= LINK_CYCLES * links);
    }
}

/// The rank of a station under way is at most the turnaround.
pub proof fn lemma_rank_bound(m: Machine, i: int)
    requires
        m.inv(),
        0 <= i < RS_COUNT,
        m.stations[i].in_flight(),
    ensures
        1 <= rank(m.stations, i) <= TURNAROUND,
        TURNAROUND < CYCLE_LIMIT,
{
    lemma_rank_by_links(m, i);
    lemma_earlier_room(m.stations, emit_of(m.stations, i), RS_COUNT as int, i);
}

/// What a cycle does to a station under way.
///
/// The station is ready after the step exactly if its countdown had run
/// out. Otherwise it is still under way after the cycle, with the same
/// instruction: a calculating station has counted down by one, a busy station
/// whose operands were there calculates with the countdown at the latency,
/// and a busy station that waited is busy and waits at most for what it
/// waited for, and only for stations that are not ready after the step.
proof fn lemma_station_across(m: Machine, i: int)
    requires
        m.inv(),
        !m.spec_violation(),
        m.cycle < u64::MAX,
        0 <= i < RS_COUNT,
        m.stations[i].in_flight(),
    ensures
        ({
            let before = m.stations[i];
            let stepped = m.spec_step().stations[i];
            let after = m.spec_cycle().stations[i];
            &&& stepped.state == RsState::Ready <==> before.spec_completes()
            &&& !before.spec_completes() ==> {
                &&& after.in_flight()
                &&& emit_of(m.spec_cycle().stations, i) == emit_of(m.stations, i)
                &&& after.inst->0.op == before.inst->0.op
                &&& before.state == RsState::Calculating ==> after.state == RsState::Calculating
                    && after.inst->0.left_cycle->0 + 1 == before.inst->0.left_cycle->0
                &&& before.state == RsState::Busy && before.spec_is_ready() ==> after.state
                    == RsState::Calculating && after.inst->0.left_cycle->0
                    == before.inst->0.op.spec_latency()
                &&& before.state == RsState::Busy && !before.spec_is_ready() ==> {
                    &&& after.state == RsState::Busy
                    &&& after.qj matches Some(t) ==> before.qj == Some(t) && m.spec_step().stations[t.slot()].state
                        != RsState::Ready
                    &&& after.qk matches Some(t) ==> before.qk == Some(t) && m.spec_step().stations[t.slot()].state
                        != RsState::Ready
                }
            }
        }),
{
    RsId::lemma_slot_at();
    let before = m.stations[i];
    assert(before.wf());
    assert(station_timed(before, m.cycle as int, m.cycle as int));
    assert(station_fed(m.stations, i));
    let m1 = m.spec_begin().spec_issue();
    lemma_free_from(m.stations, m.backlog[0].op.spec_kind(), 0);
    assert(m1.stations[i] == before);
    lemma_issue_inv(m);
    lemma_execute_inv(m1);
    let m2 = m1.spec_execute();
    assert(m2.stations[i] == before.spec_tick(m1.slots, m1.cycle));
    let m3 = m2.spec_write();
    assert(m3.stations[i] == spec_settle(m2.stations, i));
    assert(m.spec_step().stations == m3.stations);
    if before.state == RsState::Busy && !before.spec_is_ready() {
        let polled = m2.stations[i];
        let after = m3.stations[i];
        assert(after == spec_hear(polled, m2.stations, RS_COUNT as int));
        assert(station_fed(m2.stations, i));
        if let Some(t) = after.qj {
            assert(tag_ok(m2.stations, i, polled.qj));
            assert(m2.stations[t.slot()].state == RsState::Ready ==> m2.stations[t.slot()].spec_writes());
            assert(m3.stations[t.slot()] == spec_settle(m2.stations, t.slot()));
        }
        if let Some(t) = after.qk {
            assert(tag_ok(m2.stations, i, polled.qk));
            assert(m2.stations[t.slot()].state == RsState::Ready ==> m2.stations[t.slot()].spec_writes());
            assert(m3.stations[t.slot()] == spec_settle(m2.stations, t.slot()));
        }
    }
}

/// A cycle brings every station under way closer to its end: the station is
/// ready after the step, or it is still under way after the cycle and its
/// rank has gone down.
pub proof fn lemma_rank_decreases(m: Machine, i: int)
    requires
        m.inv(),
        !m.spec_violation(),
        m.cycle < u64::MAX,
        0 <= i < RS_COUNT,
        m.stations[i].in_flight(),
    ensures
        m.spec_step().stations[i].state == RsState::Ready || {
            &&& m.spec_cycle().stations[i].in_flight()
            &&& rank(m.spec_cycle().stations, i) < rank(m.stations, i)
        },
    decreases emit_of(m.stations, i),
{
    RsId::lemma_slot_at();
    lemma_station_across(m, i);
    lemma_cycle_inv(m);
    let before = m.stations[i];
    let next = m.spec_cycle();
    let after = next.stations[i];
    assert(before.wf());
    assert(after.wf());
    if before.state == RsState::Busy && !before.spec_is_ready() {
        assert(station_fed(m.stations, i));
        assert(station_fed(next.stations, i));
        assert(tag_ok(m.stations, i, before.qj));
        assert(tag_ok(m.stations, i, before.qk));
        assert(tag_ok(next.stations, i, after.qj));
        assert(tag_ok(next.stations, i, after.qk));
        if let Some(t) = before.qj {
            assert(m.stations[t.slot()].state != RsState::Ready);
            lemma_rank_decreases(m, t.slot());
            lemma_rank_by_links(m, t.slot());
        }
        if let Some(t) = before.qk {
            assert(m.stations[t.slot()].state != RsState::Ready);
            lemma_rank_decreases(m, t.slot());
            lemma_rank_by_links(m, t.slot());
        }
        assert(tag_rank(next.stations, i, after.qj) <= tag_rank(m.stations, i, before.qj));
        assert(tag_rank(next.stations, i, after.qk) <= tag_rank(m.stations, i, before.qk));
        assert(after.qj is Some ==> tag_rank(next.stations, i, after.qj) < tag_rank(m.stations, i, before.qj));
        assert(after.qk is Some ==> tag_rank(next.stations, i, after.qk) < tag_rank(m.stations, i, before.qk));
        assert(before.qj is Some ==> tag_rank(m.stations, i, before.qj) >= 1);
        assert(before.qk is Some ==> tag_rank(m.stations, i, before.qk) >= 1);
    }
}

/// To run `n + 1` cycles is to run one cycle and then `n`.
pub proof fn lemma_cycles_shift(m: Machine, n: nat)
    ensures
        m.spec_cycles(n + 1) == m.spec_cycle().spec_cycles(n),
    decreases n,
{
    if n > 0 {
        lemma_cycles_shift(m, (n - 1) as nat);
    } else {
        assert(m.spec_cycles(1) == m.spec_cycles(0).spec_cycle());
    }
}

/// Every instruction that was issued is ready within the turnaround, which
/// is less than the limit of a run.
///
/// In a state as the invariant says, with a backlog of instructions that can
/// be issued, a station that holds an instruction under way is ready after
/// the `n`-th of the cycles that follow, for an `n` that is at most the
/// station's rank and so at most the turnaround. The cycle counter has room
/// for as many cycles as the rank.
pub proof fn law_issued_reaches_ready(m: Machine, i: int) -> (n: nat)
    requires
        m.inv(),
        m.program_ok(),
        m.cycle + rank(m.stations, i) <= u64::MAX,
        0 <= i < RS_COUNT,
        m.stations[i].in_flight(),
    ensures
        1 <= n <= rank(m.stations, i),
        rank(m.stations, i) <= TURNAROUND,
        TURNAROUND < CYCLE_LIMIT,
        m.spec_cycles((n - 1) as nat).spec_step().stations[i].state == RsState::Ready,
    decreases rank(m.stations, i),
{
    lemma_rank_bound(m, i);
    lemma_rank_decreases(m, i);
    if m.spec_step().stations[i].state == RsState::Ready {
        1
    } else {
        let next = m.spec_cycle();
        lemma_cycle_inv(m);
        law_one_issue_per_cycle(m);
        lemma_rank_bound(next, i);
        let rest = law_issued_reaches_ready(next, i);
        lemma_cycles_shift(m, (rest - 1) as nat);
        rest + 1
    }
}

} // verus!
