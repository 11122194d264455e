//! What a task does over a whole sequence of ticks: how often it fires and
//! what is left of it, as a function of the deltas fed to the scheduler.
use crate::scheduler::{advanced, due, firings, ticked, Mode, SchedulerTask, Slot};
use vstd::prelude::*;

verus! {

/// The sum of the deltas: the time that has passed in all.
pub open spec fn total(deltas: Seq<int>) -> int
    decreases deltas.len(),
{
    if deltas.len() == 0 {
        0
    } else {
        total(deltas.drop_last()) + deltas.last()
    }
}

/// No delta is negative: time does not run backwards.
pub open spec fn forward(deltas: Seq<int>) -> bool {
    forall|k: int| 0 <= k < deltas.len() ==> deltas[k] >= 0
}

/// The slot after one tick for each delta, in order.
pub open spec fn run<B>(slot: Slot<B>, deltas: Seq<int>) -> Slot<B>
    decreases deltas.len(),
{
    if deltas.len() == 0 {
        slot
    } else {
        advanced(run(slot, deltas.drop_last()), deltas.last())
    }
}

/// How often the slot's task fires over one tick for each delta.
pub open spec fn fire_count<B>(slot: Slot<B>, deltas: Seq<int>) -> nat
    decreases deltas.len(),
{
    if deltas.len() == 0 {
        0
    } else {
        let before = fire_count(slot, deltas.drop_last());
        if due(run(slot, deltas.drop_last()), deltas.last()) {
            before + 1
        } else {
            before
        }
    }
}

/// The time by which the slot's task was late over all its firings: at each
/// firing, what the delta took beyond the time that was left.
pub open spec fn overshoot<B>(slot: Slot<B>, deltas: Seq<int>) -> int
    decreases deltas.len(),
{
    if deltas.len() == 0 {
        0
    } else {
        let before = overshoot(slot, deltas.drop_last());
        let at = run(slot, deltas.drop_last());
        if due(at, deltas.last()) {
            before + (deltas.last() - at->0.time_left)
        } else {
            before
        }
    }
}

/// The whole table after one tick for each delta, in order.
pub open spec fn table_after<B>(slots: Seq<Slot<B>>, deltas: Seq<int>) -> Seq<Slot<B>>
    decreases deltas.len(),
{
    if deltas.len() == 0 {
        slots
    } else {
        ticked(table_after(slots, deltas.drop_last()), deltas.last())
    }
}

/// A freshly registered repeated task.
pub open spec fn fresh_repeated<B>(interval: i64, body: B) -> Slot<B> {
    Some(SchedulerTask { mode: Mode::Repeated(interval), body, time_left: interval })
}

/// A freshly registered one-shot task.
pub open spec fn fresh_once<B>(delay: i64, body: B) -> Slot<B> {
    Some(SchedulerTask { mode: Mode::Delay, body, time_left: delay })
}

/// Time does not run backwards, so the total is not negative and no prefix
/// has a larger total.
pub proof fn lemma_total_forward(deltas: Seq<int>)
    requires
        forward(deltas),
    ensures
        total(deltas) >= 0,
        deltas.len() > 0 ==> total(deltas.drop_last()) <= total(deltas),
    decreases deltas.len(),
{
    if deltas.len() > 0 {
        lemma_total_forward(deltas.drop_last());
    }
}

/// The slots of a table do not influence each other: after any ticks, each
/// slot is what it would be had it been ticked alone.
pub proof fn lemma_slots_independent<B>(slots: Seq<Slot<B>>, deltas: Seq<int>)
    ensures
        table_after(slots, deltas).len() == slots.len(),
        forall|i: int|
            0 <= i < slots.len() ==> (#[trigger] table_after(slots, deltas)[i]) == run(
                slots[i],
                deltas,
            ),
    decreases deltas.len(),
{
    if deltas.len() > 0 {
        lemma_slots_independent(slots, deltas.drop_last());
    }
}

/// The account of a repeated task's time. After any ticks the task is still
/// there with its interval and body, and the time that has passed is made up
/// of one interval for each firing, the time by which the firings were late,
/// and what has run down of the current interval.
pub proof fn lemma_repeated_account<B>(interval: i64, body: B, deltas: Seq<int>)
    requires
        interval > 0,
        forward(deltas),
    ensures
        run(fresh_repeated(interval, body), deltas) is Some,
        run(fresh_repeated(interval, body), deltas)->0.mode == Mode::Repeated(interval),
        run(fresh_repeated(interval, body), deltas)->0.body == body,
        0 < run(fresh_repeated(interval, body), deltas)->0.time_left <= interval,
        overshoot(fresh_repeated(interval, body), deltas) >= 0,
        total(deltas) == fire_count(fresh_repeated(interval, body), deltas) * interval + overshoot(
            fresh_repeated(interval, body),
            deltas,
        ) + (interval - run(fresh_repeated(interval, body), deltas)->0.time_left),
    decreases deltas.len(),
{
    if deltas.len() > 0 {
        let start = fresh_repeated(interval, body);
        let front = deltas.drop_last();
        lemma_repeated_account(interval, body, front);
        let n = fire_count(start, front);
        let at = run(start, front)->0;
        assert((n + 1) * (interval as int) == n * (interval as int) + interval) by (nonlinear_arith);
        if due(run(start, front), deltas.last()) {
            assert(fire_count(start, deltas) == n + 1);
            assert(run(start, deltas)->0.time_left == interval);
            assert(overshoot(start, deltas) == overshoot(start, front) + (deltas.last()
                - at.time_left));
        } else {
            assert(fire_count(start, deltas) == n);
            assert(run(start, deltas)->0.time_left == at.time_left - deltas.last());
            assert(overshoot(start, deltas) == overshoot(start, front));
        }
    } else {
        assert(fire_count(fresh_repeated(interval, body), deltas) * interval == 0) by {
            assert(fire_count(fresh_repeated(interval, body), deltas) == 0);
        }
    }
}

/// A repeated task with interval `I` fires `floor(T / I)` times in total
/// time `T` exactly when its firings were late by less, in all, than the
/// time it has left; in particular whenever no firing was late. Each late
/// firing starts the next interval anew, so lateness is never made up.
pub proof fn lemma_repeated_fire_count<B>(interval: i64, body: B, deltas: Seq<int>)
    requires
        interval > 0,
        forward(deltas),
    ensures
        fire_count(fresh_repeated(interval, body), deltas) == total(deltas) / (interval as int)
            <==> overshoot(fresh_repeated(interval, body), deltas) < run(
            fresh_repeated(interval, body),
            deltas,
        )->0.time_left,
        overshoot(fresh_repeated(interval, body), deltas) == 0 ==> fire_count(
            fresh_repeated(interval, body),
            deltas,
        ) == total(deltas) / (interval as int),
        fire_count(fresh_repeated(interval, body), deltas) <= total(deltas) / (interval as int),
{
    lemma_repeated_account(interval, body, deltas);
    let start = fresh_repeated(interval, body);
    let n: int = fire_count(start, deltas) as int;
    let t: int = total(deltas);
    let i: int = interval as int;
    let x: int = overshoot(start, deltas) + (interval - run(start, deltas)->0.time_left);
    assert(t == n * i + x);
    assert((t / i == n) <==> x < i) by (nonlinear_arith)
        requires
            t == n * i + x,
            x >= 0,
            i > 0,
    ;
    assert(n <= t / i) by (nonlinear_arith)
        requires
            t == n * i + x,
            x >= 0,
            i > 0,
    ;
}

/// A one-shot task with delay `D` fires once, at the first tick by which `D`
/// has passed, and never again: over any ticks it has fired once if there
/// was a tick and the total has reached `D`, and not at all otherwise. Once
/// it has fired it is gone; until then it has `D` less the total left.
pub proof fn lemma_once_fire_count<B>(delay: i64, body: B, deltas: Seq<int>)
    requires
        delay >= 0,
        forward(deltas),
    ensures
        fire_count(fresh_once(delay, body), deltas) == if deltas.len() > 0 && total(deltas)
            >= delay {
            1nat
        } else {
            0nat
        },
        run(fresh_once(delay, body), deltas) == if deltas.len() > 0 && total(deltas) >= delay {
            None
        } else {
            Some(
                SchedulerTask {
                    mode: Mode::Delay,
                    body,
                    time_left: (delay - total(deltas)) as i64,
                },
            )
        },
    decreases deltas.len(),
{
    if deltas.len() > 0 {
        lemma_once_fire_count(delay, body, deltas.drop_last());
        lemma_total_forward(deltas);
        lemma_total_forward(deltas.drop_last());
    }
}

/// An empty slot never fires and stays empty, whatever time passes.
pub proof fn lemma_empty_never_fires<B>(deltas: Seq<int>)
    ensures
        fire_count(None::<SchedulerTask<B>>, deltas) == 0,
        run(None::<SchedulerTask<B>>, deltas) == None::<SchedulerTask<B>>,
    decreases deltas.len(),
{
    if deltas.len() > 0 {
        lemma_empty_never_fires::<B>(deltas.drop_last());
    }
}

/// Once a slot has been emptied, no later tick of the table fires it: after
/// any further ticks the slot is still empty, and no firing of the next tick
/// names it.
pub proof fn lemma_removed_never_fires<B>(
    slots: Seq<Slot<B>>,
    slot: int,
    deltas: Seq<int>,
    dt: int,
)
    requires
        0 <= slot < slots.len() <= usize::MAX,
    ensures
        table_after(slots.update(slot, None), deltas)[slot] is None,
        forall|k: int|
            0 <= k < firings(table_after(slots.update(slot, None), deltas), dt).len() ==> (
            #[trigger] firings(table_after(slots.update(slot, None), deltas), dt)[k]).slot != slot,
{
    let table = table_after(slots.update(slot, None), deltas);
    lemma_slots_independent(slots.update(slot, None), deltas);
    lemma_empty_never_fires::<B>(deltas);
    crate::scheduler::lemma_firings(table, dt);
}

} // verus!
