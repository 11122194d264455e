//! Cooperative task scheduler: a table of reusable slots, each empty or
//! holding one task that counts down as time is fed in.
//!
//! Time is a signed count of units of the caller's choosing. A task's body
//! is a value of the caller's type `B`; when a task is due, `tick` hands its
//! body back, in slot order, and the caller dispatches on it.
use std::collections::VecDeque;
use vstd::prelude::*;

verus! {

/// A back-reference to a slot of the task table, used to remove a task.
pub struct Handle(usize);

impl Handle {
    /// The slot this handle refers to.
    pub closed spec fn slot(&self) -> int {
        self.0 as int
    }

    /// The index of the slot this handle refers to.
    pub fn index(&self) -> (r: usize)
        ensures
            r == self.slot(),
    {
        self.0
    }
}

/// How a task behaves once it is due.
#[derive(Clone, Copy)]
pub enum Mode {
    /// Fires each time the given interval has run down, then starts over.
    Repeated(i64),
    /// Fires once, after which its slot is released.
    Delay,
}

/// A scheduled task: its mode, its body and the time left until it is due.
#[derive(Clone, Copy)]
pub struct SchedulerTask<B> {
    pub mode: Mode,
    pub body: B,
    pub time_left: i64,
}

/// One firing of a task: the slot it sat in and its body.
pub struct Fired<B> {
    pub slot: usize,
    pub body: B,
}

/// The contents of one slot.
pub type Slot<B> = Option<SchedulerTask<B>>;

/// A slot holds a well-formed task: a repeated task has a positive interval
/// and between one unit and a whole interval left; a one-shot task has no
/// negative time left.
pub open spec fn slot_wf<B>(slot: Slot<B>) -> bool {
    match slot {
        None => true,
        Some(t) => match t.mode {
            Mode::Repeated(interval) => 0 < t.time_left <= interval,
            Mode::Delay => 0 <= t.time_left,
        },
    }
}

/// Whether the task in `slot`, if any, fires when `dt` units pass.
pub open spec fn due<B>(slot: Slot<B>, dt: int) -> bool {
    match slot {
        None => false,
        Some(t) => t.time_left - dt <= 0,
    }
}

/// Whether `slot` holds a one-shot task that fires when `dt` units pass.
pub open spec fn due_once<B>(slot: Slot<B>, dt: int) -> bool {
    due(slot, dt) && slot->0.mode is Delay
}

/// The slot after `dt` units have passed: a task that is not yet due has
/// `dt` less time left; a repeated task that fired starts over at its fixed
/// interval, whatever the overshoot; a one-shot task that fired is gone.
pub open spec fn advanced<B>(slot: Slot<B>, dt: int) -> Slot<B> {
    match slot {
        None => None,
        Some(t) => if t.time_left - dt > 0 {
            Some(SchedulerTask { mode: t.mode, body: t.body, time_left: (t.time_left - dt) as i64 })
        } else {
            match t.mode {
                Mode::Repeated(interval) => Some(
                    SchedulerTask { mode: t.mode, body: t.body, time_left: interval },
                ),
                Mode::Delay => None,
            }
        },
    }
}

/// The whole table after `dt` units have passed.
pub open spec fn ticked<B>(slots: Seq<Slot<B>>, dt: int) -> Seq<Slot<B>> {
    Seq::new(slots.len(), |i: int| advanced(slots[i], dt))
}

/// The firings that `dt` units cause, in ascending slot order.
pub open spec fn firings<B>(slots: Seq<Slot<B>>, dt: int) -> Seq<Fired<B>>
    decreases slots.len(),
{
    if slots.len() == 0 {
        Seq::empty()
    } else {
        let rest = firings(slots.drop_last(), dt);
        if due(slots.last(), dt) {
            rest.push(Fired { slot: (slots.len() - 1) as usize, body: slots.last()->0.body })
        } else {
            rest
        }
    }
}

/// The slots that `dt` units release (one-shot tasks that fire), ascending.
pub open spec fn released<B>(slots: Seq<Slot<B>>, dt: int) -> Seq<usize>
    decreases slots.len(),
{
    if slots.len() == 0 {
        Seq::empty()
    } else {
        let rest = released(slots.drop_last(), dt);
        if due_once(slots.last(), dt) {
            rest.push((slots.len() - 1) as usize)
        } else {
            rest
        }
    }
}

/// The released slots are exactly the slots of one-shot tasks that are due,
/// each once and in ascending order.
pub proof fn lemma_released<B>(slots: Seq<Slot<B>>, dt: int)
    requires
        slots.len() <= usize::MAX,
    ensures
        released(slots, dt).len() <= slots.len(),
        forall|k: int|
            0 <= k < released(slots, dt).len() ==> {
                &&& (#[trigger] released(slots, dt)[k]) < slots.len()
                &&& due_once(slots[released(slots, dt)[k] as int], dt)
            },
        forall|j: int, k: int|
            0 <= j < k < released(slots, dt).len() ==> released(slots, dt)[j] < released(
                slots,
                dt,
            )[k],
        forall|i: int|
            0 <= i < slots.len() && due_once(#[trigger] slots[i], dt) ==> released(
                slots,
                dt,
            ).contains(i as usize),
    decreases slots.len(),
{
    if slots.len() > 0 {
        let front = slots.drop_last();
        lemma_released(front, dt);
        let rest = released(front, dt);
        let all = released(slots, dt);
        assert forall|k: int| 0 <= k < rest.len() implies all[k] == rest[k] && slots[rest[k] as int]
            == front[rest[k] as int] by {}
        assert forall|i: int| 0 <= i < slots.len() && due_once(#[trigger] slots[i], dt) implies all.contains(
            i as usize,
        ) by {
            if i < slots.len() - 1 {
                assert(front[i] == slots[i]);
                let k = choose|k: int| 0 <= k < rest.len() && rest[k] == i as usize;
                assert(all[k] == i as usize);
            } else {
                assert(all[all.len() - 1] == i as usize);
            }
        }
    }
}

/// The firings are exactly the slots whose task is due, each once, in
/// ascending slot order, each with the body of the task in that slot.
pub proof fn lemma_firings<B>(slots: Seq<Slot<B>>, dt: int)
    requires
        slots.len() <= usize::MAX,
    ensures
        firings(slots, dt).len() <= slots.len(),
        forall|k: int|
            0 <= k < firings(slots, dt).len() ==> {
                &&& (#[trigger] firings(slots, dt)[k]).slot < slots.len()
                &&& due(slots[firings(slots, dt)[k].slot as int], dt)
                &&& firings(slots, dt)[k].body == slots[firings(slots, dt)[k].slot as int]->0.body
            },
        forall|j: int, k: int|
            0 <= j < k < firings(slots, dt).len() ==> firings(slots, dt)[j].slot < firings(
                slots,
                dt,
            )[k].slot,
        forall|i: int|
            0 <= i < slots.len() && due(#[trigger] slots[i], dt) ==> firings(slots, dt).contains(
                Fired { slot: i as usize, body: slots[i]->0.body },
            ),
    decreases slots.len(),
{
    if slots.len() > 0 {
        let front = slots.drop_last();
        lemma_firings(front, dt);
        let rest = firings(front, dt);
        let all = firings(slots, dt);
        assert forall|k: int| 0 <= k < rest.len() implies all[k] == rest[k] && slots[rest[k].slot as int]
            == front[rest[k].slot as int] by {}
        assert forall|i: int| 0 <= i < slots.len() && due(#[trigger] slots[i], dt) implies all.contains(
            Fired { slot: i as usize, body: slots[i]->0.body },
        ) by {
            let f = Fired { slot: i as usize, body: slots[i]->0.body };
            if i < slots.len() - 1 {
                assert(front[i] == slots[i]);
                let k = choose|k: int| 0 <= k < rest.len() && rest[k] == f;
                assert(all[k] == f);
            } else {
                assert(all[all.len() - 1] == f);
            }
        }
    }
}

/// The task table: slots, and the indices of the vacated ones in the order
/// in which they will be given out again.
pub struct Scheduler<B> {
    unused_ids: VecDeque<usize>,
    tasks: Vec<Slot<B>>,
}

impl<B: Copy> Scheduler<B> {
    /// The slots of the table, by index.
    pub closed spec fn slots(&self) -> Seq<Slot<B>> {
        self.tasks@
    }

    /// The vacated slots, the next to be reused first.
    pub closed spec fn free(&self) -> Seq<usize> {
        self.unused_ids@
    }

    /// Every task is well formed, and the free list holds exactly the empty
    /// slots, each once.
    pub open spec fn wf(&self) -> bool {
        &&& forall|i: int| 0 <= i < self.slots().len() ==> slot_wf(#[trigger] self.slots()[i])
        &&& forall|k: int|
            0 <= k < self.free().len() ==> (#[trigger] self.free()[k]) < self.slots().len()
                && self.slots()[self.free()[k] as int] is None
        &&& forall|j: int, k: int|
            0 <= j < k < self.free().len() ==> self.free()[j] != self.free()[k]
        &&& forall|i: int|
            0 <= i < self.slots().len() && (#[trigger] self.slots()[i]) is None
                ==> self.free().contains(i as usize)
    }

    /// An empty table.
    pub fn new() -> (s: Self)
        ensures
            s.wf(),
            s.slots() == Seq::<Slot<B>>::empty(),
            s.free() == Seq::<usize>::empty(),
    {
        Scheduler { unused_ids: VecDeque::new(), tasks: Vec::new() }
    }

    /// The number of slots, empty ones included.
    pub fn slot_count(&self) -> (n: usize)
        ensures
            n == self.slots().len(),
    {
        self.tasks.len()
    }

    /// The time left for the task in the handle's slot, if the slot exists
    /// and holds a task.
    pub fn time_left(&self, handle: &Handle) -> (left: Option<i64>)
        ensures
            left == if handle.slot() < self.slots().len() {
                match self.slots()[handle.slot()] {
                    Some(t) => Some(t.time_left),
                    None => None,
                }
            } else {
                None
            },
    {
        if handle.0 < self.tasks.len() {
            match self.tasks[handle.0] {
                Some(t) => Some(t.time_left),
                None => None,
            }
        } else {
            None
        }
    }

    /// Lets `dt` units of time pass. Every task has `dt` less time left; the
    /// tasks that are then due fire, each once, and their bodies come back in
    /// ascending slot order. A repeated task that fired starts over at its
    /// fixed interval; the slot of a one-shot task that fired is released.
    /// No body runs during the pass, so a task that the caller registers
    /// when it handles a firing is first visited by the next tick.
    pub fn tick(&mut self, dt: i64) -> (fired: Vec<Fired<B>>)
        requires
            old(self).wf(),
            dt >= 0,
        ensures
            final(self).wf(),
            final(self).slots() == ticked(old(self).slots(), dt as int),
            fired@ == firings(old(self).slots(), dt as int),
            final(self).free() == old(self).free() + released(old(self).slots(), dt as int),
    {
        let ghost before = self.tasks@;
        let ghost free_before = self.unused_ids@;
        let mut fired: Vec<Fired<B>> = Vec::new();
        let n: usize = self.tasks.len();
        let mut idx: usize = 0;
        while idx < n
            invariant
                idx <= n,
                n == before.len(),
                self.tasks@.len() == n,
                forall|i: int| 0 <= i < before.len() ==> slot_wf(#[trigger] before[i]),
                forall|i: int| 0 <= i < idx ==> self.tasks@[i] == advanced(before[i], dt as int),
                forall|i: int| idx <= i < n ==> self.tasks@[i] == before[i],
                fired@ == firings(before.take(idx as int), dt as int),
                self.unused_ids@ == free_before + released(before.take(idx as int), dt as int),
                dt >= 0,
            decreases n - idx,
        {
            proof {
                assert(before.take(idx + 1).drop_last() =~= before.take(idx as int));
                assert(before.take(idx + 1).last() == before[idx as int]);
                assert(slot_wf(before[idx as int]));
            }
            match self.tasks[idx] {
                None => {},
                Some(task) => {
                    let new_time: i64 = task.time_left - dt;
                    if new_time > 0 {
                        self.tasks.set(
                            idx,
                            Some(
                                SchedulerTask {
                                    mode: task.mode,
                                    body: task.body,
                                    time_left: new_time,
                                },
                            ),
                        );
                    } else {
                        fired.push(Fired { slot: idx, body: task.body });
                        match task.mode {
                            Mode::Repeated(how_often) => {
                                self.tasks.set(
                                    idx,
                                    Some(
                                        SchedulerTask {
                                            mode: task.mode,
                                            body: task.body,
                                            time_left: how_often,
                                        },
                                    ),
                                );
                            },
                            Mode::Delay => {
                                self.tasks.set(idx, None);
                                self.unused_ids.push_back(idx);
                            },
                        }
                    }
                },
            }
            proof {
                let r0 = released(before.take(idx as int), dt as int);
                if due_once(before[idx as int], dt as int) {
                    assert(free_before + r0.push(idx) =~= (free_before + r0).push(idx));
                }
            }
            idx += 1;
        }
        proof {
            assert(before.take(n as int) =~= before);
            assert(self.tasks@ =~= ticked(before, dt as int));
            lemma_released(before, dt as int);
            let rel = released(before, dt as int);
            let now_free = self.unused_ids@;
            let now = self.tasks@;
            assert forall|i: int| 0 <= i < now.len() && (#[trigger] now[i]) is None implies now_free.contains(
                i as usize,
            ) by {
                if before[i] is None {
                    let k = choose|k: int| 0 <= k < free_before.len() && free_before[k] == i as usize;
                    assert(now_free[k] == i as usize);
                } else {
                    assert(due_once(before[i], dt as int));
                    let k = choose|k: int| 0 <= k < rel.len() && rel[k] == i as usize;
                    assert(now_free[free_before.len() + k] == i as usize);
                }
            }
            assert forall|k: int| 0 <= k < now_free.len() implies (#[trigger] now_free[k]) < now.len()
                && now[now_free[k] as int] is None by {
                if k >= free_before.len() {
                    assert(now_free[k] == rel[k - free_before.len()]);
                }
            }
            assert forall|j: int, k: int| 0 <= j < k < now_free.len() implies now_free[j]
                != now_free[k] by {
                if k >= free_before.len() {
                    assert(now_free[k] == rel[k - free_before.len()]);
                    if j >= free_before.len() {
                        assert(now_free[j] == rel[j - free_before.len()]);
                    }
                }
            }
        }
        fired
    }

    /// Registers a task that fires each time `dt` units have passed, for the
    /// first time once `dt` units have passed after registration.
    pub fn once_every(&mut self, dt: i64, body: B) -> (handle: Handle)
        requires
            old(self).wf(),
            dt > 0,
        ensures
            final(self).wf(),
            registered(
                old(self).slots(),
                old(self).free(),
                SchedulerTask { mode: Mode::Repeated(dt), body, time_left: dt },
                final(self).slots(),
                final(self).free(),
                handle.slot(),
            ),
    {
        self.add_task(SchedulerTask { mode: Mode::Repeated(dt), body, time_left: dt })
    }

    /// Registers a task that fires once, at the first tick by which `dt`
    /// units have passed, and then leaves its slot.
    pub fn delay_by(&mut self, dt: i64, body: B) -> (handle: Handle)
        requires
            old(self).wf(),
            dt >= 0,
        ensures
            final(self).wf(),
            registered(
                old(self).slots(),
                old(self).free(),
                SchedulerTask { mode: Mode::Delay, body, time_left: dt },
                final(self).slots(),
                final(self).free(),
                handle.slot(),
            ),
    {
        self.add_task(SchedulerTask { mode: Mode::Delay, body, time_left: dt })
    }

    /// Empties the handle's slot and puts it at the end of the free list.
    /// Does nothing if the slot is already empty.
    pub fn remove(&mut self, handle: Handle)
        requires
            old(self).wf(),
            handle.slot() < old(self).slots().len(),
        ensures
            final(self).wf(),
            final(self).slots() == old(self).slots().update(handle.slot(), None),
            final(self).free() == if old(self).slots()[handle.slot()] is Some {
                old(self).free().push(handle.slot() as usize)
            } else {
                old(self).free()
            },
    {
        let ghost before = self.tasks@;
        let ghost free_before = self.unused_ids@;
        let idx: usize = handle.0;
        if self.tasks[idx].is_some() {
            self.tasks.set(idx, None);
            self.unused_ids.push_back(idx);
            proof {
                let now_free = self.unused_ids@;
                let now = self.tasks@;
                assert forall|i: int| 0 <= i < now.len() && (#[trigger] now[i]) is None implies now_free.contains(
                    i as usize,
                ) by {
                    if i == idx {
                        assert(now_free[free_before.len() as int] == idx);
                    } else {
                        assert(before[i] is None);
                        let k = choose|k: int|
                            0 <= k < free_before.len() && free_before[k] == i as usize;
                        assert(now_free[k] == i as usize);
                    }
                }
            }
        } else {
            assert(self.tasks@ =~= before.update(idx as int, None));
        }
    }

    /// Puts a task into the first slot of the free list, or into a new slot
    /// at the end of the table if no slot is free.
    pub fn add_task(&mut self, task: SchedulerTask<B>) -> (handle: Handle)
        requires
            old(self).wf(),
            slot_wf(Some(task)),
        ensures
            final(self).wf(),
            registered(
                old(self).slots(),
                old(self).free(),
                task,
                final(self).slots(),
                final(self).free(),
                handle.slot(),
            ),
    {
        let ghost before = self.tasks@;
        let ghost free_before = self.unused_ids@;
        match self.unused_ids.pop_front() {
            Some(idx) => {
                assert(idx == free_before[0]);
                self.tasks.set(idx, Some(task));
                proof {
                    let now_free = self.unused_ids@;
                    let now = self.tasks@;
                    assert(now_free =~= free_before.drop_first());
                    assert forall|k: int| 0 <= k < now_free.len() implies (#[trigger] now_free[k])
                        < now.len() && now[now_free[k] as int] is None by {
                        assert(now_free[k] == free_before[k + 1]);
                    }
                    assert forall|j: int, k: int| 0 <= j < k < now_free.len() implies now_free[j]
                        != now_free[k] by {
                        assert(now_free[k] == free_before[k + 1]);
                        assert(now_free[j] == free_before[j + 1]);
                    }
                    assert forall|i: int| 0 <= i < now.len() && (#[trigger] now[i]) is None implies now_free.contains(
                        i as usize,
                    ) by {
                        assert(self.tasks.len() == now.len());
                        assert(before[i] is None);
                        assert(free_before.contains(i as usize));
                        let k = choose|k: int|
                            0 <= k < free_before.len() && free_before[k] == i as usize;
                        assert(now_free[k - 1] == i as usize);
                    }
                }
                Handle(idx)
            },
            None => {
                self.tasks.push(Some(task));
                proof {
                    let now = self.tasks@;
                    assert forall|i: int| 0 <= i < now.len() && (#[trigger] now[i]) is None implies self.unused_ids@.contains(
                        i as usize,
                    ) by {
                        assert(before[i] is None);
                        assert(free_before.contains(i as usize));
                    }
                }
                Handle(self.tasks.len() - 1)
            },
        }
    }
}

/// What registering `task` does to a table: the task goes into the first
/// slot of the free list, which leaves the list, or into a new last slot if
/// the list is empty; `slot` is where it went. No other slot changes.
pub open spec fn registered<B>(
    slots: Seq<Slot<B>>,
    free: Seq<usize>,
    task: SchedulerTask<B>,
    new_slots: Seq<Slot<B>>,
    new_free: Seq<usize>,
    slot: int,
) -> bool {
    if free.len() > 0 {
        &&& slot == free[0]
        &&& new_slots == slots.update(slot, Some(task))
        &&& new_free == free.drop_first()
    } else {
        &&& slot == slots.len()
        &&& new_slots == slots.push(Some(task))
        &&& new_free == free
    }
}

impl<B: Copy> Default for Scheduler<B> {
    fn default() -> (s: Self)
        ensures
            s.wf(),
            s.slots() == Seq::<Slot<B>>::empty(),
            s.free() == Seq::<usize>::empty(),
    {
        Scheduler::new()
    }
}

} // verus!
