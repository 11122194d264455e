use testgen::scheduler::{Fired, Mode, Scheduler, SchedulerTask};

fn slots_of(fired: &Vec<Fired<u32>>) -> Vec<usize> {
    let mut out = Vec::new();
    for f in fired.iter() {
        out.push(f.slot);
    }
    out
}

fn bodies_of(fired: &Vec<Fired<u32>>) -> Vec<u32> {
    let mut out = Vec::new();
    for f in fired.iter() {
        out.push(f.body);
    }
    out
}

#[test]
fn repeated_task_fires_once_per_interval() {
    let mut s: Scheduler<u32> = Scheduler::new();
    let h = s.once_every(10, 7);
    assert_eq!(h.index(), 0);
    assert!(s.tick(5).is_empty());
    let fired = s.tick(5);
    assert_eq!(slots_of(&fired), vec![0]);
    assert_eq!(bodies_of(&fired), vec![7]);
    assert!(s.tick(9).is_empty());
    let fired = s.tick(1);
    assert_eq!(bodies_of(&fired), vec![7]);
    assert_eq!(s.time_left(&h), Some(10));
}

#[test]
fn registration_never_fires_at_once() {
    let mut s: Scheduler<u32> = Scheduler::new();
    let h = s.once_every(10, 1);
    assert_eq!(s.time_left(&h), Some(10));
    assert!(s.tick(0).is_empty());
    assert!(s.tick(9).is_empty());
    assert_eq!(s.time_left(&h), Some(1));
    assert_eq!(s.tick(1).len(), 1);
}

#[test]
fn repeated_task_counts_whole_intervals_without_overshoot() {
    let mut s: Scheduler<u32> = Scheduler::new();
    s.once_every(10, 1);
    let deltas: [i64; 8] = [3, 7, 10, 1, 2, 3, 4, 5];
    let mut count = 0;
    let mut total = 0;
    for dt in deltas.iter() {
        count += s.tick(*dt).len();
        total += *dt;
    }
    assert_eq!(total, 35);
    assert_eq!(count, 3);
}

#[test]
fn overshoot_is_not_carried_over() {
    let mut s: Scheduler<u32> = Scheduler::new();
    let h = s.once_every(10, 1);
    assert_eq!(s.tick(15).len(), 1);
    assert_eq!(s.time_left(&h), Some(10));
    assert_eq!(s.tick(15).len(), 1);
    assert_eq!(s.time_left(&h), Some(10));
    // 30 units have passed, but only two firings: each late firing starts a whole interval.
    assert!(s.tick(9).is_empty());
    assert_eq!(s.tick(1).len(), 1);
}

#[test]
fn one_tick_fires_a_task_at_most_once() {
    let mut s: Scheduler<u32> = Scheduler::new();
    s.once_every(10, 1);
    assert_eq!(s.tick(1000).len(), 1);
}

#[test]
fn one_shot_fires_once_and_leaves() {
    let mut s: Scheduler<u32> = Scheduler::new();
    let h = s.delay_by(10, 9);
    assert!(s.tick(4).is_empty());
    assert_eq!(s.time_left(&h), Some(6));
    let fired = s.tick(6);
    assert_eq!(bodies_of(&fired), vec![9]);
    assert_eq!(s.time_left(&h), None);
    assert!(s.tick(10).is_empty());
    assert!(s.tick(100).is_empty());
    assert_eq!(s.slot_count(), 1);
}

#[test]
fn one_shot_without_delay_fires_at_the_first_tick() {
    let mut s: Scheduler<u32> = Scheduler::new();
    s.delay_by(0, 3);
    let fired = s.tick(0);
    assert_eq!(bodies_of(&fired), vec![3]);
    assert!(s.tick(0).is_empty());
}

#[test]
fn removed_task_never_fires() {
    let mut s: Scheduler<u32> = Scheduler::new();
    let h = s.once_every(10, 1);
    let k = s.delay_by(10, 2);
    assert!(s.tick(9).is_empty());
    s.remove(h);
    let fired = s.tick(1);
    assert_eq!(bodies_of(&fired), vec![2]);
    assert!(s.tick(10).is_empty());
    assert!(s.tick(10).is_empty());
    assert_eq!(s.time_left(&k), None);
}

#[test]
fn freed_slot_is_reused_by_the_next_registration() {
    let mut s: Scheduler<u32> = Scheduler::new();
    let a = s.once_every(10, 1);
    let b = s.once_every(10, 2);
    let c = s.once_every(10, 3);
    assert_eq!((a.index(), b.index(), c.index()), (0, 1, 2));
    s.remove(b);
    s.remove(a);
    let d = s.delay_by(5, 4);
    assert_eq!(d.index(), 1);
    let e = s.delay_by(5, 5);
    assert_eq!(e.index(), 0);
    let f = s.delay_by(5, 6);
    assert_eq!(f.index(), 3);
    assert_eq!(s.slot_count(), 4);
}

#[test]
fn slot_of_a_fired_one_shot_is_reused() {
    let mut s: Scheduler<u32> = Scheduler::new();
    s.once_every(10, 1);
    let once = s.delay_by(3, 2);
    assert_eq!(once.index(), 1);
    assert_eq!(s.tick(3).len(), 1);
    let next = s.once_every(4, 3);
    assert_eq!(next.index(), 1);
    assert_eq!(s.slot_count(), 2);
}

#[test]
fn removing_an_empty_slot_changes_nothing() {
    let mut s: Scheduler<u32> = Scheduler::new();
    let once = s.delay_by(1, 2);
    assert_eq!(s.tick(1).len(), 1);
    // The slot was released when the task fired; removing it again must not free it twice.
    s.remove(once);
    let a = s.delay_by(1, 3);
    let b = s.delay_by(1, 4);
    assert_eq!(a.index(), 0);
    assert_eq!(b.index(), 1);
    assert_eq!(s.slot_count(), 2);
}

#[test]
fn due_tasks_fire_in_slot_order() {
    let mut s: Scheduler<u32> = Scheduler::new();
    s.once_every(30, 10);
    s.delay_by(20, 11);
    s.once_every(5, 12);
    s.delay_by(40, 13);
    s.once_every(20, 14);
    let fired = s.tick(20);
    assert_eq!(slots_of(&fired), vec![1, 2, 4]);
    assert_eq!(bodies_of(&fired), vec![11, 12, 14]);
    let fired = s.tick(20);
    assert_eq!(slots_of(&fired), vec![0, 2, 3, 4]);
}

#[test]
fn add_task_takes_a_task_as_it_is() {
    let mut s: Scheduler<u32> = Scheduler::new();
    let h = s.add_task(SchedulerTask { mode: Mode::Repeated(10), body: 1, time_left: 4 });
    assert_eq!(s.time_left(&h), Some(4));
    assert_eq!(s.tick(4).len(), 1);
    assert_eq!(s.time_left(&h), Some(10));
}

#[test]
fn default_scheduler_is_empty() {
    let mut s: Scheduler<u32> = Scheduler::default();
    assert_eq!(s.slot_count(), 0);
    assert!(s.tick(5).is_empty());
}
