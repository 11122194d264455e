use testgen::action::{Account, Action, ActionKind, Address, Secret};
use testgen::simulation::{
    chance_hit, Role, Simulation, TaskKind, ACCOUNT_CREATION_INTERVAL, CHANGE_AUTHOR_INTERVAL,
    CREATE_ACCOUNT_CHANCE, MINER_PROPORTION,
};

fn account(tag: u8) -> Account {
    Account::new(Address { bytes: [tag; 20] }, Secret { bytes: [tag; 32] }, format!("pass{}", tag))
}

#[test]
fn chance_is_a_fraction_of_the_range_of_draws() {
    assert!(chance_hit(0, 1));
    assert!(!chance_hit(0, 0));
    assert!(!chance_hit(u32::MAX, 0));
    assert!(chance_hit(u32::MAX, 1000));
    assert!(!chance_hit(u32::MAX, 999));
    // 25 thousandths of 2^32 is 107374182.4
    assert!(chance_hit(107_374_182, CREATE_ACCOUNT_CHANCE));
    assert!(!chance_hit(107_374_183, CREATE_ACCOUNT_CHANCE));
    // 400 thousandths of 2^32 is 1717986918.4
    assert!(chance_hit(1_717_986_918, MINER_PROPORTION));
    assert!(!chance_hit(1_717_986_919, MINER_PROPORTION));
}

#[test]
fn new_run_is_empty_and_has_both_tasks() {
    let mut sim = Simulation::new(CREATE_ACCOUNT_CHANCE, MINER_PROPORTION);
    assert!(sim.actions().is_empty());
    assert!(sim.users().is_empty());
    assert!(sim.miners().is_empty());
    assert!(sim.is_bootstrap());
    assert_eq!(sim.latest_elapsed(), 0);
    assert!(sim.tick(ACCOUNT_CREATION_INTERVAL - 1).is_empty());
    let fired = sim.tick(1);
    assert_eq!(fired.len(), 1);
    assert_eq!(fired[0].body, TaskKind::AccountCreation);
    assert_eq!(fired[0].slot, 0);
    let fired = sim.tick(CHANGE_AUTHOR_INTERVAL);
    assert_eq!(fired.len(), 2);
    assert_eq!(fired[0].body, TaskKind::AccountCreation);
    assert_eq!(fired[1].body, TaskKind::ChangeAuthor);
}

#[test]
fn first_firing_with_certain_creation_logs_account_then_author() {
    let mut sim = Simulation::new(1000, MINER_PROPORTION);
    let fired = sim.tick(10);
    assert_eq!(fired.len(), 1);
    assert_eq!(fired[0].body, TaskKind::AccountCreation);
    assert!(sim.wants_account(u32::MAX));
    assert!(sim.wants_account(0));
    let role = sim.account_created(account(1), 10, 12, u32::MAX);
    assert_eq!(role, Role::FirstMiner);
    let log = sim.actions();
    assert_eq!(log.len(), 2);
    assert_eq!(log[0], Action::new(ActionKind::CreateAccount(account(1)), 10));
    assert_eq!(log[1], Action::new(ActionKind::SetAuthor(Address { bytes: [1; 20] }), 12));
    assert_eq!(sim.miners().len(), 1);
    assert_eq!(sim.miners()[0], account(1));
    assert!(sim.users().is_empty());
    assert!(!sim.is_bootstrap());
}

#[test]
fn only_the_first_account_takes_the_bootstrap_path() {
    let mut sim = Simulation::new(1000, MINER_PROPORTION);
    assert_eq!(sim.account_created(account(1), 10, 11, 0), Role::FirstMiner);
    assert_eq!(sim.account_created(account(2), 20, 21, 0), Role::Miner);
    assert_eq!(sim.account_created(account(3), 30, 31, u32::MAX), Role::User);
    assert_eq!(sim.account_created(account(4), 30, 0, 1_717_986_918), Role::Miner);
    assert_eq!(sim.account_created(account(5), 31, 0, 1_717_986_919), Role::User);
    let log = sim.actions();
    assert_eq!(log.len(), 6);
    assert_eq!(log[1].kind, ActionKind::SetAuthor(Address { bytes: [1; 20] }));
    let mut authors = 0;
    let mut created = 0;
    for a in log.iter() {
        match a.kind {
            ActionKind::SetAuthor(_) => authors += 1,
            ActionKind::CreateAccount(_) => created += 1,
            _ => {}
        }
    }
    assert_eq!(authors, 1);
    assert_eq!(created, 5);
    assert_eq!(sim.miners().len(), 3);
    assert_eq!(sim.users().len(), 2);
    assert_eq!(sim.users()[0], account(3));
    assert_eq!(sim.users()[1], account(5));
    assert_eq!(sim.miners()[2], account(4));
}

#[test]
fn author_rotation_without_miners_logs_nothing() {
    let mut sim = Simulation::new(0, MINER_PROPORTION);
    let fired = sim.tick(CHANGE_AUTHOR_INTERVAL);
    assert_eq!(fired.len(), 2);
    assert_eq!(fired[1].body, TaskKind::ChangeAuthor);
    assert!(!sim.wants_account(0));
    assert_eq!(sim.pick_author(12345), None);
    assert!(!sim.author_changed(Address { bytes: [9; 20] }, 5000));
    assert!(sim.actions().is_empty());
    assert!(sim.is_bootstrap());
}

#[test]
fn author_rotation_picks_a_miner_by_the_draw() {
    let mut sim = Simulation::new(1000, 1000);
    sim.account_created(account(1), 1, 1, 0);
    sim.account_created(account(2), 2, 2, 0);
    sim.account_created(account(3), 3, 3, 0);
    assert_eq!(sim.miners().len(), 3);
    assert_eq!(sim.pick_author(0), Some(Address { bytes: [1; 20] }));
    assert_eq!(sim.pick_author(4), Some(Address { bytes: [2; 20] }));
    assert_eq!(sim.pick_author(8), Some(Address { bytes: [3; 20] }));
    assert!(sim.author_changed(Address { bytes: [2; 20] }, 5000));
    let log = sim.actions();
    assert_eq!(log.len(), 5);
    assert_eq!(log[4], Action::new(ActionKind::SetAuthor(Address { bytes: [2; 20] }), 5000));
    assert_eq!(sim.latest_elapsed(), 5000);
}

#[test]
fn log_is_in_the_order_of_time() {
    let mut sim = Simulation::new(1000, MINER_PROPORTION);
    let mut now: i64 = 0;
    let mut tag: u8 = 0;
    for round in 0..50u32 {
        let fired = sim.tick(7);
        now += 7;
        for f in fired.iter() {
            match f.body {
                TaskKind::AccountCreation => {
                    tag += 1;
                    sim.account_created(account(tag), now, now + 1, round.wrapping_mul(0x9E37_79B9));
                    now += 1;
                }
                TaskKind::ChangeAuthor => {
                    sim.author_changed(Address { bytes: [1; 20] }, now);
                }
            }
        }
    }
    let log = sim.into_actions();
    assert!(log.len() > 2);
    for i in 1..log.len() {
        assert!(log[i - 1].elapsed <= log[i].elapsed);
    }
}

#[test]
fn account_keeps_what_it_was_given() {
    let a = account(7);
    assert_eq!(a.address(), Address { bytes: [7; 20] });
    assert_eq!(a.secret(), Secret { bytes: [7; 32] });
    assert_eq!(a.passphrase(), "pass7");
    assert_eq!(a.clone(), a);
}

#[test]
fn run_is_advanced_by_samples_of_the_clock() {
    let mut sim = Simulation::new(CREATE_ACCOUNT_CHANCE, MINER_PROPORTION);
    assert_eq!(sim.last_sample(), 0);
    assert!(sim.advance_to(0).is_empty());
    assert!(sim.advance_to(9).is_empty());
    assert_eq!(sim.advance_to(10).len(), 1);
    assert_eq!(sim.last_sample(), 10);
    assert!(sim.advance_to(10).is_empty());
    assert!(sim.advance_to(19).is_empty());
    assert_eq!(sim.advance_to(25).len(), 1);
    // The late firing started a whole interval at 25.
    assert!(sim.advance_to(34).is_empty());
    assert_eq!(sim.advance_to(35).len(), 1);
    let fired = sim.advance_to(5000);
    assert_eq!(fired.len(), 2);
    assert_eq!(fired[1].body, TaskKind::ChangeAuthor);
}

#[test]
fn generator_decides_within_what_the_chances_leave_open() {
    let mut rng = rand::OsRng::new().unwrap();
    let mut always = Simulation::new(1000, 1000);
    let never = Simulation::new(0, 0);
    for _ in 0..20 {
        assert!(always.roll_account(&mut rng));
        assert!(!never.roll_account(&mut rng));
    }
    assert_eq!(never.roll_author(&mut rng), None);
    assert_eq!(always.place_account(account(1), 1, 2, &mut rng), Role::FirstMiner);
    assert_eq!(always.place_account(account(2), 3, 3, &mut rng), Role::Miner);
    assert_eq!(always.actions().len(), 3);
    for _ in 0..20 {
        let picked = always.roll_author(&mut rng).unwrap();
        assert!(picked == Address { bytes: [1; 20] } || picked == Address { bytes: [2; 20] });
    }
    let mut users = Simulation::new(1000, 0);
    assert_eq!(users.place_account(account(1), 1, 2, &mut rng), Role::FirstMiner);
    assert_eq!(users.place_account(account(2), 3, 3, &mut rng), Role::User);
    assert_eq!(users.users().len(), 1);
}
