//! The simulation driver: the pools of accounts, the log of actions, and the
//! two recurring tasks that fill them.
//!
//! The driver decides and records; it does not reach outside. Its caller
//! feeds it the time that has passed, performs what a firing asks of the key
//! store and of the node, and reports back with the time at which it was
//! done. The log records changes of author that the node has confirmed.
use crate::action::{in_order, latest, lemma_append_in_order, Account, Action, ActionKind, Address};
use crate::random::{draw_u32, draw_usize};
use crate::scheduler::{firings, ticked, Fired, Scheduler, Slot};
use crate::timeline::fresh_repeated;
use vstd::prelude::*;

verus! {

/// The chance, in thousandths, that a firing of the account-creation task
/// creates an account.
pub const CREATE_ACCOUNT_CHANCE: u32 = 25;

/// The chance, in thousandths, that an account after the first becomes a
/// miner.
pub const MINER_PROPORTION: u32 = 400;

/// The interval of the account-creation task, in milliseconds.
pub const ACCOUNT_CREATION_INTERVAL: i64 = 10;

/// The interval of the author-rotation task, in milliseconds.
pub const CHANGE_AUTHOR_INTERVAL: i64 = 5000;

/// The length of a generated passphrase.
pub const PASS_LEN: usize = 20;

/// The two recurring tasks of a run.
#[derive(Clone, Copy, Debug, PartialEq, Eq)]
pub enum TaskKind {
    AccountCreation,
    ChangeAuthor,
}

/// What became of a new account.
#[derive(Clone, Copy, Debug, PartialEq, Eq)]
pub enum Role {
    /// The first account of the run: a miner, and the block author.
    FirstMiner,
    /// A later account that became a miner.
    Miner,
    /// A later account that became a user.
    User,
}

/// Whether a draw of 32 uniform bits falls within a chance given in
/// thousandths: the draw, taken as a fraction of its range, is below the
/// chance. A chance of 1000 admits every draw, a chance of 0 none.
pub open spec fn within_chance(draw: u32, per_mille: u32) -> bool {
    draw as int * 1000 < per_mille as int * 0x1_0000_0000
}

/// Whether a draw of 32 uniform bits falls within a chance given in
/// thousandths.
pub fn chance_hit(draw: u32, per_mille: u32) -> (hit: bool)
    ensures
        hit == within_chance(draw, per_mille),
{
    let scaled: u64 = (draw as u64) * 1000;
    let bound: u64 = (per_mille as u64) * 0x1_0000_0000;
    scaled < bound
}

/// The state of a run.
pub struct Simulation {
    actions: Vec<Action>,
    users: Vec<Account>,
    miners: Vec<Account>,
    scheduler: Scheduler<TaskKind>,
    create_chance: u32,
    miner_proportion: u32,
    last: i64,
}

impl Simulation {
    /// The log so far.
    pub closed spec fn log(&self) -> Seq<Action> {
        self.actions@
    }

    /// The pool of users, in the order of their creation.
    pub closed spec fn user_pool(&self) -> Seq<Account> {
        self.users@
    }

    /// The pool of miners, in the order of their creation.
    pub closed spec fn miner_pool(&self) -> Seq<Account> {
        self.miners@
    }

    /// The slots of the run's task table.
    pub closed spec fn tasks(&self) -> Seq<Slot<TaskKind>> {
        self.scheduler.slots()
    }

    /// The chance, in thousandths, that a firing creates an account.
    pub closed spec fn chance_of_account(&self) -> u32 {
        self.create_chance
    }

    /// The chance, in thousandths, that a later account becomes a miner.
    pub closed spec fn chance_of_miner(&self) -> u32 {
        self.miner_proportion
    }

    /// The time of the last sample of the clock that the run was advanced
    /// to, in milliseconds since its start.
    pub closed spec fn clock(&self) -> i64 {
        self.last
    }

    /// The task table is well formed.
    pub closed spec fn table_wf(&self) -> bool {
        self.scheduler.wf()
    }

    /// The log is in the order of time. Until the first account is created
    /// the log and both pools are empty; from then on the log begins with
    /// the creation of the first miner and, right after it, the change of
    /// author to that miner's address.
    pub open spec fn wf(&self) -> bool {
        &&& self.table_wf()
        &&& self.clock() >= 0
        &&& in_order(self.log())
        &&& (self.log().len() == 0) == (self.user_pool().len() == 0 && self.miner_pool().len()
            == 0)
        &&& self.log().len() > 0 ==> {
            &&& self.log().len() >= 2
            &&& self.miner_pool().len() > 0
            &&& self.log()[0].kind == ActionKind::CreateAccount(self.miner_pool()[0])
            &&& self.log()[1].kind == ActionKind::SetAuthor(self.miner_pool()[0].spec_address())
        }
    }

    /// A run at its start: nothing logged, no accounts, and the two tasks
    /// registered, account creation in slot 0 and author rotation in slot 1,
    /// each a whole interval from its first firing.
    pub fn new(create_chance: u32, miner_proportion: u32) -> (sim: Simulation)
        ensures
            sim.wf(),
            sim.log() == Seq::<Action>::empty(),
            sim.user_pool() == Seq::<Account>::empty(),
            sim.miner_pool() == Seq::<Account>::empty(),
            sim.chance_of_account() == create_chance,
            sim.chance_of_miner() == miner_proportion,
            sim.clock() == 0,
            sim.tasks() == seq![
                fresh_repeated(ACCOUNT_CREATION_INTERVAL, TaskKind::AccountCreation),
                fresh_repeated(CHANGE_AUTHOR_INTERVAL, TaskKind::ChangeAuthor),
            ],
    {
        let mut scheduler: Scheduler<TaskKind> = Scheduler::new();
        scheduler.once_every(ACCOUNT_CREATION_INTERVAL, TaskKind::AccountCreation);
        scheduler.once_every(CHANGE_AUTHOR_INTERVAL, TaskKind::ChangeAuthor);
        proof {
            assert(scheduler.slots() =~= seq![
                fresh_repeated(ACCOUNT_CREATION_INTERVAL, TaskKind::AccountCreation),
                fresh_repeated(CHANGE_AUTHOR_INTERVAL, TaskKind::ChangeAuthor),
            ]);
        }
        Simulation {
            actions: Vec::new(),
            users: Vec::new(),
            miners: Vec::new(),
            scheduler,
            create_chance,
            miner_proportion,
            last: 0,
        }
    }

    /// The log so far.
    pub fn actions(&self) -> (log: &Vec<Action>)
        ensures
            log@ == self.log(),
    {
        &self.actions
    }

    /// The pool of users.
    pub fn users(&self) -> (pool: &Vec<Account>)
        ensures
            pool@ == self.user_pool(),
    {
        &self.users
    }

    /// The pool of miners.
    pub fn miners(&self) -> (pool: &Vec<Account>)
        ensures
            pool@ == self.miner_pool(),
    {
        &self.miners
    }

    /// Ends the run and hands out its log.
    pub fn into_actions(self) -> (log: Vec<Action>)
        ensures
            log@ == self.log(),
    {
        self.actions
    }

    /// The time of the last entry of the log, or 0 if there is none. No
    /// later entry may be earlier.
    pub fn latest_elapsed(&self) -> (at: i64)
        ensures
            at == latest(self.log()),
    {
        let n: usize = self.actions.len();
        if n == 0 {
            0
        } else {
            self.actions[n - 1].elapsed
        }
    }

    /// Whether no account has been created yet, so that the next one is the
    /// first miner.
    pub fn is_bootstrap(&self) -> (first: bool)
        ensures
            first == (self.user_pool().len() == 0 && self.miner_pool().len() == 0),
    {
        self.users.len() == 0 && self.miners.len() == 0
    }

    /// Lets `dt` milliseconds pass for the two tasks and says which of them
    /// fire, in slot order. The log and the pools stay as they are.
    pub fn tick(&mut self, dt: i64) -> (fired: Vec<Fired<TaskKind>>)
        requires
            old(self).wf(),
            dt >= 0,
        ensures
            final(self).wf(),
            final(self).tasks() == ticked(old(self).tasks(), dt as int),
            fired@ == firings(old(self).tasks(), dt as int),
            final(self).log() == old(self).log(),
            final(self).user_pool() == old(self).user_pool(),
            final(self).miner_pool() == old(self).miner_pool(),
            final(self).chance_of_account() == old(self).chance_of_account(),
            final(self).chance_of_miner() == old(self).chance_of_miner(),
            final(self).clock() == old(self).clock(),
    {
        self.scheduler.tick(dt)
    }

    /// The time that the run was last advanced to, in milliseconds since
    /// its start.
    pub fn last_sample(&self) -> (at: i64)
        ensures
            at == self.clock(),
    {
        self.last
    }

    /// Advances the run to a new sample of the clock, `now` milliseconds
    /// after its start: the time since the last sample passes for the two
    /// tasks, and those that fire come back in slot order.
    pub fn advance_to(&mut self, now: i64) -> (fired: Vec<Fired<TaskKind>>)
        requires
            old(self).wf(),
            now >= old(self).clock(),
        ensures
            final(self).wf(),
            final(self).clock() == now,
            final(self).tasks() == ticked(old(self).tasks(), now - old(self).clock()),
            fired@ == firings(old(self).tasks(), now - old(self).clock()),
            final(self).log() == old(self).log(),
            final(self).user_pool() == old(self).user_pool(),
            final(self).miner_pool() == old(self).miner_pool(),
            final(self).chance_of_account() == old(self).chance_of_account(),
            final(self).chance_of_miner() == old(self).chance_of_miner(),
    {
        let dt: i64 = now - self.last;
        self.last = now;
        self.scheduler.tick(dt)
    }

    /// Whether a firing of the account-creation task with this draw creates
    /// an account.
    pub fn wants_account(&self, draw: u32) -> (wanted: bool)
        ensures
            wanted == within_chance(draw, self.chance_of_account()),
    {
        chance_hit(draw, self.create_chance)
    }

    /// Draws from the generator whether a firing of the account-creation
    /// task creates an account. With a chance of 1000 it always does, with a
    /// chance of 0 never.
    pub fn roll_account(&self, rng: &mut rand::OsRng) -> (wanted: bool)
        ensures
            self.chance_of_account() >= 1000 ==> wanted,
            self.chance_of_account() == 0 ==> !wanted,
    {
        let draw: u32 = draw_u32(rng);
        self.wants_account(draw)
    }

    /// Takes a new account into the run. `created_at` is the time at which
    /// it was created, `author_at` the time at which the node had been told
    /// of its new author, which matters for the first account only.
    ///
    /// The creation is logged at `created_at`. The first account of the run
    /// becomes a miner whatever the draw, and the change of author to its
    /// address is logged right after its creation, at `author_at`. A later
    /// account becomes a miner if the draw falls within the proportion of
    /// miners, and a user otherwise; nothing more is logged for it.
    pub fn account_created(
        &mut self,
        account: Account,
        created_at: i64,
        author_at: i64,
        draw: u32,
    ) -> (role: Role)
        requires
            old(self).wf(),
            created_at >= latest(old(self).log()),
            old(self).log().len() == 0 ==> author_at >= created_at,
        ensures
            final(self).wf(),
            final(self).tasks() == old(self).tasks(),
            final(self).clock() == old(self).clock(),
            final(self).chance_of_account() == old(self).chance_of_account(),
            final(self).chance_of_miner() == old(self).chance_of_miner(),
            role == placement(old(self).log().len() == 0, draw, old(self).chance_of_miner()),
            final(self).log() == log_with_account(
                old(self).log(),
                account,
                created_at,
                author_at,
                role,
            ),
            final(self).miner_pool() == miners_with_account(old(self).miner_pool(), account, role),
            final(self).user_pool() == users_with_account(old(self).user_pool(), account, role),
    {
        let ghost log0 = self.actions@;
        let created = Action::new(ActionKind::CreateAccount(account.clone()), created_at);
        proof {
            lemma_append_in_order(log0, created);
        }
        self.actions.push(created);
        if self.users.len() == 0 && self.miners.len() == 0 {
            let author = Action::new(ActionKind::SetAuthor(account.address()), author_at);
            proof {
                lemma_append_in_order(log0.push(created), author);
            }
            self.miners.push(account);
            self.actions.push(author);
            Role::FirstMiner
        } else if chance_hit(draw, self.miner_proportion) {
            self.miners.push(account);
            Role::Miner
        } else {
            self.users.push(account);
            Role::User
        }
    }

    /// Takes a new account into the run as `account_created` does, with a
    /// draw from the generator. The first account of the run, and no other,
    /// becomes the first miner; for a later one the draw decides, unless the
    /// proportion of miners leaves it no choice.
    pub fn place_account(
        &mut self,
        account: Account,
        created_at: i64,
        author_at: i64,
        rng: &mut rand::OsRng,
    ) -> (role: Role)
        requires
            old(self).wf(),
            created_at >= latest(old(self).log()),
            old(self).log().len() == 0 ==> author_at >= created_at,
        ensures
            final(self).wf(),
            final(self).tasks() == old(self).tasks(),
            final(self).clock() == old(self).clock(),
            final(self).chance_of_account() == old(self).chance_of_account(),
            final(self).chance_of_miner() == old(self).chance_of_miner(),
            (role == Role::FirstMiner) == (old(self).log().len() == 0),
            old(self).log().len() > 0 && old(self).chance_of_miner() >= 1000 ==> role
                == Role::Miner,
            old(self).log().len() > 0 && old(self).chance_of_miner() == 0 ==> role == Role::User,
            final(self).log() == log_with_account(
                old(self).log(),
                account,
                created_at,
                author_at,
                role,
            ),
            final(self).miner_pool() == miners_with_account(old(self).miner_pool(), account, role),
            final(self).user_pool() == users_with_account(old(self).user_pool(), account, role),
    {
        let draw: u32 = draw_u32(rng);
        self.account_created(account, created_at, author_at, draw)
    }

    /// The miner that a firing of the author-rotation task picks with this
    /// draw: none if there is no miner, else the one at the draw's remainder
    /// by the number of miners.
    pub fn pick_author(&self, draw: usize) -> (picked: Option<Address>)
        ensures
            picked == author_for(self.miner_pool(), draw),
    {
        let n: usize = self.miners.len();
        if n == 0 {
            None
        } else {
            Some(self.miners[draw % n].address())
        }
    }

    /// Draws from the generator the miner that a firing of the
    /// author-rotation task picks: none if there is no miner, else one of
    /// the miners.
    pub fn roll_author(&self, rng: &mut rand::OsRng) -> (picked: Option<Address>)
        ensures
            self.miner_pool().len() == 0 ==> picked is None,
            self.miner_pool().len() > 0 ==> picked is Some && exists|i: int|
                0 <= i < self.miner_pool().len() && (#[trigger] self.miner_pool()[i]).spec_address()
                    == picked->0,
    {
        let draw: usize = draw_usize(rng);
        let picked = self.pick_author(draw);
        proof {
            if self.miner_pool().len() > 0 {
                let i = (draw as int) % (self.miner_pool().len() as int);
                assert(self.miner_pool()[i].spec_address() == picked->0);
            }
        }
        picked
    }

    /// Records that the node has taken `address` as its author at time `at`.
    /// With no miner in the pool there is no author to change to, and
    /// nothing is recorded.
    pub fn author_changed(&mut self, address: Address, at: i64) -> (recorded: bool)
        requires
            old(self).wf(),
            at >= latest(old(self).log()),
        ensures
            final(self).wf(),
            final(self).tasks() == old(self).tasks(),
            final(self).clock() == old(self).clock(),
            final(self).chance_of_account() == old(self).chance_of_account(),
            final(self).chance_of_miner() == old(self).chance_of_miner(),
            final(self).user_pool() == old(self).user_pool(),
            final(self).miner_pool() == old(self).miner_pool(),
            recorded == (old(self).miner_pool().len() > 0),
            final(self).log() == if recorded {
                old(self).log().push(Action { elapsed: at, kind: ActionKind::SetAuthor(address) })
            } else {
                old(self).log()
            },
    {
        if self.miners.len() == 0 {
            false
        } else {
            let author = Action::new(ActionKind::SetAuthor(address), at);
            proof {
                lemma_append_in_order(self.actions@, author);
            }
            self.actions.push(author);
            true
        }
    }
}

/// What becomes of a new account: the first of the run is the first miner;
/// a later one is a miner if the draw falls within the proportion of miners,
/// given in thousandths, and a user otherwise.
pub open spec fn placement(first: bool, draw: u32, miner_proportion: u32) -> Role {
    if first {
        Role::FirstMiner
    } else if within_chance(draw, miner_proportion) {
        Role::Miner
    } else {
        Role::User
    }
}

/// The log after a new account with the given role: its creation is
/// appended, and for the first miner the change of author to its address
/// right after that.
pub open spec fn log_with_account(
    log: Seq<Action>,
    account: Account,
    created_at: i64,
    author_at: i64,
    role: Role,
) -> Seq<Action> {
    let created = log.push(
        Action { elapsed: created_at, kind: ActionKind::CreateAccount(account) },
    );
    match role {
        Role::FirstMiner => created.push(
            Action { elapsed: author_at, kind: ActionKind::SetAuthor(account.spec_address()) },
        ),
        _ => created,
    }
}

/// The pool of miners after a new account with the given role.
pub open spec fn miners_with_account(miners: Seq<Account>, account: Account, role: Role) -> Seq<
    Account,
> {
    match role {
        Role::User => miners,
        _ => miners.push(account),
    }
}

/// The pool of users after a new account with the given role.
pub open spec fn users_with_account(users: Seq<Account>, account: Account, role: Role) -> Seq<
    Account,
> {
    match role {
        Role::User => users.push(account),
        _ => users,
    }
}

/// The address that a draw picks from the miners: none if there is no
/// miner, else that of the miner at the draw's remainder by their number.
pub open spec fn author_for(miners: Seq<Account>, draw: usize) -> Option<Address> {
    if miners.len() == 0 {
        None
    } else {
        Some(miners[(draw as int) % (miners.len() as int)].spec_address())
    }
}

/// However the log of a run grows, it stays in the order of time: this is
/// part of what every operation of a run keeps.
pub proof fn lemma_log_in_order(sim: Simulation, i: int, j: int)
    requires
        sim.wf(),
        0 <= i <= j < sim.log().len(),
    ensures
        sim.log()[i].elapsed <= sim.log()[j].elapsed,
{
}

/// In a run that has created an account, the log begins with the creation
/// of the first miner, followed at once by the change of author to the
/// address of that same account; and whatever is drawn, no further account
/// of that run becomes the first miner.
pub proof fn lemma_first_account_is_author(sim: Simulation)
    requires
        sim.wf(),
        sim.user_pool().len() + sim.miner_pool().len() > 0,
    ensures
        sim.log().len() >= 2,
        sim.log()[0].kind == ActionKind::CreateAccount(sim.miner_pool()[0]),
        sim.log()[1].kind == ActionKind::SetAuthor(sim.miner_pool()[0].spec_address()),
        sim.log().len() != 0,
        forall|draw: u32| #[trigger]
            placement(false, draw, sim.chance_of_miner()) != Role::FirstMiner,
{
}

/// The first account of a run becomes the first miner whatever is drawn,
/// and its creation puts exactly two entries into the log: the creation,
/// and the change of author to its address. Every later account puts in
/// exactly one.
pub proof fn lemma_account_entries(
    log: Seq<Action>,
    account: Account,
    created_at: i64,
    author_at: i64,
    draw: u32,
    miner_proportion: u32,
)
    ensures
        ({
            let role = placement(log.len() == 0, draw, miner_proportion);
            let next = log_with_account(log, account, created_at, author_at, role);
            &&& (role == Role::FirstMiner) == (log.len() == 0)
            &&& log.len() == 0 ==> next.len() == 2
            &&& log.len() > 0 ==> next.len() == log.len() + 1
            &&& next[log.len() as int].kind == ActionKind::CreateAccount(account)
            &&& log.len() == 0 ==> next[1].kind == ActionKind::SetAuthor(account.spec_address())
            &&& forall|i: int| 0 <= i < log.len() ==> next[i] == log[i]
        }),
{
}

} // verus!
