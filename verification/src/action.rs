//! The actions a run records, and the accounts they speak of.
use crate::hex::{hex_of, prefixed_hex};
use vstd::prelude::*;

verus! {

/// The address of an account: twenty bytes.
#[derive(Clone, Copy, Debug, PartialEq, Eq)]
pub struct Address {
    pub bytes: [u8; 20],
}

/// The secret key of an account: thirty-two bytes.
#[derive(Clone, Copy, Debug, PartialEq, Eq)]
pub struct Secret {
    pub bytes: [u8; 32],
}

impl Address {
    /// The address as text: `0x` and forty hexadecimal digits.
    pub fn to_hex(&self) -> (text: String)
        ensures
            text@ == "0x"@ + hex_of(self.bytes@),
    {
        prefixed_hex(&self.bytes)
    }
}

impl Secret {
    /// The secret as text: `0x` and sixty-four hexadecimal digits.
    pub fn to_hex(&self) -> (text: String)
        ensures
            text@ == "0x"@ + hex_of(self.bytes@),
    {
        prefixed_hex(&self.bytes)
    }
}

/// A generated account. It is made once and never changed.
#[derive(Debug, PartialEq, Eq)]
pub struct Account {
    address: Address,
    secret: Secret,
    passphrase: String,
}

impl Account {
    /// The address of the account.
    pub closed spec fn spec_address(&self) -> Address {
        self.address
    }

    /// The secret key of the account.
    pub closed spec fn spec_secret(&self) -> Secret {
        self.secret
    }

    /// The passphrase under which the key store holds the secret.
    pub closed spec fn spec_passphrase(&self) -> Seq<char> {
        self.passphrase@
    }

    /// An account of the given address, secret and passphrase.
    pub fn new(address: Address, secret: Secret, passphrase: String) -> (account: Account)
        ensures
            account.spec_address() == address,
            account.spec_secret() == secret,
            account.spec_passphrase() == passphrase@,
    {
        Account { address, secret, passphrase }
    }

    /// The address of the account.
    pub fn address(&self) -> (address: Address)
        ensures
            address == self.spec_address(),
    {
        self.address
    }

    /// The secret key of the account.
    pub fn secret(&self) -> (secret: Secret)
        ensures
            secret == self.spec_secret(),
    {
        self.secret
    }

    /// The passphrase of the account.
    pub fn passphrase(&self) -> (passphrase: &String)
        ensures
            passphrase@ == self.spec_passphrase(),
    {
        &self.passphrase
    }
}

impl Clone for Account {
    fn clone(&self) -> (copy: Account)
        ensures
            copy == *self,
    {
        Account {
            address: self.address,
            secret: self.secret,
            passphrase: self.passphrase.clone(),
        }
    }
}

/// What happened. A run itself records only the creation of accounts and
/// changes of the block author; the other two kinds are for replay.
#[derive(Debug, PartialEq, Eq)]
pub enum ActionKind {
    CreateAccount(Account),
    SetAuthor(Address),
    RetireAccount(Address),
    BlockMined(Vec<u8>),
}

impl ActionKind {
    /// The name of the kind, as a log that is written out gives it.
    pub fn name(&self) -> (name: &'static str)
        ensures
            name@ == match self {
                ActionKind::CreateAccount(_) => "CreateAccount"@,
                ActionKind::SetAuthor(_) => "SetAuthor"@,
                ActionKind::RetireAccount(_) => "RetireAccount"@,
                ActionKind::BlockMined(_) => "BlockMined"@,
            },
    {
        match self {
            ActionKind::CreateAccount(_) => "CreateAccount",
            ActionKind::SetAuthor(_) => "SetAuthor",
            ActionKind::RetireAccount(_) => "RetireAccount",
            ActionKind::BlockMined(_) => "BlockMined",
        }
    }
}

/// One entry of the log: what happened, and how long after the start of the
/// run, in milliseconds.
#[derive(Debug, PartialEq, Eq)]
pub struct Action {
    pub elapsed: i64,
    pub kind: ActionKind,
}

impl Action {
    /// An action of the given kind at the given time after the start.
    pub fn new(kind: ActionKind, elapsed: i64) -> (action: Action)
        ensures
            action == (Action { elapsed, kind }),
    {
        Action { elapsed, kind }
    }
}

/// The entries of a log are in the order of their time: none is earlier
/// than one before it, and none is earlier than the start of the run.
pub open spec fn in_order(log: Seq<Action>) -> bool {
    &&& forall|i: int| 0 <= i < log.len() ==> (#[trigger] log[i]).elapsed >= 0
    &&& forall|i: int, j: int| 0 <= i <= j < log.len() ==> log[i].elapsed <= log[j].elapsed
}

/// The time of the last entry of a log, or the start of the run if the log
/// is empty.
pub open spec fn latest(log: Seq<Action>) -> int {
    if log.len() == 0 {
        0
    } else {
        log.last().elapsed as int
    }
}

/// A log in order stays in order when an entry no earlier than its last is
/// appended.
pub proof fn lemma_append_in_order(log: Seq<Action>, action: Action)
    requires
        in_order(log),
        action.elapsed >= latest(log),
    ensures
        in_order(log.push(action)),
        latest(log.push(action)) == action.elapsed,
{
    let next = log.push(action);
    assert forall|i: int, j: int| 0 <= i <= j < next.len() implies next[i].elapsed
        <= next[j].elapsed by {
        if j == log.len() && i < log.len() {
            assert(log[i].elapsed <= log[log.len() - 1].elapsed);
        }
    }
    assert forall|i: int| 0 <= i < next.len() implies (#[trigger] next[i]).elapsed >= 0 by {
        if i == log.len() && log.len() > 0 {
            assert(log[log.len() - 1].elapsed >= 0);
        }
    }
}

} // verus!
