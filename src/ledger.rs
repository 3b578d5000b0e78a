//! The ledger: a fixed total supply, the balance of each account and the
//! allowance of each (owner, spender) pair, with an append-only event log.
use vstd::prelude::*;
use crate::account::{AccountId, Balance};
use crate::events::{Approval, Event, Transfer};
use crate::table::{
    has_key, keys_unique, lemma_lookup_at, lemma_lookup_le_total, lemma_push, lemma_update,
    lookup, total,
};

verus! {

/// Why a state-changing call was refused.
#[derive(Debug, Clone, Copy, PartialEq, Eq, Structural)]
pub enum Error {
    /// The source account holds fewer units than the amount asked for.
    BalanceTooLow,
    /// The spender's remaining allowance is below the amount asked for.
    AllowanceTooLow,
}

/// The balance of account `a`, which held `before`, after `value` units move
/// from `from` to `to`.
pub open spec fn moved(before: nat, a: AccountId, from: AccountId, to: AccountId, value: nat) -> nat {
    if from == to {
        before
    } else if a == from {
        (before - value) as nat
    } else if a == to {
        before + value
    } else {
        before
    }
}

/// The event that records a transfer between two accounts.
pub open spec fn transfer_event(from: AccountId, to: AccountId, value: Balance) -> Event {
    Event::Transfer(Transfer { from: Some(from), to: Some(to), value })
}

/// The event that records an approval.
pub open spec fn approval_event(owner: AccountId, spender: AccountId, value: Balance) -> Event {
    Event::Approval(Approval { from: Some(owner), to: Some(spender), value })
}

/// `after` is `before` once `caller` has approved `spender` for `value`: the
/// allowance of that pair is `value` whatever it was, nothing else changes,
/// and one approval event is added to the log.
pub open spec fn approved(
    before: Erc20,
    after: Erc20,
    caller: AccountId,
    spender: AccountId,
    value: Balance,
) -> bool {
    &&& after.supply() == before.supply()
    &&& forall|a: AccountId| #[trigger] after.balance(a) == before.balance(a)
    &&& forall|o: AccountId, s: AccountId| #[trigger]
        after.allowance_of(o, s) == if o == caller && s == spender {
            value as nat
        } else {
            before.allowance_of(o, s)
        }
    &&& after.log() == before.log().push(approval_event(caller, spender, value))
}

/// Conservation: in every well-formed ledger, and so after any sequence of
/// operations starting from `new`, the balances add up to the total supply
/// and no balance exceeds it.
pub proof fn conservation(l: &Erc20, a: AccountId)
    requires
        l.wf(),
    ensures
        l.balance_sum() == l.supply(),
        l.balance(a) <= l.supply(),
{
    l.lemma_sum_is_supply();
    l.lemma_balance_le_supply(a);
}

/// Approving the same spender twice leaves the second amount, not the sum.
pub proof fn approve_overwrites(
    l0: Erc20,
    l1: Erc20,
    l2: Erc20,
    caller: AccountId,
    spender: AccountId,
    first: Balance,
    second: Balance,
)
    requires
        approved(l0, l1, caller, spender, first),
        approved(l1, l2, caller, spender, second),
    ensures
        l2.allowance_of(caller, spender) == second as nat,
        forall|a: AccountId| #[trigger] l2.balance(a) == l0.balance(a),
{
}

/// Finds the entry of `a` among the balances.
fn find_account(s: &Vec<(AccountId, Balance)>, a: &AccountId) -> (r: Option<usize>)
    ensures
        match r {
            Some(i) => i < s@.len() && s@[i as int].0 == *a,
            None => !has_key(s@, *a),
        },
{
    let mut i: usize = 0;
    while i < s.len()
        invariant
            0 <= i <= s@.len(),
            forall|j: int| 0 <= j < i ==> #[trigger] s@[j].0 != *a,
        decreases s@.len() - i,
    {
        if s[i].0.same(a) {
            return Some(i);
        }
        i = i + 1;
    }
    None
}

/// Finds the entry of the pair (`owner`, `spender`) among the allowances.
fn find_pair(s: &Vec<((AccountId, AccountId), Balance)>, owner: &AccountId, spender: &AccountId) -> (r:
    Option<usize>)
    ensures
        match r {
            Some(i) => i < s@.len() && s@[i as int].0 == (*owner, *spender),
            None => !has_key(s@, (*owner, *spender)),
        },
{
    let mut i: usize = 0;
    while i < s.len()
        invariant
            0 <= i <= s@.len(),
            forall|j: int| 0 <= j < i ==> #[trigger] s@[j].0 != (*owner, *spender),
        decreases s@.len() - i,
    {
        let key = &s[i].0;
        if key.0.same(owner) && key.1.same(spender) {
            return Some(i);
        }
        i = i + 1;
    }
    None
}

/// Reads the amount of `a` from a table with distinct keys.
fn read_balance(s: &Vec<(AccountId, Balance)>, a: &AccountId) -> (r: Balance)
    requires
        keys_unique(s@),
    ensures
        r as nat == lookup(s@, *a),
{
    match find_account(s, a) {
        Some(i) => {
            proof {
                lemma_lookup_at(s@, i as int);
            }
            s[i].1
        },
        None => 0,
    }
}

/// Reads the allowance of (`owner`, `spender`) from a table with distinct keys.
fn read_allowance(s: &Vec<((AccountId, AccountId), Balance)>, owner: &AccountId, spender: &AccountId) -> (r:
    Balance)
    requires
        keys_unique(s@),
    ensures
        r as nat == lookup(s@, (*owner, *spender)),
{
    match find_pair(s, owner, spender) {
        Some(i) => {
            proof {
                lemma_lookup_at(s@, i as int);
            }
            s[i].1
        },
        None => 0,
    }
}

/// Records `v` as the amount of `a`, in place or as a new entry.
fn write_balance(s: &mut Vec<(AccountId, Balance)>, a: &AccountId, v: Balance)
    requires
        keys_unique(old(s)@),
    ensures
        keys_unique(final(s)@),
        forall|x: AccountId| #[trigger]
            lookup(final(s)@, x) == if x == *a {
                v as nat
            } else {
                lookup(old(s)@, x)
            },
        total(final(s)@) + lookup(old(s)@, *a) == total(old(s)@) + v as nat,
{
    match find_account(s, a) {
        Some(i) => {
            proof {
                lemma_lookup_at(s@, i as int);
                lemma_update(s@, i as int, v);
            }
            s.set(i, (*a, v));
        },
        None => {
            proof {
                lemma_push(s@, *a, v);
            }
            s.push((*a, v));
        },
    }
}

/// Records `v` as the allowance of (`owner`, `spender`), in place or as a new entry.
fn write_allowance(
    s: &mut Vec<((AccountId, AccountId), Balance)>,
    owner: &AccountId,
    spender: &AccountId,
    v: Balance,
)
    requires
        keys_unique(old(s)@),
    ensures
        keys_unique(final(s)@),
        forall|k: (AccountId, AccountId)| #[trigger]
            lookup(final(s)@, k) == if k == (*owner, *spender) {
                v as nat
            } else {
                lookup(old(s)@, k)
            },
{
    match find_pair(s, owner, spender) {
        Some(i) => {
            proof {
                lemma_update(s@, i as int, v);
            }
            s.set(i, ((*owner, *spender), v));
        },
        None => {
            proof {
                lemma_push(s@, (*owner, *spender), v);
            }
            s.push(((*owner, *spender), v));
        },
    }
}

/// A token ledger. Accounts without an entry hold 0 units; pairs without an
/// entry have an allowance of 0.
pub struct Erc20 {
    total_supply: Balance,
    balances: Vec<(AccountId, Balance)>,
    allowances: Vec<((AccountId, AccountId), Balance)>,
    events: Vec<Event>,
}

impl Erc20 {
    /// The ledger is well formed: each account and each pair has at most one
    /// entry, and the balances add up to the total supply.
    pub closed spec fn wf(&self) -> bool {
        &&& keys_unique(self.balances@)
        &&& keys_unique(self.allowances@)
        &&& total(self.balances@) == self.total_supply as nat
    }

    /// The total supply, fixed when the ledger is made.
    pub closed spec fn supply(&self) -> nat {
        self.total_supply as nat
    }

    /// The number of units that `a` holds.
    pub closed spec fn balance(&self, a: AccountId) -> nat {
        lookup(self.balances@, a)
    }

    /// The sum of the balances of all accounts, each account counted once.
    pub closed spec fn balance_sum(&self) -> nat {
        total(self.balances@)
    }

    /// How many of `owner`'s units `spender` may still move.
    pub closed spec fn allowance_of(&self, owner: AccountId, spender: AccountId) -> nat {
        lookup(self.allowances@, (owner, spender))
    }

    /// The events recorded so far, oldest first.
    pub closed spec fn log(&self) -> Seq<Event> {
        self.events@
    }

    /// The balances and the allowances of `self` and `other` are the same.
    pub open spec fn same_accounts(&self, other: &Erc20) -> bool {
        &&& forall|a: AccountId| #[trigger] other.balance(a) == self.balance(a)
        &&& forall|o: AccountId, s: AccountId| #[trigger]
            other.allowance_of(o, s) == self.allowance_of(o, s)
    }

    /// Every account's balance is at most the total supply.
    pub proof fn lemma_balance_le_supply(&self, a: AccountId)
        requires
            self.wf(),
        ensures
            self.balance(a) <= self.supply(),
    {
        lemma_lookup_le_total(self.balances@, a);
    }

    /// The balances add up to the total supply in every well-formed ledger.
    pub proof fn lemma_sum_is_supply(&self)
        requires
            self.wf(),
        ensures
            self.balance_sum() == self.supply(),
    {
    }

    /// Makes a ledger whose whole supply belongs to `caller`, the account that
    /// sets it up, and records that as a transfer without a source.
    pub fn new(caller: AccountId, total_supply: Balance) -> (r: Erc20)
        ensures
            r.wf(),
            r.supply() == total_supply,
            forall|a: AccountId| #[trigger]
                r.balance(a) == if a == caller {
                    total_supply as nat
                } else {
                    0
                },
            forall|o: AccountId, s: AccountId| #[trigger] r.allowance_of(o, s) == 0,
            r.log() == seq![
                Event::Transfer(Transfer { from: None, to: Some(caller), value: total_supply }),
            ],
    {
        let mut balances: Vec<(AccountId, Balance)> = Vec::new();
        balances.push((caller, total_supply));
        let allowances: Vec<((AccountId, AccountId), Balance)> = Vec::new();
        let mut events: Vec<Event> = Vec::new();
        events.push(Event::Transfer(Transfer { from: None, to: Some(caller), value: total_supply }));
        proof {
            let e = Seq::<(AccountId, Balance)>::empty();
            lemma_push(e, caller, total_supply);
            assert(e.push((caller, total_supply)) =~= balances@);
            assert(!has_key(allowances@, (caller, caller)));
        }
        Erc20 { total_supply, balances, allowances, events }
    }

    /// The total supply.
    pub fn total_supply(&self) -> (r: Balance)
        ensures
            r as nat == self.supply(),
    {
        self.total_supply
    }

    /// The number of units that `who` holds; 0 for an account never credited.
    pub fn balance_of(&self, who: AccountId) -> (r: Balance)
        requires
            self.wf(),
        ensures
            r as nat == self.balance(who),
    {
        read_balance(&self.balances, &who)
    }

    /// How many of `owner`'s units `spender` may still move; 0 if never approved.
    pub fn allowance(&self, owner: AccountId, spender: AccountId) -> (r: Balance)
        requires
            self.wf(),
        ensures
            r as nat == self.allowance_of(owner, spender),
    {
        read_allowance(&self.allowances, &owner, &spender)
    }

    /// The events recorded so far, oldest first.
    pub fn recorded_events(&self) -> (r: &Vec<Event>)
        ensures
            r@ == self.log(),
    {
        &self.events
    }
    /// Moves `value` units from `from` to `to` and records the transfer.
    /// Fails with `BalanceTooLow`, changing nothing, where `from` holds less
    /// than `value`. Moving units from an account to itself changes no
    /// balance and is still recorded.
    pub fn transfer_from_to(&mut self, from: &AccountId, to: &AccountId, value: Balance) -> (r:
        Result<(), Error>)
        requires
            old(self).wf(),
        ensures
            final(self).wf(),
            final(self).supply() == old(self).supply(),
            forall|o: AccountId, s: AccountId| #[trigger]
                final(self).allowance_of(o, s) == old(self).allowance_of(o, s),
            r == (if value as nat > old(self).balance(*from) {
                Err::<(), Error>(Error::BalanceTooLow)
            } else {
                Ok(())
            }),
            r is Err ==> old(self).same_accounts(&*final(self)) && final(self).log() == old(
                self,
            ).log(),
            r is Ok ==> forall|a: AccountId| #[trigger]
                final(self).balance(a) == moved(
                    old(self).balance(a),
                    a,
                    *from,
                    *to,
                    value as nat,
                ),
            r is Ok ==> final(self).log() == old(self).log().push(
                transfer_event(*from, *to, value),
            ),
    {
        let balance_from = read_balance(&self.balances, from);
        if value > balance_from {
            return Err(Error::BalanceTooLow);
        }
        write_balance(&mut self.balances, from, balance_from - value);
        let ghost between = self.balances@;
        proof {
            lemma_lookup_le_total(between, *to);
        }
        let balance_to = read_balance(&self.balances, to);
        write_balance(&mut self.balances, to, balance_to + value);
        self.events.push(Event::Transfer(Transfer { from: Some(*from), to: Some(*to), value }));
        Ok(())
    }

    /// Moves `value` of the caller's units to `to`, as `transfer_from_to`
    /// does with the caller as the source.
    pub fn transfer(&mut self, caller: AccountId, to: AccountId, value: Balance) -> (r: Result<
        (),
        Error,
    >)
        requires
            old(self).wf(),
        ensures
            final(self).wf(),
            final(self).supply() == old(self).supply(),
            forall|o: AccountId, s: AccountId| #[trigger]
                final(self).allowance_of(o, s) == old(self).allowance_of(o, s),
            r == (if value as nat > old(self).balance(caller) {
                Err::<(), Error>(Error::BalanceTooLow)
            } else {
                Ok(())
            }),
            r is Err ==> old(self).same_accounts(&*final(self)) && final(self).log() == old(
                self,
            ).log(),
            r is Ok ==> forall|a: AccountId| #[trigger]
                final(self).balance(a) == moved(
                    old(self).balance(a),
                    a,
                    caller,
                    to,
                    value as nat,
                ),
            r is Ok ==> final(self).log() == old(self).log().push(
                transfer_event(caller, to, value),
            ),
    {
        self.transfer_from_to(&caller, &to, value)
    }

    /// Lets `spender` move up to `value` of the caller's units, replacing any
    /// earlier allowance of that pair, and records the approval. Never fails.
    pub fn approve(&mut self, caller: AccountId, spender: AccountId, value: Balance) -> (r: Result<
        (),
        Error,
    >)
        requires
            old(self).wf(),
        ensures
            final(self).wf(),
            r == Ok::<(), Error>(()),
            approved(*old(self), *final(self), caller, spender, value),
    {
        write_allowance(&mut self.allowances, &caller, &spender, value);
        self.events.push(
            Event::Approval(Approval { from: Some(caller), to: Some(spender), value }),
        );
        Ok(())
    }

    /// The caller moves `value` of `from`'s units to `to` under the allowance
    /// `from` gave it. Fails with `AllowanceTooLow`, changing nothing, where
    /// that allowance is below `value`. Otherwise the allowance is lowered by
    /// `value` first, and the move then happens as in `transfer_from_to`: where
    /// `from` holds too little it fails with `BalanceTooLow`, and the lowered
    /// allowance stays lowered.
    pub fn transfer_from(&mut self, caller: AccountId, from: AccountId, to: AccountId, value: Balance) -> (r:
        Result<(), Error>)
        requires
            old(self).wf(),
        ensures
            final(self).wf(),
            final(self).supply() == old(self).supply(),
            r == (if value as nat > old(self).allowance_of(from, caller) {
                Err::<(), Error>(Error::AllowanceTooLow)
            } else if value as nat > old(self).balance(from) {
                Err::<(), Error>(Error::BalanceTooLow)
            } else {
                Ok(())
            }),
            r == Err::<(), Error>(Error::AllowanceTooLow) ==> old(self).same_accounts(
                &*final(self),
            ),
            r != Err::<(), Error>(Error::AllowanceTooLow) ==> forall|o: AccountId, s: AccountId|
                #[trigger]
                final(self).allowance_of(o, s) == if o == from && s == caller {
                    (old(self).allowance_of(o, s) - value) as nat
                } else {
                    old(self).allowance_of(o, s)
                },
            r is Err ==> final(self).log() == old(self).log(),
            r is Err ==> forall|a: AccountId| #[trigger]
                final(self).balance(a) == old(self).balance(a),
            r is Ok ==> forall|a: AccountId| #[trigger]
                final(self).balance(a) == moved(
                    old(self).balance(a),
                    a,
                    from,
                    to,
                    value as nat,
                ),
            r is Ok ==> final(self).log() == old(self).log().push(transfer_event(from, to, value)),
    {
        let allowance = read_allowance(&self.allowances, &from, &caller);
        if allowance < value {
            return Err(Error::AllowanceTooLow);
        }
        write_allowance(&mut self.allowances, &from, &caller, allowance - value);
        self.transfer_from_to(&from, &to, value)
    }
}

} // verus!
