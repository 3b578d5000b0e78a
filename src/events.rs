//! The events that the ledger records, in the order its changes are made.
use vstd::prelude::*;
use crate::account::{AccountId, Balance};

verus! {

/// Units moved from one account to another; `from` is `None` only for the
/// units created when the ledger is set up.
#[derive(Debug, Clone, Copy)]
pub struct Transfer {
    pub from: Option<AccountId>,
    pub to: Option<AccountId>,
    pub value: Balance,
}

/// An owner (`from`) allowed a spender (`to`) to move up to `value` of its units.
#[derive(Debug, Clone, Copy)]
pub struct Approval {
    pub from: Option<AccountId>,
    pub to: Option<AccountId>,
    pub value: Balance,
}

/// One entry of the ledger's append-only event log.
#[derive(Debug, Clone, Copy)]
pub enum Event {
    Transfer(Transfer),
    Approval(Approval),
}

} // verus!
