//! A fungible-token ledger: a fixed supply of indivisible units held by
//! accounts, moved by direct transfers and by capped, revocable allowances.

pub mod account;
pub mod events;
pub mod ledger;
pub mod table;

pub use account::{AccountId, Balance};
pub use events::{Approval, Event, Transfer};
pub use ledger::{Erc20, Error};
