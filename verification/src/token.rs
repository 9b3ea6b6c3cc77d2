//! What the escrow reads of holding accounts and what it asks of the asset
//! custody service: moving an amount between two holding accounts, and
//! retiring an emptied holding account.

use vstd::prelude::*;
use crate::address::Address;

verus! {

/// A holding account: a balance of one asset type under one owner.
#[derive(Clone, Copy, Debug, PartialEq, Eq)]
pub struct TokenAccount {
    pub mint: Address,
    pub owner: Address,
    pub amount: u64,
}

/// An order to move `amount` from one holding account to another, on the
/// word of `authority`.
#[derive(Clone, Copy, Debug, PartialEq, Eq)]
pub struct Transfer {
    pub from: Address,
    pub to: Address,
    pub authority: Address,
    pub amount: u64,
}

/// An order to retire an empty holding account and hand its storage
/// deposit to `destination`, on the word of `authority`.
#[derive(Clone, Copy, Debug, PartialEq, Eq)]
pub struct CloseAccount {
    pub account: Address,
    pub destination: Address,
    pub authority: Address,
}

/// What a terminal transition asks for: the vault's contents are moved
/// out, then the vault is retired.
#[derive(Clone, Copy, Debug, PartialEq, Eq)]
pub struct Settlement {
    pub transfer: Transfer,
    pub close: CloseAccount,
}

} // verus!
