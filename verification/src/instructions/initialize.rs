//! Opening an escrow: the record is filled in and the deposit is ordered
//! into the vault.

use vstd::prelude::*;
use crate::contexts::{InitializeEscrow, InitializeEscrowBumps};
use crate::state::Escrow;
use crate::token::Transfer;

verus! {

/// The record of an escrow opened with these accounts and terms.
pub open spec fn opened_record(
    ctx: InitializeEscrow,
    bumps: InitializeEscrowBumps,
    amount: u64,
    release_time: i64,
) -> Escrow {
    Escrow {
        initializer: ctx.initializer.key,
        beneficiary: ctx.beneficiary,
        mint: ctx.mint,
        vault: ctx.vault_account,
        amount,
        release_time,
        vault_bump: bumps.vault_authority,
        escrow_bump: bumps.escrow,
    }
}

/// The order that moves the deposit from the initializer's holding account
/// into the vault, on the initializer's own word.
pub open spec fn deposit_order(ctx: InitializeEscrow, amount: u64) -> Transfer {
    Transfer {
        from: ctx.initializer_deposit_token_account,
        to: ctx.vault_account,
        authority: ctx.initializer.key,
        amount,
    }
}

/// Fills in the record from the request and the two disambiguators, and
/// orders `amount` from the initializer's holding account into the vault.
/// Any `amount` and any `release_time` are taken as they are.
pub fn handler(
    ctx: &InitializeEscrow,
    bumps: &InitializeEscrowBumps,
    amount: u64,
    release_time: i64,
) -> (r: (Escrow, Transfer))
    ensures
        r == (opened_record(*ctx, *bumps, amount, release_time), deposit_order(*ctx, amount)),
{
    let escrow = Escrow {
        initializer: ctx.initializer.key,
        beneficiary: ctx.beneficiary,
        mint: ctx.mint,
        vault: ctx.vault_account,
        amount,
        release_time,
        vault_bump: bumps.vault_authority,
        escrow_bump: bumps.escrow,
    };
    let accounts = Transfer {
        from: ctx.initializer_deposit_token_account,
        to: ctx.vault_account,
        authority: ctx.initializer.key,
        amount,
    };
    (escrow, accounts)
}

} // verus!
