//! Releasing an escrow to its beneficiary.

use vstd::prelude::*;
use crate::contexts::ReleaseEscrow;
use crate::errors::EscrowError;
use crate::state::Escrow;
use crate::token::{CloseAccount, Settlement, Transfer};

verus! {

/// What a release moves and retires: the whole deposit goes from the vault
/// to the beneficiary's holding account, and the vault's storage deposit to
/// the named refund target, both on the word of the vault authority.
pub open spec fn release_settlement(ctx: ReleaseEscrow, escrow: Escrow) -> Settlement {
    Settlement {
        transfer: Transfer {
            from: ctx.vault_account,
            to: ctx.beneficiary_receive_token_account,
            authority: ctx.vault_authority,
            amount: escrow.amount,
        },
        close: CloseAccount {
            account: ctx.vault_account,
            destination: ctx.initializer,
            authority: ctx.vault_authority,
        },
    }
}

/// The decision on a release at time `now`: the caller is looked at first,
/// the time gate second.
pub open spec fn release_decision(ctx: ReleaseEscrow, escrow: Escrow, now: i64) -> Result<
    Settlement,
    EscrowError,
> {
    if ctx.beneficiary.key != escrow.beneficiary {
        Err(EscrowError::InvalidBeneficiary)
    } else if !escrow.releasable_at(now) {
        Err(EscrowError::TooEarlyToRelease)
    } else {
        Ok(release_settlement(ctx, escrow))
    }
}

/// Decides a release of `escrow` asked for at time `now`. `now` is read
/// only where the record carries a time gate.
pub fn handler(ctx: &ReleaseEscrow, escrow: &Escrow, now: i64) -> (r: Result<Settlement, EscrowError>)
    ensures
        r == release_decision(*ctx, *escrow, now),
{
    if !ctx.beneficiary.key.same(&escrow.beneficiary) {
        return Err(EscrowError::InvalidBeneficiary);
    }
    if !escrow.is_releasable_at(now) {
        return Err(EscrowError::TooEarlyToRelease);
    }
    let transfer = Transfer {
        from: ctx.vault_account,
        to: ctx.beneficiary_receive_token_account,
        authority: ctx.vault_authority,
        amount: escrow.amount,
    };
    let close = CloseAccount {
        account: ctx.vault_account,
        destination: ctx.initializer,
        authority: ctx.vault_authority,
    };
    Ok(Settlement { transfer, close })
}

} // verus!
