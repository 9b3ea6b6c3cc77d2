//! Cancelling an escrow. A cancellation mirrors a release: the whole
//! deposit goes back from the vault to a holding account of the
//! initializer, the vault is retired, and both storage deposits return to
//! the initializer. There is no time gate on it.

use vstd::prelude::*;
use crate::contexts::CancelEscrow;
use crate::errors::EscrowError;
use crate::state::Escrow;
use crate::token::{CloseAccount, Settlement, Transfer};

verus! {

/// What a cancellation moves and retires.
pub open spec fn cancel_settlement(ctx: CancelEscrow, escrow: Escrow) -> Settlement {
    Settlement {
        transfer: Transfer {
            from: ctx.vault_account,
            to: ctx.initializer_receive_token_account,
            authority: ctx.vault_authority,
            amount: escrow.amount,
        },
        close: CloseAccount {
            account: ctx.vault_account,
            destination: ctx.initializer.key,
            authority: ctx.vault_authority,
        },
    }
}

/// The decision on a cancellation: only the record's initializer may cancel.
pub open spec fn cancel_decision(ctx: CancelEscrow, escrow: Escrow) -> Result<Settlement, EscrowError> {
    if ctx.initializer.key != escrow.initializer {
        Err(EscrowError::OnlyInitializerCanCancel)
    } else {
        Ok(cancel_settlement(ctx, escrow))
    }
}

/// Decides a cancellation of `escrow`.
pub fn handler(ctx: &CancelEscrow, escrow: &Escrow) -> (r: Result<Settlement, EscrowError>)
    ensures
        r == cancel_decision(*ctx, *escrow),
{
    if !ctx.initializer.key.same(&escrow.initializer) {
        return Err(EscrowError::OnlyInitializerCanCancel);
    }
    let transfer = Transfer {
        from: ctx.vault_account,
        to: ctx.initializer_receive_token_account,
        authority: ctx.vault_authority,
        amount: escrow.amount,
    };
    let close = CloseAccount {
        account: ctx.vault_account,
        destination: ctx.initializer.key,
        authority: ctx.vault_authority,
    };
    Ok(Settlement { transfer, close })
}

} // verus!
