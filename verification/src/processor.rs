//! The three requests as transitions of the ledger. Each one is atomic:
//! every check is made before anything is changed, the first failing
//! check rejects the request, and a rejected request leaves the ledger as
//! it was.

use vstd::prelude::*;
use crate::address::Address;
use crate::contexts::{
    check_stored_seeds, initialize_seeds_outcome, stored_seeds_match, CancelEscrow,
    InitializeEscrow, ReleaseEscrow,
};
use crate::errors::{AccountError, Error};
use crate::instructions::cancel::{cancel_decision, cancel_settlement};
use crate::instructions::initialize::{deposit_order, opened_record};
use crate::instructions::release::{release_decision, release_settlement};
use crate::instructions::{cancel, initialize, release};
use crate::ledger::{
    lemma_derived_record_keeps_records, lemma_plain_account_keeps_records,
    lemma_removal_keeps_records, Account, AccountData, Ledger, LedgerState,
};
use crate::state::Escrow;
use crate::token::{Settlement, TokenAccount};

verus! {

/// Why an opening is rejected, if it is. The checks, in order: the
/// initializer signed; the source is a holding account of the initializer
/// in the asset type; the named vault authority and record address are the
/// derived ones; the addresses of the vault and of the record are free;
/// the initializer's wallet covers both storage deposits; the source holds
/// the amount.
pub open spec fn open_rejection(s: LedgerState, ctx: InitializeEscrow, amount: u64) -> Option<Error> {
    let source = s.holding(ctx.initializer_deposit_token_account);
    let payer = s.wallet(ctx.initializer.key);
    if !ctx.initializer.is_signer {
        Some(Error::Account(AccountError::MissingSignature))
    } else if source is None {
        Some(Error::Account(AccountError::AccountNotFound))
    } else if source.unwrap().owner != ctx.initializer.key {
        Some(Error::Account(AccountError::OwnerMismatch))
    } else if source.unwrap().mint != ctx.mint {
        Some(Error::Account(AccountError::MintMismatch))
    } else if initialize_seeds_outcome(ctx, s.program_id) is Err {
        Some(Error::Account(initialize_seeds_outcome(ctx, s.program_id)->Err_0))
    } else if s.accounts.contains_key(ctx.vault_account) || s.accounts.contains_key(ctx.escrow)
        || ctx.vault_account == ctx.escrow {
        Some(Error::Account(AccountError::AccountInUse))
    } else if payer is None {
        Some(Error::Account(AccountError::AccountNotFound))
    } else if payer.unwrap() < s.rent.holding + s.rent.record {
        Some(Error::Account(AccountError::InsufficientLamports))
    } else if source.unwrap().amount < amount {
        Some(Error::Account(AccountError::InsufficientFunds))
    } else {
        None
    }
}

/// The ledger after an opening that is not rejected: the initializer's
/// wallet has paid both storage deposits, the source holds `amount` less,
/// the vault exists under the vault authority and holds `amount`, and the
/// record exists with the terms of the request. Nothing else is changed.
pub open spec fn opened(s: LedgerState, ctx: InitializeEscrow, amount: u64, release_time: i64) -> LedgerState {
    let bumps = initialize_seeds_outcome(ctx, s.program_id)->Ok_0;
    let escrow = opened_record(ctx, bumps, amount, release_time);
    let order = deposit_order(ctx, amount);
    let payer = s.accounts[ctx.initializer.key];
    let source = s.accounts[order.from];
    let held = s.holding(order.from).unwrap();
    s.with_account(
        ctx.initializer.key,
        Account {
            lamports: (payer.lamports - s.rent.holding - s.rent.record) as u64,
            data: AccountData::Wallet,
        },
    ).with_account(
        order.from,
        Account {
            lamports: source.lamports,
            data: AccountData::Holding(
                TokenAccount {
                    mint: held.mint,
                    owner: held.owner,
                    amount: (held.amount - order.amount) as u64,
                },
            ),
        },
    ).with_account(
        order.to,
        Account {
            lamports: s.rent.holding,
            data: AccountData::Holding(
                TokenAccount { mint: escrow.mint, owner: ctx.vault_authority, amount: order.amount },
            ),
        },
    ).with_account(ctx.escrow, Account { lamports: s.rent.record, data: AccountData::Record(escrow) })
}

/// Why the settlement of the record stored at `escrow_key` is refused, if
/// it is. `recipient` is who has to own the holding account that receives
/// the deposit. The checks, in order: the record address and the vault
/// authority are derived again from the record and its stored
/// disambiguators; the vault is the record's vault; the storage deposits go
/// to the record's initializer; the vault does not receive its own
/// contents; the vault is a holding account under the vault authority in
/// the record's asset type; the receiving account is a holding account of
/// `recipient` in that asset type; the vault holds exactly the amount; the
/// receiving balance does not overflow; the initializer's wallet exists
/// and can take both storage deposits.
pub open spec fn settle_rejection(
    s: LedgerState,
    escrow_key: Address,
    escrow: Escrow,
    settlement: Settlement,
    recipient: Address,
) -> Option<AccountError> {
    let order = settlement.transfer;
    let vault = s.holding(order.from);
    let receiving = s.holding(order.to);
    let refund = s.wallet(settlement.close.destination);
    if !stored_seeds_match(escrow, escrow_key, order.authority, s.program_id) {
        Some(AccountError::SeedsMismatch)
    } else if order.from != escrow.vault {
        Some(AccountError::VaultMismatch)
    } else if settlement.close.destination != escrow.initializer {
        Some(AccountError::RefundMismatch)
    } else if order.to == order.from {
        Some(AccountError::DuplicateAccount)
    } else if vault is None {
        Some(AccountError::AccountNotFound)
    } else if vault.unwrap().owner != order.authority {
        Some(AccountError::OwnerMismatch)
    } else if vault.unwrap().mint != escrow.mint {
        Some(AccountError::MintMismatch)
    } else if receiving is None {
        Some(AccountError::AccountNotFound)
    } else if receiving.unwrap().owner != recipient {
        Some(AccountError::OwnerMismatch)
    } else if receiving.unwrap().mint != escrow.mint {
        Some(AccountError::MintMismatch)
    } else if vault.unwrap().amount < order.amount {
        Some(AccountError::InsufficientFunds)
    } else if vault.unwrap().amount > order.amount {
        Some(AccountError::VaultNotEmpty)
    } else if receiving.unwrap().amount + order.amount > u64::MAX {
        Some(AccountError::Overflow)
    } else if refund is None {
        Some(AccountError::AccountNotFound)
    } else if refund.unwrap() + s.accounts[order.from].lamports + s.accounts[escrow_key].lamports
        > u64::MAX {
        Some(AccountError::Overflow)
    } else {
        None
    }
}

/// The ledger after a settlement that is not refused: the vault and the
/// record are gone, the receiving account holds the amount more, and the
/// refund target's wallet has the storage deposits of both. Nothing else
/// is changed.
pub open spec fn settled(s: LedgerState, escrow_key: Address, settlement: Settlement) -> LedgerState {
    let order = settlement.transfer;
    let target = settlement.close.destination;
    let receiving = s.accounts[order.to];
    let held = s.holding(order.to).unwrap();
    s.without_account(order.from).without_account(escrow_key).with_account(
        order.to,
        Account {
            lamports: receiving.lamports,
            data: AccountData::Holding(
                TokenAccount {
                    mint: held.mint,
                    owner: held.owner,
                    amount: (held.amount + order.amount) as u64,
                },
            ),
        },
    ).with_account(
        target,
        Account {
            lamports: (s.accounts[target].lamports + s.accounts[order.from].lamports
                + s.accounts[escrow_key].lamports) as u64,
            data: AccountData::Wallet,
        },
    )
}

/// Why a release is rejected, if it is. The checks, in order: the caller
/// signed; the record exists; the caller is the record's beneficiary; the
/// time gate is open at the ledger's clock; the settlement is not refused.
pub open spec fn release_rejection(s: LedgerState, ctx: ReleaseEscrow) -> Option<Error> {
    if !ctx.beneficiary.is_signer {
        Some(Error::Account(AccountError::MissingSignature))
    } else {
        match s.record(ctx.escrow) {
            None => Some(Error::Account(AccountError::AccountNotFound)),
            Some(escrow) => match release_decision(ctx, escrow, s.unix_timestamp) {
                Err(e) => Some(Error::Escrow(e)),
                Ok(settlement) => match settle_rejection(
                    s,
                    ctx.escrow,
                    escrow,
                    settlement,
                    ctx.beneficiary.key,
                ) {
                    Some(e) => Some(Error::Account(e)),
                    None => None,
                },
            },
        }
    }
}

/// The ledger after a release that is not rejected.
pub open spec fn released(s: LedgerState, ctx: ReleaseEscrow) -> LedgerState {
    settled(s, ctx.escrow, release_settlement(ctx, s.record(ctx.escrow).unwrap()))
}

/// Why a cancellation is rejected, if it is. The checks, in order: the
/// caller signed; the record exists; the caller is the record's
/// initializer; the settlement is not refused.
pub open spec fn cancel_rejection(s: LedgerState, ctx: CancelEscrow) -> Option<Error> {
    if !ctx.initializer.is_signer {
        Some(Error::Account(AccountError::MissingSignature))
    } else {
        match s.record(ctx.escrow) {
            None => Some(Error::Account(AccountError::AccountNotFound)),
            Some(escrow) => match cancel_decision(ctx, escrow) {
                Err(e) => Some(Error::Escrow(e)),
                Ok(settlement) => match settle_rejection(
                    s,
                    ctx.escrow,
                    escrow,
                    settlement,
                    ctx.initializer.key,
                ) {
                    Some(e) => Some(Error::Account(e)),
                    None => None,
                },
            },
        }
    }
}

/// The ledger after a cancellation that is not rejected.
pub open spec fn cancelled(s: LedgerState, ctx: CancelEscrow) -> LedgerState {
    settled(s, ctx.escrow, cancel_settlement(ctx, s.record(ctx.escrow).unwrap()))
}

/// An opening that is not rejected keeps every record where its terms
/// derive it, the new record included.
pub proof fn lemma_opened_keeps_records(
    s: LedgerState,
    ctx: InitializeEscrow,
    amount: u64,
    release_time: i64,
)
    requires
        s.records_derived(),
        open_rejection(s, ctx, amount) is None,
    ensures
        opened(s, ctx, amount, release_time).records_derived(),
{
    let bumps = initialize_seeds_outcome(ctx, s.program_id)->Ok_0;
    let escrow = opened_record(ctx, bumps, amount, release_time);
    let order = deposit_order(ctx, amount);
    let payer = s.accounts[ctx.initializer.key];
    let source = s.accounts[order.from];
    let held = s.holding(order.from).unwrap();
    let paid = Account {
        lamports: (payer.lamports - s.rent.holding - s.rent.record) as u64,
        data: AccountData::Wallet,
    };
    let debited = Account {
        lamports: source.lamports,
        data: AccountData::Holding(
            TokenAccount {
                mint: held.mint,
                owner: held.owner,
                amount: (held.amount - order.amount) as u64,
            },
        ),
    };
    let vault = Account {
        lamports: s.rent.holding,
        data: AccountData::Holding(
            TokenAccount { mint: escrow.mint, owner: ctx.vault_authority, amount: order.amount },
        ),
    };
    let s1 = s.with_account(ctx.initializer.key, paid);
    let s2 = s1.with_account(order.from, debited);
    let s3 = s2.with_account(order.to, vault);
    lemma_plain_account_keeps_records(s, ctx.initializer.key, paid);
    lemma_plain_account_keeps_records(s1, order.from, debited);
    lemma_plain_account_keeps_records(s2, order.to, vault);
    assert(s3.record_derived(ctx.escrow, escrow));
    lemma_derived_record_keeps_records(s3, ctx.escrow, s.rent.record, escrow);
}

/// A settlement keeps every remaining record where its terms derive it.
pub proof fn lemma_settled_keeps_records(s: LedgerState, escrow_key: Address, settlement: Settlement)
    requires
        s.records_derived(),
    ensures
        settled(s, escrow_key, settlement).records_derived(),
{
    let order = settlement.transfer;
    let target = settlement.close.destination;
    let receiving = s.accounts[order.to];
    let held = s.holding(order.to).unwrap();
    let credited = Account {
        lamports: receiving.lamports,
        data: AccountData::Holding(
            TokenAccount {
                mint: held.mint,
                owner: held.owner,
                amount: (held.amount + order.amount) as u64,
            },
        ),
    };
    let s1 = s.without_account(order.from);
    let s2 = s1.without_account(escrow_key);
    let s3 = s2.with_account(order.to, credited);
    lemma_removal_keeps_records(s, order.from);
    lemma_removal_keeps_records(s1, escrow_key);
    lemma_plain_account_keeps_records(s2, order.to, credited);
    lemma_plain_account_keeps_records(
        s3,
        target,
        Account {
            lamports: (s.accounts[target].lamports + s.accounts[order.from].lamports
                + s.accounts[escrow_key].lamports) as u64,
            data: AccountData::Wallet,
        },
    );
}

/// Opens an escrow: creates the vault and the record, and moves `amount`
/// from the initializer's holding account into the vault.
pub fn initialize_escrow(
    ledger: &mut Ledger,
    ctx: &InitializeEscrow,
    amount: u64,
    release_time: i64,
) -> (r: Result<(), Error>)
    requires
        old(ledger).wf(),
    ensures
        final(ledger).wf(),
        match r {
            Ok(()) => open_rejection(old(ledger)@, *ctx, amount) is None && final(ledger)@
                == opened(old(ledger)@, *ctx, amount, release_time),
            Err(e) => open_rejection(old(ledger)@, *ctx, amount) == Some(e) && final(ledger)@
                == old(ledger)@,
        },
{
    if !ctx.initializer.is_signer {
        return Err(Error::Account(AccountError::MissingSignature));
    }
    let source = match ledger.account(&ctx.initializer_deposit_token_account) {
        Some(account) => account,
        None => {
            return Err(Error::Account(AccountError::AccountNotFound));
        },
    };
    let held = match source.data {
        AccountData::Holding(t) => t,
        _ => {
            return Err(Error::Account(AccountError::AccountNotFound));
        },
    };
    if !held.owner.same(&ctx.initializer.key) {
        return Err(Error::Account(AccountError::OwnerMismatch));
    }
    if !held.mint.same(&ctx.mint) {
        return Err(Error::Account(AccountError::MintMismatch));
    }
    let program_id = ledger.program_id();
    let bumps = match ctx.find_bumps(&program_id) {
        Ok(bumps) => bumps,
        Err(e) => {
            return Err(Error::Account(e));
        },
    };
    if ledger.account(&ctx.vault_account).is_some() || ledger.account(&ctx.escrow).is_some()
        || ctx.vault_account.same(&ctx.escrow) {
        return Err(Error::Account(AccountError::AccountInUse));
    }
    let payer = match ledger.account(&ctx.initializer.key) {
        Some(account) => account,
        None => {
            return Err(Error::Account(AccountError::AccountNotFound));
        },
    };
    match payer.data {
        AccountData::Wallet => {},
        _ => {
            return Err(Error::Account(AccountError::AccountNotFound));
        },
    }
    let rent = ledger.rent();
    if payer.lamports < rent.holding || payer.lamports - rent.holding < rent.record {
        return Err(Error::Account(AccountError::InsufficientLamports));
    }
    let (escrow, order) = initialize::handler(ctx, &bumps, amount, release_time);
    if held.amount < order.amount {
        return Err(Error::Account(AccountError::InsufficientFunds));
    }
    let paid = Account {
        lamports: payer.lamports - rent.holding - rent.record,
        data: AccountData::Wallet,
    };
    let debited = Account {
        lamports: source.lamports,
        data: AccountData::Holding(
            TokenAccount { mint: held.mint, owner: held.owner, amount: held.amount - order.amount },
        ),
    };
    let vault = Account {
        lamports: rent.holding,
        data: AccountData::Holding(
            TokenAccount { mint: escrow.mint, owner: ctx.vault_authority, amount: order.amount },
        ),
    };
    proof {
        lemma_opened_keeps_records(ledger@, *ctx, amount, release_time);
    }
    ledger.put(ctx.initializer.key, paid);
    ledger.put(order.from, debited);
    ledger.put(order.to, vault);
    ledger.put(ctx.escrow, Account { lamports: rent.record, data: AccountData::Record(escrow) });
    Ok(())
}

/// Carries out the settlement of the record stored at `escrow_key`, or
/// refuses it and changes nothing.
fn settle(
    ledger: &mut Ledger,
    escrow_key: &Address,
    escrow: &Escrow,
    settlement: &Settlement,
    recipient: &Address,
) -> (r: Result<(), AccountError>)
    requires
        old(ledger).wf(),
        old(ledger)@.record(*escrow_key) == Some(*escrow),
    ensures
        final(ledger).wf(),
        match r {
            Ok(()) => settle_rejection(old(ledger)@, *escrow_key, *escrow, *settlement, *recipient)
                is None && final(ledger)@ == settled(old(ledger)@, *escrow_key, *settlement),
            Err(e) => settle_rejection(old(ledger)@, *escrow_key, *escrow, *settlement, *recipient)
                == Some(e) && final(ledger)@ == old(ledger)@,
        },
{
    let order = settlement.transfer;
    let target = settlement.close.destination;
    let program_id = ledger.program_id();
    match check_stored_seeds(escrow, escrow_key, &order.authority, &program_id) {
        Ok(()) => {},
        Err(e) => {
            return Err(e);
        },
    }
    if !order.from.same(&escrow.vault) {
        return Err(AccountError::VaultMismatch);
    }
    if !target.same(&escrow.initializer) {
        return Err(AccountError::RefundMismatch);
    }
    if order.to.same(&order.from) {
        return Err(AccountError::DuplicateAccount);
    }
    let vault = match ledger.account(&order.from) {
        Some(account) => account,
        None => {
            return Err(AccountError::AccountNotFound);
        },
    };
    let kept = match vault.data {
        AccountData::Holding(t) => t,
        _ => {
            return Err(AccountError::AccountNotFound);
        },
    };
    if !kept.owner.same(&order.authority) {
        return Err(AccountError::OwnerMismatch);
    }
    if !kept.mint.same(&escrow.mint) {
        return Err(AccountError::MintMismatch);
    }
    let receiving = match ledger.account(&order.to) {
        Some(account) => account,
        None => {
            return Err(AccountError::AccountNotFound);
        },
    };
    let held = match receiving.data {
        AccountData::Holding(t) => t,
        _ => {
            return Err(AccountError::AccountNotFound);
        },
    };
    if !held.owner.same(recipient) {
        return Err(AccountError::OwnerMismatch);
    }
    if !held.mint.same(&escrow.mint) {
        return Err(AccountError::MintMismatch);
    }
    if kept.amount < order.amount {
        return Err(AccountError::InsufficientFunds);
    }
    if kept.amount > order.amount {
        return Err(AccountError::VaultNotEmpty);
    }
    if held.amount > u64::MAX - order.amount {
        return Err(AccountError::Overflow);
    }
    let refund = match ledger.account(&target) {
        Some(account) => account,
        None => {
            return Err(AccountError::AccountNotFound);
        },
    };
    match refund.data {
        AccountData::Wallet => {},
        _ => {
            return Err(AccountError::AccountNotFound);
        },
    }
    let record = match ledger.account(escrow_key) {
        Some(account) => account,
        None => {
            return Err(AccountError::AccountNotFound);
        },
    };
    if refund.lamports > u64::MAX - vault.lamports || refund.lamports + vault.lamports > u64::MAX
        - record.lamports {
        return Err(AccountError::Overflow);
    }
    let credited = Account {
        lamports: receiving.lamports,
        data: AccountData::Holding(
            TokenAccount { mint: held.mint, owner: held.owner, amount: held.amount + order.amount },
        ),
    };
    let refunded = Account {
        lamports: refund.lamports + vault.lamports + record.lamports,
        data: AccountData::Wallet,
    };
    proof {
        lemma_settled_keeps_records(ledger@, *escrow_key, *settlement);
    }
    ledger.take(&order.from);
    ledger.take(escrow_key);
    ledger.put(order.to, credited);
    ledger.put(target, refunded);
    Ok(())
}

/// Releases an escrow to its beneficiary: the deposit goes from the vault
/// to the beneficiary's holding account, the vault and the record are
/// closed, and both storage deposits return to the initializer.
pub fn release_escrow(ledger: &mut Ledger, ctx: &ReleaseEscrow) -> (r: Result<(), Error>)
    requires
        old(ledger).wf(),
    ensures
        final(ledger).wf(),
        match r {
            Ok(()) => release_rejection(old(ledger)@, *ctx) is None && final(ledger)@ == released(
                old(ledger)@,
                *ctx,
            ),
            Err(e) => release_rejection(old(ledger)@, *ctx) == Some(e) && final(ledger)@ == old(
                ledger,
            )@,
        },
{
    if !ctx.beneficiary.is_signer {
        return Err(Error::Account(AccountError::MissingSignature));
    }
    let escrow = match ledger.account(&ctx.escrow) {
        Some(Account { data: AccountData::Record(escrow), .. }) => escrow,
        _ => {
            return Err(Error::Account(AccountError::AccountNotFound));
        },
    };
    let now = ledger.unix_timestamp();
    let settlement = match release::handler(ctx, &escrow, now) {
        Ok(settlement) => settlement,
        Err(e) => {
            return Err(Error::Escrow(e));
        },
    };
    match settle(ledger, &ctx.escrow, &escrow, &settlement, &ctx.beneficiary.key) {
        Ok(()) => Ok(()),
        Err(e) => Err(Error::Account(e)),
    }
}

/// Cancels an escrow: the deposit goes from the vault back to a holding
/// account of the initializer, the vault and the record are closed, and
/// both storage deposits return to the initializer.
pub fn cancel_escrow(ledger: &mut Ledger, ctx: &CancelEscrow) -> (r: Result<(), Error>)
    requires
        old(ledger).wf(),
    ensures
        final(ledger).wf(),
        match r {
            Ok(()) => cancel_rejection(old(ledger)@, *ctx) is None && final(ledger)@ == cancelled(
                old(ledger)@,
                *ctx,
            ),
            Err(e) => cancel_rejection(old(ledger)@, *ctx) == Some(e) && final(ledger)@ == old(
                ledger,
            )@,
        },
{
    if !ctx.initializer.is_signer {
        return Err(Error::Account(AccountError::MissingSignature));
    }
    let escrow = match ledger.account(&ctx.escrow) {
        Some(Account { data: AccountData::Record(escrow), .. }) => escrow,
        _ => {
            return Err(Error::Account(AccountError::AccountNotFound));
        },
    };
    let settlement = match cancel::handler(ctx, &escrow) {
        Ok(settlement) => settlement,
        Err(e) => {
            return Err(Error::Escrow(e));
        },
    };
    match settle(ledger, &ctx.escrow, &escrow, &settlement, &ctx.initializer.key) {
        Ok(()) => Ok(()),
        Err(e) => Err(Error::Account(e)),
    }
}

} // verus!
