//! What holds of every ledger and every request, proved from the
//! definitions of the transitions.

use vstd::prelude::*;
use crate::address::{lemma_same_view, Address};
use crate::contexts::{
    initialize_seeds_outcome, stored_seeds_match, CancelEscrow, InitializeEscrow, ReleaseEscrow,
};
use crate::errors::{AccountError, Error, EscrowError};
use crate::ledger::LedgerState;
use crate::processor::{
    cancel_rejection, cancelled, open_rejection, opened, release_rejection, released,
    settle_rejection,
};
use crate::instructions::release::release_settlement;
use crate::pda::{canonical_address, lemma_canonical_rederives, vault_authority_seeds_spec, escrow_seeds_spec};

verus! {

/// Conservation, at an opening. From any ledger, an opening that is not
/// rejected takes exactly `amount` from the source account and creates the
/// vault with exactly `amount`; every other holding account is as before.
pub proof fn lemma_open_moves_the_deposit(
    s: LedgerState,
    ctx: InitializeEscrow,
    amount: u64,
    release_time: i64,
)
    requires
        open_rejection(s, ctx, amount) is None,
    ensures
        ({
            let source = ctx.initializer_deposit_token_account;
            let end = opened(s, ctx, amount, release_time);
            &&& end.balance(source) == s.balance(source) - amount
            &&& s.holding(ctx.vault_account) is None
            &&& end.balance(ctx.vault_account) == amount
            &&& end.record(ctx.escrow) is Some
            &&& end.record(ctx.escrow).unwrap().amount == amount
            &&& end.record(ctx.escrow).unwrap().vault == ctx.vault_account
            &&& forall|k: Address|
                k != source && k != ctx.vault_account ==> #[trigger] end.holding(k) == s.holding(k)
        }),
{
}

/// Conservation, at a release. From any ledger, a release that is not
/// rejected adds exactly the recorded amount to the receiving account and
/// removes the vault, which held exactly that amount; every other holding
/// account is as before.
pub proof fn lemma_release_moves_the_deposit(s: LedgerState, ctx: ReleaseEscrow)
    requires
        release_rejection(s, ctx) is None,
    ensures
        ({
            let escrow = s.record(ctx.escrow).unwrap();
            let receiving = ctx.beneficiary_receive_token_account;
            let end = released(s, ctx);
            &&& s.balance(escrow.vault) == escrow.amount
            &&& end.balance(receiving) == s.balance(receiving) + escrow.amount
            &&& end.holding(escrow.vault) is None
            &&& forall|k: Address|
                k != receiving && k != escrow.vault ==> #[trigger] end.holding(k) == s.holding(k)
        }),
{
}

/// Conservation, at a cancellation. From any ledger, a cancellation that
/// is not rejected adds exactly the recorded amount to the initializer's
/// receiving account and removes the vault, which held exactly that
/// amount; every other holding account is as before.
pub proof fn lemma_cancel_moves_the_deposit(s: LedgerState, ctx: CancelEscrow)
    requires
        cancel_rejection(s, ctx) is None,
    ensures
        ({
            let escrow = s.record(ctx.escrow).unwrap();
            let receiving = ctx.initializer_receive_token_account;
            let end = cancelled(s, ctx);
            &&& s.balance(escrow.vault) == escrow.amount
            &&& s.holding(receiving).unwrap().owner == escrow.initializer
            &&& end.balance(receiving) == s.balance(receiving) + escrow.amount
            &&& end.holding(escrow.vault) is None
            &&& forall|k: Address|
                k != receiving && k != escrow.vault ==> #[trigger] end.holding(k) == s.holding(k)
        }),
{
}

/// Conservation. When an escrow is opened and then released, at whatever
/// time the release is let through: opening takes exactly `amount` from
/// the initializer's source account, releasing adds exactly `amount` to
/// the beneficiary's receiving account, the vault exists neither before
/// nor after, and no other holding account is changed, created or removed.
pub proof fn lemma_conservation(
    s: LedgerState,
    open: InitializeEscrow,
    amount: u64,
    release_time: i64,
    release: ReleaseEscrow,
    now: i64,
)
    requires
        open_rejection(s, open, amount) is None,
        release.escrow == open.escrow,
        release_rejection(opened(s, open, amount, release_time).at_time(now), release) is None,
    ensures
        ({
            let source = open.initializer_deposit_token_account;
            let receiving = release.beneficiary_receive_token_account;
            let mid = opened(s, open, amount, release_time);
            let end = released(mid.at_time(now), release);
            &&& mid.balance(source) == s.balance(source) - amount
            &&& mid.balance(open.vault_account) == amount
            &&& end.balance(receiving) == mid.balance(receiving) + amount
            &&& s.holding(open.vault_account) is None
            &&& end.holding(open.vault_account) is None
            &&& forall|k: Address|
                k != source && k != open.vault_account ==> #[trigger] mid.holding(k) == s.holding(k)
            &&& forall|k: Address|
                k != receiving && k != open.vault_account ==> #[trigger] end.holding(k)
                    == mid.holding(k)
        }),
{
    let mid = opened(s, open, amount, release_time);
    assert(mid.record(open.escrow) is Some);
}

/// The same for a cancellation: the whole deposit returns to the
/// initializer's receiving account, and no other holding account is
/// changed.
pub proof fn lemma_cancel_returns_deposit(
    s: LedgerState,
    open: InitializeEscrow,
    amount: u64,
    release_time: i64,
    cancel: CancelEscrow,
    now: i64,
)
    requires
        open_rejection(s, open, amount) is None,
        cancel.escrow == open.escrow,
        cancel_rejection(opened(s, open, amount, release_time).at_time(now), cancel) is None,
    ensures
        ({
            let receiving = cancel.initializer_receive_token_account;
            let mid = opened(s, open, amount, release_time);
            let end = cancelled(mid.at_time(now), cancel);
            &&& mid.holding(receiving) matches Some(t) && t.owner == open.initializer.key
            &&& end.balance(receiving) == mid.balance(receiving) + amount
            &&& end.holding(open.vault_account) is None
            &&& forall|k: Address|
                k != receiving && k != open.vault_account ==> #[trigger] end.holding(k)
                    == mid.holding(k)
        }),
{
    let mid = opened(s, open, amount, release_time);
    assert(mid.record(open.escrow) is Some);
}

/// Uniqueness. In a ledger whose records are stored where they are
/// derived, two records of the same initializer and asset type are one
/// record.
pub proof fn lemma_one_record_per_pair(s: LedgerState, first: Address, second: Address)
    requires
        s.records_derived(),
        s.record(first) is Some,
        s.record(second) is Some,
        s.record(first).unwrap().initializer == s.record(second).unwrap().initializer,
        s.record(first).unwrap().mint == s.record(second).unwrap().mint,
    ensures
        first == second,
{
    lemma_same_view(first, second);
}

/// Uniqueness. While a record of an initializer and asset type exists,
/// every opening for the same two is rejected.
pub proof fn lemma_open_rejected_while_record_exists(
    s: LedgerState,
    key: Address,
    ctx: InitializeEscrow,
    amount: u64,
)
    requires
        s.records_derived(),
        s.record(key) is Some,
        s.record(key).unwrap().initializer == ctx.initializer.key,
        s.record(key).unwrap().mint == ctx.mint,
    ensures
        open_rejection(s, ctx, amount) is Some,
{
    if initialize_seeds_outcome(ctx, s.program_id) is Ok {
        lemma_same_view(key, ctx.escrow);
    }
}

/// Uniqueness. An opening establishes the record at the derived address
/// and keeps every record where it is derived, so that a second opening
/// for the same initializer and asset type is rejected until the first
/// escrow is closed.
pub proof fn lemma_second_open_rejected(
    s: LedgerState,
    first: InitializeEscrow,
    amount: u64,
    release_time: i64,
    second: InitializeEscrow,
    second_amount: u64,
    now: i64,
)
    requires
        open_rejection(s, first, amount) is None,
        second.initializer.key == first.initializer.key,
        second.mint == first.mint,
    ensures
        open_rejection(opened(s, first, amount, release_time).at_time(now), second, second_amount)
            is Some,
{
    let mid = opened(s, first, amount, release_time).at_time(now);
    assert(mid.record(first.escrow) is Some);
    if initialize_seeds_outcome(second, mid.program_id) is Ok {
        lemma_same_view(first.escrow, second.escrow);
    }
}

/// Derived authority. In a ledger whose records are stored where they are
/// derived, the disambiguators that a record keeps derive again the
/// record's own address and the canonical vault authority of its
/// initializer and asset type: the check of the stored seeds passes
/// exactly for the request that names that authority.
pub proof fn lemma_stored_seeds_rederive(s: LedgerState, key: Address, named: Address)
    requires
        s.records_derived(),
        s.record(key) is Some,
    ensures
        ({
            let escrow = s.record(key).unwrap();
            match canonical_address(
                vault_authority_seeds_spec(escrow.initializer, escrow.mint),
                s.program_id@,
            ) {
                Some((authority, bump)) => bump == escrow.vault_bump && (stored_seeds_match(
                    escrow,
                    key,
                    named,
                    s.program_id,
                ) <==> named@ == authority),
                None => false,
            }
        }),
{
    let escrow = s.record(key).unwrap();
    assert(s.record_derived(key, escrow));
    lemma_canonical_rederives(escrow_seeds_spec(escrow.initializer, escrow.mint), s.program_id@);
    lemma_canonical_rederives(
        vault_authority_seeds_spec(escrow.initializer, escrow.mint),
        s.program_id@,
    );
}

/// Time gate. For a release that the record's beneficiary signed: before a
/// positive release time it is rejected as too early; from the release
/// time on, and at any time where the release time is zero or less, it is
/// never rejected as too early, and it goes through exactly when the
/// settlement is not refused.
pub proof fn lemma_time_gate(s: LedgerState, ctx: ReleaseEscrow)
    requires
        ctx.beneficiary.is_signer,
        s.record(ctx.escrow) is Some,
        s.record(ctx.escrow).unwrap().beneficiary == ctx.beneficiary.key,
    ensures
        ({
            let escrow = s.record(ctx.escrow).unwrap();
            let refusal = settle_rejection(
                s,
                ctx.escrow,
                escrow,
                release_settlement(ctx, escrow),
                ctx.beneficiary.key,
            );
            &&& escrow.release_time > 0 && s.unix_timestamp < escrow.release_time
                ==> release_rejection(s, ctx) == Some(Error::Escrow(EscrowError::TooEarlyToRelease))
            &&& escrow.release_time <= 0 || s.unix_timestamp >= escrow.release_time ==> (
            release_rejection(s, ctx) is None <==> refusal is None) && release_rejection(s, ctx)
                != Some(Error::Escrow(EscrowError::TooEarlyToRelease))
        }),
{
}

/// Authorization. A release of an existing record by anyone but its
/// beneficiary is rejected, whatever the time; where the caller signed,
/// the reason is that the caller is not the beneficiary.
pub proof fn lemma_release_needs_beneficiary(s: LedgerState, ctx: ReleaseEscrow)
    requires
        s.record(ctx.escrow) is Some,
        s.record(ctx.escrow).unwrap().beneficiary != ctx.beneficiary.key,
    ensures
        release_rejection(s, ctx) is Some,
        ctx.beneficiary.is_signer ==> release_rejection(s, ctx) == Some(
            Error::Escrow(EscrowError::InvalidBeneficiary),
        ),
{
}

/// Authorization. A cancellation of an existing record by anyone but its
/// initializer is rejected; where the caller signed, the reason is that
/// only the initializer may cancel.
pub proof fn lemma_cancel_needs_initializer(s: LedgerState, ctx: CancelEscrow)
    requires
        s.record(ctx.escrow) is Some,
        s.record(ctx.escrow).unwrap().initializer != ctx.initializer.key,
    ensures
        cancel_rejection(s, ctx) is Some,
        ctx.initializer.is_signer ==> cancel_rejection(s, ctx) == Some(
            Error::Escrow(EscrowError::OnlyInitializerCanCancel),
        ),
{
}

/// Terminal idempotence. Where no record is stored at the named address,
/// every release and every cancellation is rejected: for want of a
/// signature, or else because the record does not exist.
pub proof fn lemma_no_record_no_transition(s: LedgerState, release: ReleaseEscrow, cancel: CancelEscrow)
    ensures
        s.record(release.escrow) is None ==> release_rejection(s, release) == Some(
            Error::Account(
                if release.beneficiary.is_signer {
                    AccountError::AccountNotFound
                } else {
                    AccountError::MissingSignature
                },
            ),
        ),
        s.record(cancel.escrow) is None ==> cancel_rejection(s, cancel) == Some(
            Error::Account(
                if cancel.initializer.is_signer {
                    AccountError::AccountNotFound
                } else {
                    AccountError::MissingSignature
                },
            ),
        ),
{
}

/// Terminal idempotence. A release closes the record and its vault
/// together, so that any further release or cancellation of the same
/// record address, at any time, is rejected.
pub proof fn lemma_released_is_final(
    s: LedgerState,
    ctx: ReleaseEscrow,
    later_release: ReleaseEscrow,
    later_cancel: CancelEscrow,
    now: i64,
)
    requires
        release_rejection(s, ctx) is None,
        later_release.escrow == ctx.escrow,
        later_cancel.escrow == ctx.escrow,
    ensures
        released(s, ctx).record(ctx.escrow) is None,
        !released(s, ctx).accounts.contains_key(s.record(ctx.escrow).unwrap().vault),
        release_rejection(released(s, ctx).at_time(now), later_release) is Some,
        cancel_rejection(released(s, ctx).at_time(now), later_cancel) is Some,
{
}

/// Terminal idempotence. A cancellation closes the record and its vault
/// together, so that any further release or cancellation of the same
/// record address, at any time, is rejected.
pub proof fn lemma_cancelled_is_final(
    s: LedgerState,
    ctx: CancelEscrow,
    later_release: ReleaseEscrow,
    later_cancel: CancelEscrow,
    now: i64,
)
    requires
        cancel_rejection(s, ctx) is None,
        later_release.escrow == ctx.escrow,
        later_cancel.escrow == ctx.escrow,
    ensures
        cancelled(s, ctx).record(ctx.escrow) is None,
        !cancelled(s, ctx).accounts.contains_key(s.record(ctx.escrow).unwrap().vault),
        release_rejection(cancelled(s, ctx).at_time(now), later_release) is Some,
        cancel_rejection(cancelled(s, ctx).at_time(now), later_cancel) is Some,
{
}

/// The terms of a record are set once: no opening, release or
/// cancellation changes a record other than the one it creates or closes.
pub proof fn lemma_other_records_untouched(
    s: LedgerState,
    open: InitializeEscrow,
    amount: u64,
    release_time: i64,
    release: ReleaseEscrow,
    cancel: CancelEscrow,
    key: Address,
)
    ensures
        open_rejection(s, open, amount) is None && key != open.escrow ==> opened(
            s,
            open,
            amount,
            release_time,
        ).record(key) == s.record(key),
        release_rejection(s, release) is None && key != release.escrow ==> released(
            s,
            release,
        ).record(key) == s.record(key),
        cancel_rejection(s, cancel) is None && key != cancel.escrow ==> cancelled(s, cancel).record(
            key,
        ) == s.record(key),
{
}

/// Storage deposits. An opening takes the deposits of the vault and of the
/// record from the initializer's wallet; a release of that escrow gives
/// both back to it.
pub proof fn lemma_deposits_return(
    s: LedgerState,
    open: InitializeEscrow,
    amount: u64,
    release_time: i64,
    release: ReleaseEscrow,
    now: i64,
)
    requires
        open_rejection(s, open, amount) is None,
        release.escrow == open.escrow,
        release_rejection(opened(s, open, amount, release_time).at_time(now), release) is None,
    ensures
        ({
            let payer = open.initializer.key;
            let mid = opened(s, open, amount, release_time);
            let end = released(mid.at_time(now), release);
            &&& mid.wallet(payer) == Some((s.wallet(payer).unwrap() - s.rent.holding - s.rent.record) as u64)
            &&& end.wallet(payer) == s.wallet(payer)
        }),
{
    let mid = opened(s, open, amount, release_time);
    assert(mid.record(open.escrow) is Some);
}

} // verus!
