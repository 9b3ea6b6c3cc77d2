use conditional_escrow::address::Address;
use conditional_escrow::contexts::{
    CancelEscrow, InitializeEscrow, InitializeEscrowBumps, ReleaseEscrow, Signer,
};
use conditional_escrow::errors::{EscrowError, ERROR_CODE_OFFSET};
use conditional_escrow::instructions::{cancel, initialize, release};
use conditional_escrow::state::Escrow;
use conditional_escrow::token::{CloseAccount, Settlement, Transfer};

const T: i64 = 1_700_000_000;

fn address(tag: u8) -> Address {
    Address::new([tag; 32])
}

fn escrow(release_time: i64) -> Escrow {
    Escrow {
        initializer: address(1),
        beneficiary: address(2),
        mint: address(3),
        vault: address(4),
        amount: 1000,
        release_time,
        vault_bump: 254,
        escrow_bump: 253,
    }
}

fn release_by(caller: Address) -> ReleaseEscrow {
    ReleaseEscrow {
        beneficiary: Signer { key: caller, is_signer: true },
        beneficiary_receive_token_account: address(5),
        escrow: address(6),
        initializer: address(1),
        vault_account: address(4),
        vault_authority: address(7),
    }
}

fn cancel_by(caller: Address) -> CancelEscrow {
    CancelEscrow {
        initializer: Signer { key: caller, is_signer: true },
        escrow: address(6),
        initializer_receive_token_account: address(8),
        vault_account: address(4),
        vault_authority: address(7),
    }
}

fn settlement_to(to: Address, refund: Address) -> Settlement {
    Settlement {
        transfer: Transfer { from: address(4), to, authority: address(7), amount: 1000 },
        close: CloseAccount { account: address(4), destination: refund, authority: address(7) },
    }
}

#[test]
fn initialize_fills_the_record_from_the_request() {
    let ctx = InitializeEscrow {
        initializer: Signer { key: address(1), is_signer: true },
        beneficiary: address(2),
        initializer_deposit_token_account: address(9),
        vault_account: address(4),
        vault_authority: address(7),
        escrow: address(6),
        mint: address(3),
    };
    let bumps = InitializeEscrowBumps { vault_authority: 254, escrow: 253 };
    let (record, order) = initialize::handler(&ctx, &bumps, 1000, T);
    assert_eq!(record, escrow(T));
    assert_eq!(
        order,
        Transfer { from: address(9), to: address(4), authority: address(1), amount: 1000 }
    );
}

#[test]
fn initialize_takes_any_amount_and_time() {
    let ctx = InitializeEscrow {
        initializer: Signer { key: address(1), is_signer: true },
        beneficiary: address(1),
        initializer_deposit_token_account: address(9),
        vault_account: address(4),
        vault_authority: address(7),
        escrow: address(6),
        mint: address(3),
    };
    let bumps = InitializeEscrowBumps { vault_authority: 1, escrow: 255 };
    let (record, order) = initialize::handler(&ctx, &bumps, 0, i64::MIN);
    assert_eq!(record.amount, 0);
    assert_eq!(record.release_time, i64::MIN);
    assert_eq!(record.beneficiary, address(1));
    assert_eq!(record.vault_bump, 1);
    assert_eq!(record.escrow_bump, 255);
    assert_eq!(order.amount, 0);
    let (record, order) = initialize::handler(&ctx, &bumps, u64::MAX, i64::MAX);
    assert_eq!(record.amount, u64::MAX);
    assert_eq!(record.release_time, i64::MAX);
    assert_eq!(order.amount, u64::MAX);
}

#[test]
fn release_before_the_release_time_is_too_early() {
    let r = release::handler(&release_by(address(2)), &escrow(T), T - 1);
    assert_eq!(r, Err(EscrowError::TooEarlyToRelease));
    let r = release::handler(&release_by(address(2)), &escrow(T), i64::MIN);
    assert_eq!(r, Err(EscrowError::TooEarlyToRelease));
    let r = release::handler(&release_by(address(2)), &escrow(1), 0);
    assert_eq!(r, Err(EscrowError::TooEarlyToRelease));
}

#[test]
fn release_at_and_after_the_release_time_goes_through() {
    let expected = settlement_to(address(5), address(1));
    assert_eq!(release::handler(&release_by(address(2)), &escrow(T), T), Ok(expected));
    assert_eq!(release::handler(&release_by(address(2)), &escrow(T), T + 1), Ok(expected));
    assert_eq!(release::handler(&release_by(address(2)), &escrow(T), i64::MAX), Ok(expected));
    assert_eq!(release::handler(&release_by(address(2)), &escrow(1), 1), Ok(expected));
}

#[test]
fn release_without_a_time_gate_goes_through_at_any_time() {
    let expected = settlement_to(address(5), address(1));
    for release_time in [0, -1, i64::MIN] {
        for now in [i64::MIN, -1, 0, 1, T, i64::MAX] {
            let r = release::handler(&release_by(address(2)), &escrow(release_time), now);
            assert_eq!(r, Ok(expected));
        }
    }
}

#[test]
fn release_by_another_identity_is_invalid_at_any_time() {
    for now in [i64::MIN, 0, T - 1, T, T + 1, i64::MAX] {
        let r = release::handler(&release_by(address(1)), &escrow(T), now);
        assert_eq!(r, Err(EscrowError::InvalidBeneficiary));
        let r = release::handler(&release_by(address(9)), &escrow(0), now);
        assert_eq!(r, Err(EscrowError::InvalidBeneficiary));
    }
}

#[test]
fn release_moves_the_recorded_amount() {
    let mut record = escrow(0);
    record.amount = 77;
    let s = release::handler(&release_by(address(2)), &record, 0).unwrap();
    assert_eq!(s.transfer.amount, 77);
    assert_eq!(s.transfer.from, address(4));
    assert_eq!(s.transfer.to, address(5));
    assert_eq!(s.transfer.authority, address(7));
    assert_eq!(s.close.account, address(4));
    assert_eq!(s.close.destination, address(1));
    assert_eq!(s.close.authority, address(7));
}

#[test]
fn cancel_by_the_initializer_returns_the_deposit() {
    let r = cancel::handler(&cancel_by(address(1)), &escrow(T));
    assert_eq!(r, Ok(settlement_to(address(8), address(1))));
}

#[test]
fn cancel_has_no_time_gate() {
    assert!(cancel::handler(&cancel_by(address(1)), &escrow(i64::MAX)).is_ok());
    assert!(cancel::handler(&cancel_by(address(1)), &escrow(0)).is_ok());
}

#[test]
fn cancel_by_another_identity_is_refused() {
    let r = cancel::handler(&cancel_by(address(2)), &escrow(T));
    assert_eq!(r, Err(EscrowError::OnlyInitializerCanCancel));
    let r = cancel::handler(&cancel_by(address(9)), &escrow(0));
    assert_eq!(r, Err(EscrowError::OnlyInitializerCanCancel));
}

#[test]
fn time_gate_of_a_record() {
    assert!(escrow(T).has_time_gate());
    assert!(escrow(1).has_time_gate());
    assert!(!escrow(0).has_time_gate());
    assert!(!escrow(-5).has_time_gate());
    assert!(!escrow(T).is_releasable_at(T - 1));
    assert!(escrow(T).is_releasable_at(T));
    assert!(escrow(0).is_releasable_at(i64::MIN));
    assert!(escrow(-5).is_releasable_at(-6));
}

#[test]
fn error_codes_follow_the_declaration() {
    assert_eq!(ERROR_CODE_OFFSET, anchor_lang::error::ERROR_CODE_OFFSET);
    assert_eq!(EscrowError::InvalidBeneficiary.code(), 6000);
    assert_eq!(EscrowError::TooEarlyToRelease.code(), 6001);
    assert_eq!(EscrowError::OnlyInitializerCanCancel.code(), 6002);
}

#[test]
fn error_messages() {
    assert_eq!(
        EscrowError::InvalidBeneficiary.message(),
        "Beneficiary is not allowed to release this escrow."
    );
    assert_eq!(EscrowError::TooEarlyToRelease.message(), "Too early to release escrow.");
    assert_eq!(
        EscrowError::OnlyInitializerCanCancel.message(),
        "Only the initializer may cancel the escrow."
    );
}
