//! Why a request is rejected. Every rejection is final for that request and
//! leaves the ledger as it was.

use vstd::prelude::*;

verus! {

/// First number given to the escrow's own errors on the wire.
pub const ERROR_CODE_OFFSET: u32 = 6000;

/// Rejections decided by the escrow's own rules.
#[derive(Clone, Copy, Debug, PartialEq, Eq, Structural)]
pub enum EscrowError {
    /// Someone other than the record's beneficiary asked for release.
    InvalidBeneficiary,
    /// Release was asked for before the record's release time.
    TooEarlyToRelease,
    /// Someone other than the record's initializer asked to cancel.
    OnlyInitializerCanCancel,
}

impl EscrowError {
    /// Position of the variant in the declaration.
    pub open spec fn ordinal(&self) -> nat {
        match self {
            EscrowError::InvalidBeneficiary => 0,
            EscrowError::TooEarlyToRelease => 1,
            EscrowError::OnlyInitializerCanCancel => 2,
        }
    }

    /// The message shown for the error.
    pub open spec fn message_spec(&self) -> Seq<char> {
        match self {
            EscrowError::InvalidBeneficiary => "Beneficiary is not allowed to release this escrow."@,
            EscrowError::TooEarlyToRelease => "Too early to release escrow."@,
            EscrowError::OnlyInitializerCanCancel => "Only the initializer may cancel the escrow."@,
        }
    }

    /// The number of the error on the wire: the offset plus the variant's
    /// position.
    pub fn code(&self) -> (c: u32)
        ensures
            c == ERROR_CODE_OFFSET + self.ordinal(),
    {
        match self {
            EscrowError::InvalidBeneficiary => ERROR_CODE_OFFSET,
            EscrowError::TooEarlyToRelease => ERROR_CODE_OFFSET + 1,
            EscrowError::OnlyInitializerCanCancel => ERROR_CODE_OFFSET + 2,
        }
    }

    /// The message shown for the error.
    pub fn message(&self) -> (s: String)
        ensures
            s@ == self.message_spec(),
    {
        match self {
            EscrowError::InvalidBeneficiary => "Beneficiary is not allowed to release this escrow.".to_owned(),
            EscrowError::TooEarlyToRelease => "Too early to release escrow.".to_owned(),
            EscrowError::OnlyInitializerCanCancel => "Only the initializer may cancel the escrow.".to_owned(),
        }
    }
}

/// Rejections that come from the accounts a request names rather than from
/// the escrow's rules.
#[derive(Clone, Copy, Debug, PartialEq, Eq, Structural)]
pub enum AccountError {
    /// The identity that has to sign the request did not.
    MissingSignature,
    /// A named account does not exist, or is not of the kind required.
    AccountNotFound,
    /// An account is to be created at an address that is taken.
    AccountInUse,
    /// A holding account is not owned by the identity required.
    OwnerMismatch,
    /// A holding account is of another asset type.
    MintMismatch,
    /// A named address is not the one derived from the seeds.
    SeedsMismatch,
    /// No disambiguator derives an address from the seeds.
    AddressNotDerivable,
    /// The named vault is not the record's vault.
    VaultMismatch,
    /// The named refund target is not the record's initializer.
    RefundMismatch,
    /// The vault is named as the destination of its own contents.
    DuplicateAccount,
    /// A holding account holds less than is to be moved out of it.
    InsufficientFunds,
    /// The payer cannot cover the storage deposits.
    InsufficientLamports,
    /// The vault would not be empty after its contents are moved.
    VaultNotEmpty,
    /// A balance would exceed what sixty-four bits hold.
    Overflow,
}

/// Any rejection of a request.
#[derive(Clone, Copy, Debug, PartialEq, Eq, Structural)]
pub enum Error {
    /// The escrow's rules reject the request.
    Escrow(EscrowError),
    /// The accounts named by the request are not as required.
    Account(AccountError),
}

} // verus!
