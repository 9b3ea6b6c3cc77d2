//! The accounts that each request names, as plain addresses.

use vstd::prelude::*;
use crate::address::{lemma_same_view, Address};
use crate::errors::AccountError;
use crate::pda::{
    canonical_address, derive_with_bump, escrow_seeds, escrow_seeds_spec, find_program_address,
    program_address, vault_authority_seeds, vault_authority_seeds_spec,
};
use crate::state::Escrow;

verus! {

/// An identity together with whether it signed the request.
#[derive(Clone, Copy, Debug, PartialEq, Eq)]
pub struct Signer {
    pub key: Address,
    pub is_signer: bool,
}

/// Accounts of a request to open an escrow.
#[derive(Clone, Copy, Debug, PartialEq, Eq)]
pub struct InitializeEscrow {
    /// The depositor; has to sign.
    pub initializer: Signer,
    /// Who may release later; need not sign.
    pub beneficiary: Address,
    /// The initializer's holding account that the deposit is taken from.
    pub initializer_deposit_token_account: Address,
    /// Where the vault is to be created.
    pub vault_account: Address,
    /// The derived authority that is to control the vault.
    pub vault_authority: Address,
    /// Where the record is to be created.
    pub escrow: Address,
    /// The asset type.
    pub mint: Address,
}

/// The disambiguators found while the accounts of an opening request were
/// checked.
#[derive(Clone, Copy, Debug, PartialEq, Eq)]
pub struct InitializeEscrowBumps {
    pub vault_authority: u8,
    pub escrow: u8,
}

/// Accounts of a request to release an escrow to its beneficiary.
#[derive(Clone, Copy, Debug, PartialEq, Eq)]
pub struct ReleaseEscrow {
    /// The caller; has to sign.
    pub beneficiary: Signer,
    /// The beneficiary's holding account that receives the deposit.
    pub beneficiary_receive_token_account: Address,
    /// The record.
    pub escrow: Address,
    /// Who receives the storage deposits; need not sign.
    pub initializer: Address,
    /// The vault.
    pub vault_account: Address,
    /// The derived authority that controls the vault.
    pub vault_authority: Address,
}

/// Accounts of a request to cancel an escrow.
#[derive(Clone, Copy, Debug, PartialEq, Eq)]
pub struct CancelEscrow {
    /// The caller; has to sign.
    pub initializer: Signer,
    /// The record.
    pub escrow: Address,
    /// The initializer's holding account that takes the deposit back.
    pub initializer_receive_token_account: Address,
    /// The vault.
    pub vault_account: Address,
    /// The derived authority that controls the vault.
    pub vault_authority: Address,
}

/// What the seeds of an opening request allow: the two disambiguators, or
/// the reason for which the named addresses are refused. The vault
/// authority is looked at first.
pub open spec fn initialize_seeds_outcome(
    ctx: InitializeEscrow,
    program_id: Address,
) -> Result<InitializeEscrowBumps, AccountError> {
    match canonical_address(
        vault_authority_seeds_spec(ctx.initializer.key, ctx.mint),
        program_id@,
    ) {
        None => Err(AccountError::AddressNotDerivable),
        Some((authority, vault_bump)) => if authority != ctx.vault_authority@ {
            Err(AccountError::SeedsMismatch)
        } else {
            match canonical_address(escrow_seeds_spec(ctx.initializer.key, ctx.mint), program_id@) {
                None => Err(AccountError::AddressNotDerivable),
                Some((record, escrow_bump)) => if record != ctx.escrow@ {
                    Err(AccountError::SeedsMismatch)
                } else {
                    Ok(InitializeEscrowBumps { vault_authority: vault_bump, escrow: escrow_bump })
                },
            }
        },
    }
}

/// Whether the addresses that a request names for the record and for the
/// vault authority are the ones that the record's own terms and stored
/// disambiguators derive.
pub open spec fn stored_seeds_match(
    escrow: Escrow,
    escrow_key: Address,
    vault_authority: Address,
    program_id: Address,
) -> bool {
    &&& program_address(
        escrow_seeds_spec(escrow.initializer, escrow.mint).push(seq![escrow.escrow_bump]),
        program_id@,
    ) == Some(escrow_key@)
    &&& program_address(
        vault_authority_seeds_spec(escrow.initializer, escrow.mint).push(seq![escrow.vault_bump]),
        program_id@,
    ) == Some(vault_authority@)
}

/// What a search for a derived address allows of the address that a
/// request names: where nothing was found, no address can be derived; where
/// the named address is not the one found, the seeds do not match; else the
/// disambiguator that was found.
pub fn accept_found(found: Option<(Address, u8)>, named: &Address) -> (r: Result<u8, AccountError>)
    ensures
        r == match found {
            None => Err::<u8, AccountError>(AccountError::AddressNotDerivable),
            Some((address, bump)) => if address == *named {
                Ok::<u8, AccountError>(bump)
            } else {
                Err::<u8, AccountError>(AccountError::SeedsMismatch)
            },
        },
{
    match found {
        None => Err(AccountError::AddressNotDerivable),
        Some((address, bump)) => {
            if address.same(named) {
                Ok(bump)
            } else {
                Err(AccountError::SeedsMismatch)
            }
        },
    }
}

/// What a derivation with a stored disambiguator allows of the address
/// that a request names: the seeds match only where an address was derived
/// and is the named one.
pub fn accept_derived(derived: Option<Address>, named: &Address) -> (r: Result<(), AccountError>)
    ensures
        r == if derived == Some(*named) {
            Ok::<(), AccountError>(())
        } else {
            Err::<(), AccountError>(AccountError::SeedsMismatch)
        },
{
    match derived {
        None => Err(AccountError::SeedsMismatch),
        Some(address) => {
            if address.same(named) {
                Ok(())
            } else {
                Err(AccountError::SeedsMismatch)
            }
        },
    }
}

impl InitializeEscrow {
    /// Derives the vault authority and the record address from the
    /// initializer and the asset type, and checks the addresses that the
    /// request names against them.
    pub fn find_bumps(&self, program_id: &Address) -> (r: Result<InitializeEscrowBumps, AccountError>)
        ensures
            r == initialize_seeds_outcome(*self, *program_id),
    {
        let authority_seeds = vault_authority_seeds(&self.initializer.key, &self.mint);
        let found = find_program_address(&authority_seeds, program_id);
        proof {
            if found is Some {
                lemma_same_view(found.unwrap().0, self.vault_authority);
            }
        }
        let vault_bump = match accept_found(found, &self.vault_authority) {
            Ok(bump) => bump,
            Err(e) => {
                return Err(e);
            },
        };
        let record_seeds = escrow_seeds(&self.initializer.key, &self.mint);
        let found = find_program_address(&record_seeds, program_id);
        proof {
            if found is Some {
                lemma_same_view(found.unwrap().0, self.escrow);
            }
        }
        match accept_found(found, &self.escrow) {
            Ok(bump) => Ok(InitializeEscrowBumps { vault_authority: vault_bump, escrow: bump }),
            Err(e) => Err(e),
        }
    }
}

/// Derives the record address and the vault authority again from the
/// record's terms and stored disambiguators, and checks the named
/// addresses against them. The record address is looked at first.
pub fn check_stored_seeds(
    escrow: &Escrow,
    escrow_key: &Address,
    vault_authority: &Address,
    program_id: &Address,
) -> (r: Result<(), AccountError>)
    ensures
        r == if stored_seeds_match(*escrow, *escrow_key, *vault_authority, *program_id) {
            Ok::<(), AccountError>(())
        } else {
            Err(AccountError::SeedsMismatch)
        },
{
    let record_seeds = escrow_seeds(&escrow.initializer, &escrow.mint);
    let derived = derive_with_bump(record_seeds, escrow.escrow_bump, program_id);
    proof {
        if derived is Some {
            lemma_same_view(derived.unwrap(), *escrow_key);
        }
    }
    match accept_derived(derived, escrow_key) {
        Ok(()) => {},
        Err(e) => {
            return Err(e);
        },
    }
    let authority_seeds = vault_authority_seeds(&escrow.initializer, &escrow.mint);
    let derived = derive_with_bump(authority_seeds, escrow.vault_bump, program_id);
    proof {
        if derived is Some {
            lemma_same_view(derived.unwrap(), *vault_authority);
        }
    }
    accept_derived(derived, vault_authority)
}

} // verus!
