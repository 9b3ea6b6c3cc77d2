//! The escrow record: the durable terms of one escrow.

use vstd::prelude::*;
use crate::address::Address;
use crate::pda::{seeds_view, vault_authority_seeds, vault_authority_seeds_spec, with_bump};

verus! {

/// One escrow between an initializer and a beneficiary. The order of the
/// fields is the order in which the record is stored.
#[derive(Clone, Copy, Debug, PartialEq, Eq)]
pub struct Escrow {
    /// The depositor; the only identity that may cancel.
    pub initializer: Address,
    /// The only identity that may release.
    pub beneficiary: Address,
    /// The asset type held in escrow.
    pub mint: Address,
    /// The holding account that keeps the deposit.
    pub vault: Address,
    /// The quantity deposited when the escrow was opened.
    pub amount: u64,
    /// Unix time from which release is allowed; zero or less means at once.
    pub release_time: i64,
    /// Disambiguator of the vault authority.
    pub vault_bump: u8,
    /// Disambiguator of the record's own address.
    pub escrow_bump: u8,
}

impl Escrow {
    /// Whether the record carries a time gate.
    pub open spec fn time_gated(&self) -> bool {
        self.release_time > 0
    }

    /// Whether the time gate lets a release through at `now`.
    pub open spec fn releasable_at(&self, now: i64) -> bool {
        self.release_time <= 0 || now >= self.release_time
    }

    /// Whether the record carries a time gate, so that a release has to
    /// read the clock.
    pub fn has_time_gate(&self) -> (r: bool)
        ensures
            r == self.time_gated(),
    {
        self.release_time > 0
    }

    /// The seeds with which the program signs for the vault authority: the
    /// seeds of the authority followed by the stored disambiguator.
    pub fn vault_signer_seeds(&self) -> (s: Vec<Vec<u8>>)
        ensures
            seeds_view(s@) == vault_authority_seeds_spec(self.initializer, self.mint).push(
                seq![self.vault_bump],
            ),
    {
        with_bump(vault_authority_seeds(&self.initializer, &self.mint), self.vault_bump)
    }

    /// Whether the time gate lets a release through at `now`.
    pub fn is_releasable_at(&self, now: i64) -> (r: bool)
        ensures
            r == self.releasable_at(now),
    {
        self.release_time <= 0 || now >= self.release_time
    }
}

} // verus!
