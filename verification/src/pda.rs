//! Program-derived addresses: the record address and the vault authority of an
//! escrow are computed from the initializer and the asset type, so that only
//! this program, by repeating the computation, can speak for them.

use vstd::prelude::*;
use anchor_lang::prelude::Pubkey;
use crate::address::Address;

verus! {

/// What `Pubkey::create_program_address` returns for the given seeds and
/// program: the derived address, or `None` where it reports an error.
pub uninterp spec fn program_address(seeds: Seq<Seq<u8>>, program_id: Seq<u8>) -> Option<Seq<u8>>;

/// The seeds of a list of byte vectors, each taken by its contents.
pub open spec fn seeds_view(seeds: Seq<Vec<u8>>) -> Seq<Seq<u8>> {
    Seq::new(seeds.len(), |i: int| seeds[i]@)
}

/// `address` and `bump` are the canonical derivation for `seeds`: `bump` is
/// the largest disambiguator, counting down from 255 to 1, that yields an
/// address, and `address` is that address.
pub open spec fn is_canonical(
    seeds: Seq<Seq<u8>>,
    program_id: Seq<u8>,
    address: Seq<u8>,
    bump: u8,
) -> bool {
    &&& bump >= 1
    &&& program_address(seeds.push(seq![bump]), program_id) == Some(address)
    &&& forall|c: u8| bump < c ==> (#[trigger] program_address(seeds.push(seq![c]), program_id)) is None
}

/// Whether any disambiguator yields an address for `seeds`.
pub open spec fn derivable(seeds: Seq<Seq<u8>>, program_id: Seq<u8>) -> bool {
    exists|address: Seq<u8>, bump: u8| is_canonical(seeds, program_id, address, bump)
}

/// The canonical address and disambiguator for `seeds`, if there is one.
pub open spec fn canonical_address(seeds: Seq<Seq<u8>>, program_id: Seq<u8>) -> Option<(Seq<u8>, u8)> {
    if derivable(seeds, program_id) {
        Some(choose|pair: (Seq<u8>, u8)| is_canonical(seeds, program_id, pair.0, pair.1))
    } else {
        None
    }
}

/// The label that starts the seeds of a record address.
pub open spec fn escrow_label() -> Seq<u8> {
    seq![101u8, 115u8, 99u8, 114u8, 111u8, 119u8]
}

/// The label that starts the seeds of a vault authority.
pub open spec fn vault_authority_label() -> Seq<u8> {
    seq![
        118u8, 97u8, 117u8, 108u8, 116u8, 95u8, 97u8, 117u8, 116u8, 104u8, 111u8, 114u8, 105u8,
        116u8, 121u8,
    ]
}

/// Seeds of the record address of the escrow of `initializer` in `mint`.
pub open spec fn escrow_seeds_spec(initializer: Address, mint: Address) -> Seq<Seq<u8>> {
    seq![escrow_label(), initializer@, mint@]
}

/// Seeds of the vault authority of the escrow of `initializer` in `mint`.
pub open spec fn vault_authority_seeds_spec(initializer: Address, mint: Address) -> Seq<Seq<u8>> {
    seq![vault_authority_label(), initializer@, mint@]
}

/// At most one pair is canonical for given seeds.
pub proof fn lemma_canonical_unique(
    seeds: Seq<Seq<u8>>,
    program_id: Seq<u8>,
    a1: Seq<u8>,
    b1: u8,
    a2: Seq<u8>,
    b2: u8,
)
    requires
        is_canonical(seeds, program_id, a1, b1),
        is_canonical(seeds, program_id, a2, b2),
    ensures
        a1 == a2,
        b1 == b2,
{
    if b1 < b2 {
        assert(program_address(seeds.push(seq![b2]), program_id) is None);
    }
    if b2 < b1 {
        assert(program_address(seeds.push(seq![b1]), program_id) is None);
    }
}

/// A canonical pair is the canonical address.
pub proof fn lemma_canonical_is_chosen(
    seeds: Seq<Seq<u8>>,
    program_id: Seq<u8>,
    address: Seq<u8>,
    bump: u8,
)
    requires
        is_canonical(seeds, program_id, address, bump),
    ensures
        canonical_address(seeds, program_id) == Some((address, bump)),
{
    let witness = (address, bump);
    assert(is_canonical(seeds, program_id, witness.0, witness.1));
    let pair = choose|pair: (Seq<u8>, u8)| is_canonical(seeds, program_id, pair.0, pair.1);
    lemma_canonical_unique(seeds, program_id, address, bump, pair.0, pair.1);
}

/// The canonical address, where there is one, is derived again from the
/// seeds followed by its disambiguator.
pub proof fn lemma_canonical_rederives(seeds: Seq<Seq<u8>>, program_id: Seq<u8>)
    ensures
        canonical_address(seeds, program_id) matches Some(pair) ==> pair.1 >= 1 && program_address(
            seeds.push(seq![pair.1]),
            program_id,
        ) == Some(pair.0),
{
    if derivable(seeds, program_id) {
        let w = choose|address: Seq<u8>, bump: u8| is_canonical(seeds, program_id, address, bump);
        let witness = (w.0, w.1);
        assert(is_canonical(seeds, program_id, witness.0, witness.1));
    }
}

/// Calls `Pubkey::create_program_address` on the seeds as given. Trusted: the
/// result is the named derivation of exactly these seeds and this program,
/// with every error of the call reported as `None`.
#[verifier::external_body]
fn create_program_address(seeds: &Vec<Vec<u8>>, program_id: &Address) -> (r: Option<Address>)
    ensures
        match r {
            Some(address) => program_address(seeds_view(seeds@), program_id@) == Some(address@),
            None => program_address(seeds_view(seeds@), program_id@) is None,
        },
{
    let parts: Vec<&[u8]> = seeds.iter().map(|s| s.as_slice()).collect();
    let program = Pubkey::new_from_array(program_id.bytes);
    match Pubkey::create_program_address(&parts, &program) {
        Ok(key) => Some(Address { bytes: key.to_bytes() }),
        Err(_) => None,
    }
}

/// Calls `Pubkey::try_find_program_address`. Trusted: a result is the first
/// disambiguator, counting down from 255 to 1, for which
/// `create_program_address` on the seeds followed by that one byte succeeds,
/// together with the address it gives; `None` means that none of them does.
#[verifier::external_body]
fn try_find_program_address(seeds: &Vec<Vec<u8>>, program_id: &Address) -> (r: Option<(Address, u8)>)
    ensures
        match r {
            Some((address, bump)) => is_canonical(seeds_view(seeds@), program_id@, address@, bump),
            None => forall|c: u8|
                c >= 1 ==> (#[trigger] program_address(
                    seeds_view(seeds@).push(seq![c]),
                    program_id@,
                )) is None,
        },
{
    let parts: Vec<&[u8]> = seeds.iter().map(|s| s.as_slice()).collect();
    let program = Pubkey::new_from_array(program_id.bytes);
    match Pubkey::try_find_program_address(&parts, &program) {
        Some((key, bump)) => Some((Address { bytes: key.to_bytes() }, bump)),
        None => None,
    }
}

/// The bytes of an address as a seed.
fn address_seed(address: &Address) -> (v: Vec<u8>)
    ensures
        v@ == address@,
{
    let mut v: Vec<u8> = Vec::new();
    let mut i: usize = 0;
    while i < 32
        invariant
            0 <= i <= 32,
            v@.len() == i,
            forall|j: int| 0 <= j < i ==> v@[j] == address.bytes[j],
        decreases 32 - i,
    {
        v.push(address.bytes[i]);
        i += 1;
    }
    assert(v@ =~= address@);
    v
}

/// The seeds `[label, initializer, mint]`.
fn labelled_seeds(label: Vec<u8>, initializer: &Address, mint: &Address) -> (s: Vec<Vec<u8>>)
    ensures
        seeds_view(s@) == seq![label@, initializer@, mint@],
{
    let mut s: Vec<Vec<u8>> = Vec::new();
    s.push(label);
    s.push(address_seed(initializer));
    s.push(address_seed(mint));
    assert(seeds_view(s@) =~= seq![label@, initializer@, mint@]);
    s
}

/// Seeds of the record address: the label `escrow`, the initializer and the
/// asset type.
pub fn escrow_seeds(initializer: &Address, mint: &Address) -> (s: Vec<Vec<u8>>)
    ensures
        seeds_view(s@) == escrow_seeds_spec(*initializer, *mint),
{
    let label: Vec<u8> = vec![101u8, 115u8, 99u8, 114u8, 111u8, 119u8];
    assert(label@ =~= escrow_label());
    labelled_seeds(label, initializer, mint)
}

/// Seeds of the vault authority: the label `vault_authority`, the
/// initializer and the asset type.
pub fn vault_authority_seeds(initializer: &Address, mint: &Address) -> (s: Vec<Vec<u8>>)
    ensures
        seeds_view(s@) == vault_authority_seeds_spec(*initializer, *mint),
{
    let label: Vec<u8> = vec![
        118u8, 97u8, 117u8, 108u8, 116u8, 95u8, 97u8, 117u8, 116u8, 104u8, 111u8, 114u8, 105u8,
        116u8, 121u8,
    ];
    assert(label@ =~= vault_authority_label());
    labelled_seeds(label, initializer, mint)
}

/// The seeds followed by the one-byte seed that holds `bump`: what signs for
/// a derived address.
pub fn with_bump(seeds: Vec<Vec<u8>>, bump: u8) -> (s: Vec<Vec<u8>>)
    ensures
        seeds_view(s@) == seeds_view(seeds@).push(seq![bump]),
{
    let mut s = seeds;
    let last: Vec<u8> = vec![bump];
    assert(last@ =~= seq![bump]);
    s.push(last);
    assert(seeds_view(s@) =~= seeds_view(seeds@).push(seq![bump]));
    s
}

/// Searches the canonical address of `seeds` under `program_id`.
pub fn find_program_address(seeds: &Vec<Vec<u8>>, program_id: &Address) -> (r: Option<(Address, u8)>)
    ensures
        match r {
            Some((address, bump)) => canonical_address(seeds_view(seeds@), program_id@) == Some(
                (address@, bump),
            ),
            None => canonical_address(seeds_view(seeds@), program_id@) is None,
        },
{
    let r = try_find_program_address(seeds, program_id);
    proof {
        let sv = seeds_view(seeds@);
        match r {
            Some((address, bump)) => {
                lemma_canonical_is_chosen(sv, program_id@, address@, bump);
            },
            None => {
                assert forall|a: Seq<u8>, b: u8| !is_canonical(sv, program_id@, a, b) by {
                    if b >= 1 {
                        assert(program_address(sv.push(seq![b]), program_id@) is None);
                    }
                }
            },
        }
    }
    r
}

/// Derives the address of `seeds` followed by `bump`, without searching.
pub fn derive_with_bump(seeds: Vec<Vec<u8>>, bump: u8, program_id: &Address) -> (r: Option<Address>)
    ensures
        match r {
            Some(address) => program_address(seeds_view(seeds@).push(seq![bump]), program_id@)
                == Some(address@),
            None => program_address(seeds_view(seeds@).push(seq![bump]), program_id@) is None,
        },
{
    let full = with_bump(seeds, bump);
    create_program_address(&full, program_id)
}

} // verus!
