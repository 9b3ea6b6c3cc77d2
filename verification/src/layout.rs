//! The escrow record as the ledger stores it: eight bytes that mark the
//! account as an escrow record, then the fields in their declared order,
//! addresses as their thirty-two bytes and integers in little-endian order,
//! then zeros up to the space that is reserved for the account.

use vstd::prelude::*;
use vstd::bytes::{
    lemma_auto_spec_u64_to_from_le_bytes, spec_u64_to_le_bytes, u64_from_le_bytes,
    u64_to_le_bytes,
};
use vstd::slice::slice_subrange;
use crate::address::{lemma_same_view, Address};
use crate::state::Escrow;

verus! {

/// Number of bytes that the fields of a record take.
pub const BODY_LEN: usize = 146;

/// Number of bytes of the mark and the fields together.
pub const STORED_LEN: usize = 154;

/// Number of bytes reserved for the account of a record.
pub const SPACE: usize = 160;

/// The mark at the start of the account of an escrow record.
pub open spec fn discriminator() -> Seq<u8> {
    seq![31u8, 213u8, 123u8, 187u8, 186u8, 22u8, 218u8, 155u8]
}

/// The fields of a record as bytes.
pub open spec fn body(escrow: Escrow) -> Seq<u8> {
    escrow.initializer@ + escrow.beneficiary@ + escrow.mint@ + escrow.vault@
        + spec_u64_to_le_bytes(escrow.amount) + spec_u64_to_le_bytes(escrow.release_time as u64)
        + seq![escrow.vault_bump, escrow.escrow_bump]
}

/// The whole account of a record as bytes.
pub open spec fn account_data(escrow: Escrow) -> Seq<u8> {
    discriminator() + body(escrow) + Seq::new((SPACE - STORED_LEN) as nat, |i: int| 0u8)
}

/// Whether bytes start with the mark and are long enough to hold the
/// fields of a record.
pub open spec fn framed(data: Seq<u8>) -> bool {
    data.len() >= STORED_LEN && data.subrange(0, 8) == discriminator()
}

/// The record that bytes hold, if they hold one. What follows the fields
/// is not looked at.
pub open spec fn parsed(data: Seq<u8>) -> Option<Escrow> {
    if framed(data) && exists|escrow: Escrow| body(escrow) == data.subrange(8, STORED_LEN as int) {
        Some(choose|escrow: Escrow| body(escrow) == data.subrange(8, STORED_LEN as int))
    } else {
        None
    }
}

/// The fields of a record take `BODY_LEN` bytes.
pub proof fn lemma_body_len(escrow: Escrow)
    ensures
        body(escrow).len() == BODY_LEN,
{
    lemma_auto_spec_u64_to_from_le_bytes();
}

/// Records with the same bytes are the same record.
pub proof fn lemma_body_injective(a: Escrow, b: Escrow)
    requires
        body(a) == body(b),
    ensures
        a == b,
{
    lemma_auto_spec_u64_to_from_le_bytes();
    let x = body(a);
    let y = body(b);
    assert(a.initializer@ =~= x.subrange(0, 32));
    assert(b.initializer@ =~= y.subrange(0, 32));
    lemma_same_view(a.initializer, b.initializer);
    assert(a.beneficiary@ =~= x.subrange(32, 64));
    assert(b.beneficiary@ =~= y.subrange(32, 64));
    lemma_same_view(a.beneficiary, b.beneficiary);
    assert(a.mint@ =~= x.subrange(64, 96));
    assert(b.mint@ =~= y.subrange(64, 96));
    lemma_same_view(a.mint, b.mint);
    assert(a.vault@ =~= x.subrange(96, 128));
    assert(b.vault@ =~= y.subrange(96, 128));
    lemma_same_view(a.vault, b.vault);
    assert(spec_u64_to_le_bytes(a.amount) =~= x.subrange(128, 136));
    assert(spec_u64_to_le_bytes(b.amount) =~= y.subrange(128, 136));
    assert(spec_u64_to_le_bytes(a.release_time as u64) =~= x.subrange(136, 144));
    assert(spec_u64_to_le_bytes(b.release_time as u64) =~= y.subrange(136, 144));
    let ta = a.release_time;
    let tb = b.release_time;
    assert(ta as u64 == tb as u64);
    assert(ta as u64 == tb as u64 ==> ta == tb) by (bit_vector);
    assert(a.vault_bump == x[144]);
    assert(b.vault_bump == y[144]);
    assert(a.escrow_bump == x[145]);
    assert(b.escrow_bump == y[145]);
}

/// Reading back what was written gives the record that was written.
pub proof fn lemma_round_trip(escrow: Escrow)
    ensures
        account_data(escrow).len() == SPACE,
        framed(account_data(escrow)),
        parsed(account_data(escrow)) == Some(escrow),
{
    lemma_body_len(escrow);
    let data = account_data(escrow);
    assert(data.subrange(0, 8) =~= discriminator());
    assert(data.subrange(8, STORED_LEN as int) =~= body(escrow));
    let found = choose|e: Escrow| body(e) == data.subrange(8, STORED_LEN as int);
    lemma_body_injective(found, escrow);
}

fn push_address(data: &mut Vec<u8>, address: &Address)
    ensures
        final(data)@ == old(data)@ + address@,
{
    let mut i: usize = 0;
    while i < 32
        invariant
            0 <= i <= 32,
            data@ == old(data)@ + address@.subrange(0, i as int),
        decreases 32 - i,
    {
        data.push(address.bytes[i]);
        assert(data@ =~= old(data)@ + address@.subrange(0, i + 1));
        i += 1;
    }
    assert(address@.subrange(0, 32) =~= address@);
}

fn push_u64(data: &mut Vec<u8>, x: u64)
    ensures
        final(data)@ == old(data)@ + spec_u64_to_le_bytes(x),
{
    let mut bytes = u64_to_le_bytes(x);
    data.append(&mut bytes);
}

/// Writes a record as the bytes of its account.
pub fn serialize(escrow: &Escrow) -> (data: Vec<u8>)
    ensures
        data@ == account_data(*escrow),
        data@.len() == SPACE,
{
    let mut data: Vec<u8> = Vec::new();
    data.push(31);
    data.push(213);
    data.push(123);
    data.push(187);
    data.push(186);
    data.push(22);
    data.push(218);
    data.push(155);
    assert(data@ =~= discriminator());
    push_address(&mut data, &escrow.initializer);
    push_address(&mut data, &escrow.beneficiary);
    push_address(&mut data, &escrow.mint);
    push_address(&mut data, &escrow.vault);
    push_u64(&mut data, escrow.amount);
    push_u64(&mut data, escrow.release_time as u64);
    data.push(escrow.vault_bump);
    data.push(escrow.escrow_bump);
    assert(data@ =~= discriminator() + body(*escrow));
    let ghost stored = data@;
    let mut i: usize = STORED_LEN;
    proof {
        lemma_body_len(*escrow);
    }
    while i < SPACE
        invariant
            STORED_LEN <= i <= SPACE,
            stored.len() == STORED_LEN,
            data@ == stored + Seq::new((i - STORED_LEN) as nat, |j: int| 0u8),
        decreases SPACE - i,
    {
        data.push(0);
        assert(data@ =~= stored + Seq::new((i + 1 - STORED_LEN) as nat, |j: int| 0u8));
        i += 1;
    }
    data
}

fn read_address(data: &[u8], at: usize) -> (address: Address)
    requires
        at + 32 <= data@.len(),
    ensures
        address@ == data@.subrange(at as int, at + 32),
{
    let len = data.len();
    let mut bytes = [0u8; 32];
    let mut i: usize = 0;
    while i < 32
        invariant
            0 <= i <= 32,
            at + 32 <= data@.len(),
            len == data@.len(),
            forall|j: int| 0 <= j < i ==> bytes@[j] == data@[at + j],
        decreases 32 - i,
    {
        bytes[i] = data[at + i];
        i += 1;
    }
    assert(bytes@ =~= data@.subrange(at as int, at + 32));
    Address { bytes }
}

fn read_u64(data: &[u8], at: usize) -> (x: u64)
    requires
        at + 8 <= data@.len(),
    ensures
        spec_u64_to_le_bytes(x) == data@.subrange(at as int, at + 8),
{
    let len = data.len();
    let part = slice_subrange(data, at, at + 8);
    proof {
        lemma_auto_spec_u64_to_from_le_bytes();
    }
    u64_from_le_bytes(part)
}

/// Reads a record from the bytes of its account: `None` where the bytes
/// are too short for the mark and the fields or do not start with the
/// mark. What follows the fields is not looked at.
pub fn deserialize(data: &[u8]) -> (r: Option<Escrow>)
    ensures
        r == parsed(data@),
        r is Some <==> framed(data@),
{
    if data.len() < STORED_LEN {
        return None;
    }
    if data[0] != 31 || data[1] != 213 || data[2] != 123 || data[3] != 187 || data[4] != 186
        || data[5] != 22 || data[6] != 218 || data[7] != 155 {
        assert(data@.subrange(0, 8)[0] == data@[0]);
        assert(data@.subrange(0, 8)[1] == data@[1]);
        assert(data@.subrange(0, 8)[2] == data@[2]);
        assert(data@.subrange(0, 8)[3] == data@[3]);
        assert(data@.subrange(0, 8)[4] == data@[4]);
        assert(data@.subrange(0, 8)[5] == data@[5]);
        assert(data@.subrange(0, 8)[6] == data@[6]);
        assert(data@.subrange(0, 8)[7] == data@[7]);
        return None;
    }
    assert(data@.subrange(0, 8) =~= discriminator());
    let initializer = read_address(data, 8);
    let beneficiary = read_address(data, 40);
    let mint = read_address(data, 72);
    let vault = read_address(data, 104);
    let amount = read_u64(data, 136);
    let time = read_u64(data, 144);
    let release_time = time as i64;
    let escrow = Escrow {
        initializer,
        beneficiary,
        mint,
        vault,
        amount,
        release_time,
        vault_bump: data[152],
        escrow_bump: data[153],
    };
    proof {
        lemma_auto_spec_u64_to_from_le_bytes();
        assert((time as i64) as u64 == time) by (bit_vector);
        let stored = data@.subrange(8, STORED_LEN as int);
        assert(body(escrow) =~= stored);
        let found = choose|e: Escrow| body(e) == stored;
        lemma_body_injective(found, escrow);
    }
    Some(escrow)
}

} // verus!
