//! The ledger that the escrow acts on: accounts stored under their
//! addresses, the program's identity, the storage deposits and the clock.
//! Creating an account at an address that is taken fails; that alone keeps
//! one escrow per initializer and asset type, since the record's address is
//! derived from the two.

use vstd::prelude::*;
use crate::address::Address;
use crate::errors::AccountError;
use crate::pda::{canonical_address, escrow_seeds_spec, vault_authority_seeds_spec};
use crate::state::Escrow;
use crate::token::TokenAccount;

verus! {

/// What an account holds besides its storage deposit.
#[derive(Clone, Copy, Debug, PartialEq, Eq)]
pub enum AccountData {
    /// A party's own account: nothing but its native balance.
    Wallet,
    /// A holding account.
    Holding(TokenAccount),
    /// An escrow record.
    Record(Escrow),
}

/// An account as stored: a native balance, which for holding accounts and
/// records is the storage deposit, and the contents.
#[derive(Clone, Copy, Debug, PartialEq, Eq)]
pub struct Account {
    pub lamports: u64,
    pub data: AccountData,
}

/// The storage deposits that creating an account costs its payer.
#[derive(Clone, Copy, Debug, PartialEq, Eq)]
pub struct Rent {
    /// Deposit of a holding account.
    pub holding: u64,
    /// Deposit of an escrow record.
    pub record: u64,
}

/// The ledger as a mathematical value.
#[verifier::ext_equal]
pub struct LedgerState {
    pub program_id: Address,
    pub rent: Rent,
    pub unix_timestamp: i64,
    pub accounts: Map<Address, Account>,
}

impl LedgerState {
    /// The holding account stored at `key`, if there is one.
    pub open spec fn holding(self, key: Address) -> Option<TokenAccount> {
        if self.accounts.contains_key(key) {
            match self.accounts[key].data {
                AccountData::Holding(t) => Some(t),
                _ => None,
            }
        } else {
            None
        }
    }

    /// The escrow record stored at `key`, if there is one.
    pub open spec fn record(self, key: Address) -> Option<Escrow> {
        if self.accounts.contains_key(key) {
            match self.accounts[key].data {
                AccountData::Record(e) => Some(e),
                _ => None,
            }
        } else {
            None
        }
    }

    /// The native balance of the wallet at `key`, if there is one.
    pub open spec fn wallet(self, key: Address) -> Option<u64> {
        if self.accounts.contains_key(key) {
            match self.accounts[key].data {
                AccountData::Wallet => Some(self.accounts[key].lamports),
                _ => None,
            }
        } else {
            None
        }
    }

    /// The balance of the holding account at `key`; zero where there is
    /// none.
    pub open spec fn balance(self, key: Address) -> int {
        match self.holding(key) {
            Some(t) => t.amount as int,
            None => 0,
        }
    }

    /// The ledger with its clock at `now`.
    pub open spec fn at_time(self, now: i64) -> LedgerState {
        LedgerState { unix_timestamp: now, ..self }
    }

    /// The ledger with `account` stored at `key`.
    pub open spec fn with_account(self, key: Address, account: Account) -> LedgerState {
        LedgerState { accounts: self.accounts.insert(key, account), ..self }
    }

    /// The ledger with nothing stored at `key`.
    pub open spec fn without_account(self, key: Address) -> LedgerState {
        LedgerState { accounts: self.accounts.remove(key), ..self }
    }

    /// A record stored at `key` sits at the canonical address of its
    /// initializer and asset type, and keeps the canonical disambiguators
    /// of that address and of its vault authority.
    pub open spec fn record_derived(self, key: Address, escrow: Escrow) -> bool {
        &&& canonical_address(escrow_seeds_spec(escrow.initializer, escrow.mint), self.program_id@)
            == Some((key@, escrow.escrow_bump))
        &&& canonical_address(
            vault_authority_seeds_spec(escrow.initializer, escrow.mint),
            self.program_id@,
        ) matches Some(pair) && pair.1 == escrow.vault_bump
    }

    /// Every record is stored where its terms derive it.
    pub open spec fn records_derived(self) -> bool {
        forall|key: Address|
            (#[trigger] self.record(key)) is Some ==> self.record_derived(
                key,
                self.record(key).unwrap(),
            )
    }
}

/// Storing anything but a record keeps the records where they are derived.
pub proof fn lemma_plain_account_keeps_records(s: LedgerState, key: Address, account: Account)
    requires
        s.records_derived(),
        !(account.data is Record),
    ensures
        s.with_account(key, account).records_derived(),
{
    let after = s.with_account(key, account);
    assert forall|k: Address| (#[trigger] after.record(k)) is Some implies after.record_derived(
        k,
        after.record(k).unwrap(),
    ) by {
        if after.record(k) is Some {
            assert(k != key);
            assert(s.record(k) == after.record(k));
        }
    }
}

/// Storing a record at the address that its terms derive keeps the records
/// where they are derived.
pub proof fn lemma_derived_record_keeps_records(s: LedgerState, key: Address, lamports: u64, escrow: Escrow)
    requires
        s.records_derived(),
        s.record_derived(key, escrow),
    ensures
        s.with_account(key, Account { lamports, data: AccountData::Record(escrow) }).records_derived(),
{
    let after = s.with_account(key, Account { lamports, data: AccountData::Record(escrow) });
    assert forall|k: Address| (#[trigger] after.record(k)) is Some implies after.record_derived(
        k,
        after.record(k).unwrap(),
    ) by {
        if after.record(k) is Some && k != key {
            assert(s.record(k) == after.record(k));
        }
    }
}

/// Removing an account keeps the records where they are derived.
pub proof fn lemma_removal_keeps_records(s: LedgerState, key: Address)
    requires
        s.records_derived(),
    ensures
        s.without_account(key).records_derived(),
{
    let after = s.without_account(key);
    assert forall|k: Address| (#[trigger] after.record(k)) is Some implies after.record_derived(
        k,
        after.record(k).unwrap(),
    ) by {
        if after.record(k) is Some {
            assert(s.record(k) == after.record(k));
        }
    }
}

/// Setting the clock keeps the records where they are derived.
pub proof fn lemma_clock_keeps_records(s: LedgerState, now: i64)
    requires
        s.records_derived(),
    ensures
        s.at_time(now).records_derived(),
{
    let after = s.at_time(now);
    assert forall|k: Address| (#[trigger] after.record(k)) is Some implies after.record_derived(
        k,
        after.record(k).unwrap(),
    ) by {
        assert(s.record(k) == after.record(k));
    }
}

/// What funding the wallet at `key` with `lamports` comes to: the wallet is
/// created where nothing is stored, and topped up where it exists.
pub open spec fn fund_outcome(s: LedgerState, key: Address, lamports: u64) -> Result<
    LedgerState,
    AccountError,
> {
    if !s.accounts.contains_key(key) {
        Ok(s.with_account(key, Account { lamports, data: AccountData::Wallet }))
    } else if s.wallet(key) is None {
        Err(AccountError::AccountInUse)
    } else if s.accounts[key].lamports + lamports > u64::MAX {
        Err(AccountError::Overflow)
    } else {
        Ok(
            s.with_account(
                key,
                Account {
                    lamports: (s.accounts[key].lamports + lamports) as u64,
                    data: AccountData::Wallet,
                },
            ),
        )
    }
}

/// What creating the holding account `holding` at `key` comes to.
pub open spec fn create_token_account_outcome(
    s: LedgerState,
    key: Address,
    holding: TokenAccount,
) -> Result<LedgerState, AccountError> {
    if s.accounts.contains_key(key) {
        Err(AccountError::AccountInUse)
    } else {
        Ok(
            s.with_account(
                key,
                Account { lamports: s.rent.holding, data: AccountData::Holding(holding) },
            ),
        )
    }
}

/// One stored account with its address.
struct Entry {
    key: Address,
    account: Account,
}

/// The ledger.
pub struct Ledger {
    program_id: Address,
    rent: Rent,
    unix_timestamp: i64,
    entries: Vec<Entry>,
}

spec fn has_key(entries: Seq<Entry>, key: Address) -> bool {
    exists|i: int| 0 <= i < entries.len() && (#[trigger] entries[i]).key == key
}

spec fn index_of(entries: Seq<Entry>, key: Address) -> int {
    choose|i: int| 0 <= i < entries.len() && (#[trigger] entries[i]).key == key
}

spec fn distinct_keys(entries: Seq<Entry>) -> bool {
    forall|i: int, j: int|
        0 <= i < j < entries.len() ==> (#[trigger] entries[i]).key != (#[trigger] entries[j]).key
}

spec fn accounts_of(entries: Seq<Entry>) -> Map<Address, Account> {
    Map::new(|key: Address| has_key(entries, key), |key: Address| entries[index_of(entries, key)].account)
}

proof fn lemma_entry_found(entries: Seq<Entry>, i: int)
    requires
        distinct_keys(entries),
        0 <= i < entries.len(),
    ensures
        has_key(entries, entries[i].key),
        index_of(entries, entries[i].key) == i,
        accounts_of(entries).contains_key(entries[i].key),
        accounts_of(entries)[entries[i].key] == entries[i].account,
{
    let key = entries[i].key;
    assert(has_key(entries, key));
    let j = index_of(entries, key);
    assert(0 <= j < entries.len() && entries[j].key == key);
    if j < i {
        assert(entries[j].key != entries[i].key);
    }
    if i < j {
        assert(entries[i].key != entries[j].key);
    }
}

proof fn lemma_updated(entries: Seq<Entry>, i: int, account: Account)
    requires
        distinct_keys(entries),
        0 <= i < entries.len(),
    ensures
        distinct_keys(entries.update(i, Entry { key: entries[i].key, account })),
        accounts_of(entries.update(i, Entry { key: entries[i].key, account })) == accounts_of(
            entries,
        ).insert(entries[i].key, account),
{
    let key = entries[i].key;
    let after = entries.update(i, Entry { key, account });
    assert forall|a: int, b: int| 0 <= a < b < after.len() implies (#[trigger] after[a]).key != (
    #[trigger] after[b]).key by {
        assert(after[a].key == entries[a].key);
        assert(after[b].key == entries[b].key);
    }
    let expected = accounts_of(entries).insert(key, account);
    assert forall|k: Address| accounts_of(after).contains_key(k) <==> expected.contains_key(k) by {
        if has_key(after, k) {
            let j = index_of(after, k);
            assert(entries[j].key == k);
        }
        if has_key(entries, k) {
            let j = index_of(entries, k);
            assert(after[j].key == k);
        }
        if k == key {
            assert(after[i].key == k);
        }
    }
    assert forall|k: Address| accounts_of(after).contains_key(k) implies accounts_of(after)[k]
        == expected[k] by {
        let j = index_of(after, k);
        lemma_entry_found(after, j);
        if j != i {
            assert(entries[j].key == k);
            lemma_entry_found(entries, j);
        }
    }
    assert(accounts_of(after) =~= expected);
}

proof fn lemma_pushed(entries: Seq<Entry>, key: Address, account: Account)
    requires
        distinct_keys(entries),
        !has_key(entries, key),
    ensures
        distinct_keys(entries.push(Entry { key, account })),
        accounts_of(entries.push(Entry { key, account })) == accounts_of(entries).insert(
            key,
            account,
        ),
{
    let after = entries.push(Entry { key, account });
    let n = entries.len() as int;
    assert forall|a: int, b: int| 0 <= a < b < after.len() implies (#[trigger] after[a]).key != (
    #[trigger] after[b]).key by {
        assert(after[a] == entries[a]);
        if b < n {
            assert(after[b] == entries[b]);
        } else {
            assert(after[b].key == key);
            assert(entries[a].key != key);
        }
    }
    let expected = accounts_of(entries).insert(key, account);
    assert forall|k: Address| accounts_of(after).contains_key(k) <==> expected.contains_key(k) by {
        if has_key(after, k) {
            let j = index_of(after, k);
            if j < n {
                assert(entries[j].key == k);
            }
        }
        if has_key(entries, k) {
            let j = index_of(entries, k);
            assert(after[j].key == k);
        }
        if k == key {
            assert(after[n].key == k);
        }
    }
    assert forall|k: Address| accounts_of(after).contains_key(k) implies accounts_of(after)[k]
        == expected[k] by {
        let j = index_of(after, k);
        lemma_entry_found(after, j);
        if j < n {
            assert(entries[j].key == k);
            lemma_entry_found(entries, j);
        }
    }
    assert(accounts_of(after) =~= expected);
}

proof fn lemma_removed(entries: Seq<Entry>, i: int)
    requires
        distinct_keys(entries),
        0 <= i < entries.len(),
    ensures
        distinct_keys(entries.remove(i)),
        accounts_of(entries.remove(i)) == accounts_of(entries).remove(entries[i].key),
{
    let key = entries[i].key;
    let after = entries.remove(i);
    assert forall|a: int| 0 <= a < after.len() implies #[trigger] after[a] == entries[if a < i {
        a
    } else {
        a + 1
    }] by {}
    assert forall|a: int, b: int| 0 <= a < b < after.len() implies (#[trigger] after[a]).key != (
    #[trigger] after[b]).key by {
        let a0 = if a < i { a } else { a + 1 };
        let b0 = if b < i { b } else { b + 1 };
        assert(after[a] == entries[a0]);
        assert(after[b] == entries[b0]);
        assert(entries[a0].key != entries[b0].key);
    }
    let expected = accounts_of(entries).remove(key);
    assert forall|k: Address| accounts_of(after).contains_key(k) <==> expected.contains_key(k) by {
        if has_key(after, k) {
            let j = index_of(after, k);
            let j0 = if j < i { j } else { j + 1 };
            assert(after[j] == entries[j0]);
            assert(entries[j0].key == k);
            if k == key {
                lemma_entry_found(entries, i);
                lemma_entry_found(entries, j0);
            }
        }
        if has_key(entries, k) && k != key {
            let j = index_of(entries, k);
            let j1 = if j < i { j } else { j - 1 };
            assert(after[j1] == entries[j]);
            assert(after[j1].key == k);
        }
    }
    assert forall|k: Address| accounts_of(after).contains_key(k) implies accounts_of(after)[k]
        == expected[k] by {
        let j = index_of(after, k);
        lemma_entry_found(after, j);
        let j0 = if j < i { j } else { j + 1 };
        assert(after[j] == entries[j0]);
        lemma_entry_found(entries, j0);
    }
    assert(accounts_of(after) =~= expected);
}

impl View for Ledger {
    type V = LedgerState;

    closed spec fn view(&self) -> LedgerState {
        LedgerState {
            program_id: self.program_id,
            rent: self.rent,
            unix_timestamp: self.unix_timestamp,
            accounts: accounts_of(self.entries@),
        }
    }
}

impl Ledger {
    /// No address is stored twice.
    pub closed spec fn keys_distinct(&self) -> bool {
        distinct_keys(self.entries@)
    }

    /// The ledger is well formed: no address is stored twice, and every
    /// record is stored where its terms derive it.
    pub open spec fn wf(&self) -> bool {
        self.keys_distinct() && self@.records_derived()
    }

    /// An empty ledger for the program `program_id`, at time zero.
    pub fn new(program_id: Address, rent: Rent) -> (ledger: Ledger)
        ensures
            ledger.wf(),
            ledger@.program_id == program_id,
            ledger@.rent == rent,
            ledger@.unix_timestamp == 0,
            ledger@.accounts == Map::<Address, Account>::empty(),
    {
        let ledger = Ledger { program_id, rent, unix_timestamp: 0, entries: Vec::new() };
        assert(ledger@.accounts =~= Map::<Address, Account>::empty());
        ledger
    }

    /// The program that the ledger runs.
    pub fn program_id(&self) -> (id: Address)
        ensures
            id == self@.program_id,
    {
        self.program_id
    }

    /// The storage deposits.
    pub fn rent(&self) -> (rent: Rent)
        ensures
            rent == self@.rent,
    {
        self.rent
    }

    /// The ledger's clock.
    pub fn unix_timestamp(&self) -> (now: i64)
        ensures
            now == self@.unix_timestamp,
    {
        self.unix_timestamp
    }

    /// Sets the ledger's clock.
    pub fn set_unix_timestamp(&mut self, now: i64)
        ensures
            final(self)@ == old(self)@.at_time(now),
            old(self).wf() ==> final(self).wf(),
    {
        self.unix_timestamp = now;
        proof {
            if old(self).wf() {
                lemma_clock_keeps_records(old(self)@, now);
            }
        }
    }

    fn position(&self, key: &Address) -> (r: Option<usize>)
        ensures
            match r {
                Some(i) => i < self.entries@.len() && self.entries@[i as int].key == *key,
                None => !has_key(self.entries@, *key),
            },
    {
        let mut i: usize = 0;
        while i < self.entries.len()
            invariant
                0 <= i <= self.entries@.len(),
                forall|j: int| 0 <= j < i ==> (#[trigger] self.entries@[j]).key != *key,
            decreases self.entries@.len() - i,
        {
            if self.entries[i].key.same(key) {
                return Some(i);
            }
            i += 1;
        }
        None
    }

    /// The account stored at `key`, if there is one.
    pub fn account(&self, key: &Address) -> (r: Option<Account>)
        requires
            self.keys_distinct(),
        ensures
            r == if self@.accounts.contains_key(*key) {
                Some(self@.accounts[*key])
            } else {
                None
            },
    {
        match self.position(key) {
            Some(i) => {
                proof {
                    lemma_entry_found(self.entries@, i as int);
                }
                Some(self.entries[i].account)
            },
            None => None,
        }
    }

    /// Gives the wallet at `key` a native balance: creates it with
    /// `lamports`, or adds `lamports` to it.
    pub fn fund(&mut self, key: Address, lamports: u64) -> (r: Result<(), AccountError>)
        requires
            old(self).wf(),
        ensures
            final(self).wf(),
            match r {
                Ok(()) => fund_outcome(old(self)@, key, lamports) == Ok::<LedgerState, AccountError>(
                    final(self)@,
                ),
                Err(e) => fund_outcome(old(self)@, key, lamports) == Err::<LedgerState, AccountError>(e)
                    && final(self)@ == old(self)@,
            },
    {
        let balance = match self.account(&key) {
            None => lamports,
            Some(account) => {
                match account.data {
                    AccountData::Wallet => {},
                    _ => {
                        return Err(AccountError::AccountInUse);
                    },
                }
                if account.lamports > u64::MAX - lamports {
                    return Err(AccountError::Overflow);
                }
                account.lamports + lamports
            },
        };
        let account = Account { lamports: balance, data: AccountData::Wallet };
        proof {
            lemma_plain_account_keeps_records(self@, key, account);
        }
        self.put(key, account);
        Ok(())
    }

    /// Creates the holding account `holding` at `key`, with the storage
    /// deposit of a holding account as its native balance.
    pub fn create_token_account(&mut self, key: Address, holding: TokenAccount) -> (r: Result<
        (),
        AccountError,
    >)
        requires
            old(self).wf(),
        ensures
            final(self).wf(),
            match r {
                Ok(()) => create_token_account_outcome(old(self)@, key, holding) == Ok::<
                    LedgerState,
                    AccountError,
                >(final(self)@),
                Err(e) => create_token_account_outcome(old(self)@, key, holding) == Err::<
                    LedgerState,
                    AccountError,
                >(e) && final(self)@ == old(self)@,
            },
    {
        if self.account(&key).is_some() {
            return Err(AccountError::AccountInUse);
        }
        let account = Account { lamports: self.rent.holding, data: AccountData::Holding(holding) };
        proof {
            lemma_plain_account_keeps_records(self@, key, account);
        }
        self.put(key, account);
        Ok(())
    }

    /// Stores `account` at `key`, in place of what was there.
    pub(crate) fn put(&mut self, key: Address, account: Account)
        requires
            old(self).keys_distinct(),
        ensures
            final(self).keys_distinct(),
            final(self)@ == old(self)@.with_account(key, account),
    {
        match self.position(&key) {
            Some(i) => {
                proof {
                    lemma_updated(self.entries@, i as int, account);
                }
                self.entries.set(i, Entry { key, account });
            },
            None => {
                proof {
                    lemma_pushed(self.entries@, key, account);
                }
                self.entries.push(Entry { key, account });
            },
        }
    }

    /// Removes what is stored at `key`.
    pub(crate) fn take(&mut self, key: &Address)
        requires
            old(self).keys_distinct(),
        ensures
            final(self).keys_distinct(),
            final(self)@ == old(self)@.without_account(*key),
    {
        match self.position(key) {
            Some(i) => {
                proof {
                    lemma_removed(self.entries@, i as int);
                }
                self.entries.remove(i);
            },
            None => {
                assert(accounts_of(self.entries@).remove(*key) =~= accounts_of(self.entries@));
            },
        }
    }
}

} // verus!
