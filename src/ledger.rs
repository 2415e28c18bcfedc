use anchor_lang::prelude::Rent;
use vstd::prelude::*;

use crate::error::VotingError;
use crate::state::{Candidate, CandidateView, Poll, PollView};

verus! {

/// Largest data an account may be given.
pub const MAX_PERMITTED_DATA_LENGTH: usize = 10485760;

/// Lamports that keep an account of `space` data bytes exempt from rent
/// under the default rent: 3480 lamports a byte-year, over 128 bytes of
/// overhead and the data, held for two years.
pub open spec fn rent_for(space: nat) -> nat {
    (128 + space) * 6960
}

/// Relies on `Rent::minimum_balance` of `Rent::default()`, which computes
/// `((128 + data_len) * 3480) as f64 * 2.0`: for every admitted length the
/// product stays far below 2^53, so the float steps are exact.
#[verifier::external_body]
fn rent_exempt_minimum(data_len: usize) -> (r: u64)
    requires
        data_len <= MAX_PERMITTED_DATA_LENGTH,
    ensures
        r == rent_for(data_len as nat),
{
    Rent::default().minimum_balance(data_len)
}

/// What an account holds.
#[derive(Clone, Debug)]
pub enum AccountData {
    /// A payer's account, holding lamports only.
    Wallet,
    Poll(Poll),
    Candidate(Candidate),
}

pub enum AccountDataView {
    Wallet,
    Poll(PollView),
    Candidate(CandidateView),
}

impl View for AccountData {
    type V = AccountDataView;

    open spec fn view(&self) -> AccountDataView {
        match self {
            AccountData::Wallet => AccountDataView::Wallet,
            AccountData::Poll(p) => AccountDataView::Poll(p@),
            AccountData::Candidate(c) => AccountDataView::Candidate(c@),
        }
    }
}

/// An account of the ledger: its address, balance, allocated size and data.
#[derive(Clone, Debug)]
pub struct Account {
    pub address: [u8; 32],
    pub lamports: u64,
    pub space: usize,
    pub data: AccountData,
}

pub struct AccountView {
    pub lamports: u64,
    pub space: nat,
    pub data: AccountDataView,
}

impl View for Account {
    type V = AccountView;

    open spec fn view(&self) -> AccountView {
        AccountView { lamports: self.lamports, space: self.space as nat, data: self.data@ }
    }
}

/// The accounts of a program, each at its own address.
pub struct Ledger {
    program_id: [u8; 32],
    accounts: Vec<Account>,
}

/// A ledger as the program id and a map from address to account.
pub struct LedgerView {
    pub program_id: Seq<u8>,
    pub accounts: Map<Seq<u8>, AccountView>,
}

/// The map from address to account that a list of accounts makes.
pub open spec fn accounts_map(s: Seq<Account>) -> Map<Seq<u8>, AccountView>
    decreases s.len(),
{
    if s.len() == 0 {
        Map::empty()
    } else {
        accounts_map(s.drop_last()).insert(s.last().address@, s.last()@)
    }
}

/// No two accounts of the list share an address.
pub open spec fn unique_addresses(s: Seq<Account>) -> bool {
    forall|i: int, j: int|
        0 <= i < s.len() && 0 <= j < s.len() && i != j ==> s[i].address@ != s[j].address@
}

proof fn lemma_map_holds(s: Seq<Account>, i: int)
    requires
        unique_addresses(s),
        0 <= i < s.len(),
    ensures
        accounts_map(s).contains_key(s[i].address@),
        accounts_map(s)[s[i].address@] == s[i]@,
    decreases s.len(),
{
    if i < s.len() - 1 {
        lemma_map_holds(s.drop_last(), i);
    }
}

proof fn lemma_map_lacks(s: Seq<Account>, a: Seq<u8>)
    requires
        forall|i: int| 0 <= i < s.len() ==> s[i].address@ != a,
    ensures
        !accounts_map(s).contains_key(a),
    decreases s.len(),
{
    if s.len() > 0 {
        lemma_map_lacks(s.drop_last(), a);
    }
}

proof fn lemma_map_update(s: Seq<Account>, i: int, x: Account)
    requires
        unique_addresses(s),
        0 <= i < s.len(),
        x.address@ == s[i].address@,
    ensures
        accounts_map(s.update(i, x)) == accounts_map(s).insert(x.address@, x@),
    decreases s.len(),
{
    let t = s.update(i, x);
    if i == s.len() - 1 {
        assert(t.drop_last() =~= s.drop_last());
        assert(accounts_map(t) =~= accounts_map(s).insert(x.address@, x@));
    } else {
        assert(t.drop_last() =~= s.drop_last().update(i, x));
        lemma_map_update(s.drop_last(), i, x);
        assert(s.last().address@ != x.address@);
        assert(accounts_map(t) =~= accounts_map(s).insert(x.address@, x@));
    }
}

/// The ledger after `allocate` has created an account of `space` bytes at
/// `address`, paid for by `payer`, and what it returned.
pub open spec fn allocate_outcome(
    l: LedgerView,
    payer: Seq<u8>,
    address: Seq<u8>,
    space: nat,
    data: AccountDataView,
) -> (LedgerView, Result<(), VotingError>) {
    if l.accounts.contains_key(address) {
        (l, Err(VotingError::AddressAlreadyOccupied))
    } else if !l.accounts.contains_key(payer) || l.accounts[payer].lamports < rent_for(space) {
        (l, Err(VotingError::InsufficientFunds))
    } else {
        let p = l.accounts[payer];
        let debited = AccountView { lamports: (p.lamports - rent_for(space)) as u64, space: p.space, data: p.data };
        let created = AccountView { lamports: rent_for(space) as u64, space, data };
        (LedgerView { program_id: l.program_id, accounts: l.accounts.insert(payer, debited).insert(address, created) }, Ok(()))
    }
}

impl View for Ledger {
    type V = LedgerView;

    closed spec fn view(&self) -> LedgerView {
        LedgerView { program_id: self.program_id@, accounts: accounts_map(self.accounts@) }
    }
}

impl Ledger {
    /// The ledger's accounts sit at distinct addresses.
    pub closed spec fn wf(&self) -> bool {
        unique_addresses(self.accounts@)
    }

    /// An empty ledger of the program `program_id`.
    pub fn new(program_id: [u8; 32]) -> (r: Ledger)
        ensures
            r.wf(),
            r@.program_id == program_id@,
            r@.accounts == Map::<Seq<u8>, AccountView>::empty(),
    {
        Ledger { program_id, accounts: Vec::new() }
    }

    /// The id of the program that owns the ledger's records.
    pub fn program_id(&self) -> (r: [u8; 32])
        ensures
            r@ == self@.program_id,
    {
        self.program_id
    }

    /// Where the account at `address` stands in the list, if anywhere.
    fn find(&self, address: &[u8; 32]) -> (r: Option<usize>)
        requires
            self.wf(),
        ensures
            match r {
                Some(i) => i < self.accounts@.len() && self.accounts@[i as int].address@ == address@,
                None => !self@.accounts.contains_key(address@),
            },
            r is Some <==> self@.accounts.contains_key(address@),
    {
        let mut i: usize = 0;
        while i < self.accounts.len()
            invariant
                self.wf(),
                i <= self.accounts@.len(),
                forall|j: int| 0 <= j < i ==> self.accounts@[j].address@ != address@,
            decreases self.accounts@.len() - i,
        {
            if same_address(&self.accounts[i].address, address) {
                proof {
                    lemma_map_holds(self.accounts@, i as int);
                }
                return Some(i);
            }
            i = i + 1;
        }
        proof {
            lemma_map_lacks(self.accounts@, address@);
        }
        None
    }

    /// The account at `address`, if there is one.
    pub fn account(&self, address: &[u8; 32]) -> (r: Option<&Account>)
        requires
            self.wf(),
        ensures
            match r {
                Some(a) => self@.accounts.contains_key(address@) && self@.accounts[address@] == a@
                    && a.address@ == address@,
                None => !self@.accounts.contains_key(address@),
            },
    {
        match self.find(address) {
            Some(i) => {
                proof {
                    lemma_map_holds(self.accounts@, i as int);
                }
                Some(&self.accounts[i])
            },
            None => None,
        }
    }

    /// Opens a payer's account at `address` holding `lamports`, or fails with
    /// `AddressAlreadyOccupied` when an account is there already.
    pub fn open_wallet(&mut self, address: [u8; 32], lamports: u64) -> (r: Result<(), VotingError>)
        requires
            old(self).wf(),
        ensures
            final(self).wf(),
            final(self)@.program_id == old(self)@.program_id,
            old(self)@.accounts.contains_key(address@) ==> r == Err::<(), VotingError>(
                VotingError::AddressAlreadyOccupied,
            ) && final(self)@ == old(self)@,
            !old(self)@.accounts.contains_key(address@) ==> r is Ok && final(self)@.accounts
                == old(self)@.accounts.insert(
                address@,
                AccountView { lamports, space: 0, data: AccountDataView::Wallet },
            ),
    {
        if self.find(&address).is_some() {
            return Err(VotingError::AddressAlreadyOccupied);
        }
        self.push_new(Account { address, lamports, space: 0, data: AccountData::Wallet });
        Ok(())
    }

    /// Appends an account at an address that no account holds yet.
    fn push_new(&mut self, account: Account)
        requires
            old(self).wf(),
            !old(self)@.accounts.contains_key(account.address@),
        ensures
            final(self).wf(),
            final(self)@.program_id == old(self)@.program_id,
            final(self)@.accounts == old(self)@.accounts.insert(account.address@, account@),
    {
        proof {
            assert forall|j: int| 0 <= j < self.accounts@.len() implies self.accounts@[j].address@
                != account.address@ by {
                lemma_map_holds(self.accounts@, j);
            }
        }
        let ghost before = self.accounts@;
        self.accounts.push(account);
        proof {
            assert(self.accounts@.drop_last() =~= before);
        }
    }

    /// Creates an account of `space` bytes holding `data` at `address`, with
    /// the rent-exempt minimum moved to it from `payer`. Fails with
    /// `AddressAlreadyOccupied` when `address` holds an account, else with
    /// `InsufficientFunds` when `payer` holds no account or too few lamports.
    pub(crate) fn allocate(&mut self, payer: &[u8; 32], address: [u8; 32], space: usize, data: AccountData) -> (r: Result<(), VotingError>)
        requires
            old(self).wf(),
            space <= MAX_PERMITTED_DATA_LENGTH,
        ensures
            final(self).wf(),
            (final(self)@, r) == allocate_outcome(old(self)@, payer@, address@, space as nat, data@),
    {
        if self.find(&address).is_some() {
            return Err(VotingError::AddressAlreadyOccupied);
        }
        let cost = rent_exempt_minimum(space);
        let i = match self.find(payer) {
            Some(i) => i,
            None => {
                return Err(VotingError::InsufficientFunds);
            },
        };
        proof {
            lemma_map_holds(self.accounts@, i as int);
        }
        if self.accounts[i].lamports < cost {
            return Err(VotingError::InsufficientFunds);
        }
        let ghost before = self.accounts@;
        let mut p = self.accounts.remove(i);
        p.lamports = p.lamports - cost;
        self.accounts.insert(i, p);
        proof {
            assert(self.accounts@ =~= before.update(i as int, p));
            lemma_map_update(before, i as int, p);
        }
        self.push_new(Account { address, lamports: cost, space, data });
        Ok(())
    }
}

/// Whether two addresses are the same.
fn same_address(a: &[u8; 32], b: &[u8; 32]) -> (r: bool)
    ensures
        r == (a@ == b@),
{
    let mut i: usize = 0;
    while i < 32
        invariant
            i <= 32,
            forall|j: int| 0 <= j < i ==> a@[j] == b@[j],
        decreases 32 - i,
    {
        if a[i] != b[i] {
            return false;
        }
        i = i + 1;
    }
    assert(a@ =~= b@);
    true
}

} // verus!
