//! User accounts and the in-memory account store.
//!
//! An account holds a fiat balance in cents and one crypto balance per
//! catalog asset, in millionths of a unit; the store keys accounts by their
//! unique national ID.  Balances are unsigned, so they are nonnegative by
//! construction in every reachable state.

use vstd::prelude::*;
use crate::catalog::Catalog;

verus! {

/// One crypto balance line: `amount` millionths of a unit of `symbol`.
#[derive(Debug, Clone)]
pub struct AssetBalance {
    pub symbol: String,
    pub amount: u64,
}

/// A registered user.  `validated` gates every debit-type operation.
#[derive(Debug, Clone)]
pub struct Account {
    pub id: String,
    pub name: String,
    pub surname: String,
    pub email: String,
    pub validated: bool,
    pub fiat_balance: u64,
    pub crypto_balances: Vec<AssetBalance>,
}

impl Account {
    /// The balance lines mirror the catalog entries, one per asset and in
    /// catalog order.
    pub open spec fn wf(self, catalog: Catalog) -> bool {
        &&& self.crypto_balances@.len() == catalog.assets@.len()
        &&& forall|i: int|
            0 <= i < catalog.assets@.len() ==> #[trigger] self.crypto_balances@[i].symbol@
                == catalog.assets@[i].symbol@
    }

    /// Crypto balance held in `sym`, read through the catalog position.
    pub open spec fn spec_crypto(self, catalog: Catalog, sym: Seq<char>) -> int {
        self.crypto_balances@[catalog.spec_index_of(sym)].amount as int
    }

    /// A fresh, unvalidated account with zero fiat and one zero balance per
    /// catalog asset.
    pub fn new(name: String, surname: String, email: String, id: String, catalog: &Catalog) -> (a:
        Account)
        ensures
            a.wf(*catalog),
            a.id == id,
            a.name == name,
            a.surname == surname,
            a.email == email,
            !a.validated,
            a.fiat_balance == 0,
            forall|i: int|
                0 <= i < a.crypto_balances@.len() ==> #[trigger] a.crypto_balances@[i].amount == 0,
    {
        let mut crypto_balances: Vec<AssetBalance> = Vec::new();
        let mut i: usize = 0;
        while i < catalog.assets.len()
            invariant
                0 <= i <= catalog.assets@.len(),
                crypto_balances@.len() == i,
                forall|j: int|
                    0 <= j < i ==> #[trigger] crypto_balances@[j].symbol@
                        == catalog.assets@[j].symbol@,
                forall|j: int| 0 <= j < i ==> #[trigger] crypto_balances@[j].amount == 0,
            decreases catalog.assets@.len() - i,
        {
            crypto_balances.push(
                AssetBalance { symbol: catalog.assets[i].symbol.clone(), amount: 0 },
            );
            i = i + 1;
        }
        Account { id, name, surname, email, validated: false, fiat_balance: 0, crypto_balances }
    }

    /// Whether the account's identity has been confirmed.
    pub fn is_validated(&self) -> (r: bool)
        ensures
            r == self.validated,
    {
        self.validated
    }

    /// The balance line for `symbol`, if the account tracks that asset.
    pub fn crypto_balance_of(&self, symbol: &String) -> (r: Option<u64>)
        ensures
            match r {
                Some(v) => exists|i: int|
                    0 <= i < self.crypto_balances@.len() && #[trigger] self.crypto_balances@[i].symbol@
                        == symbol@ && self.crypto_balances@[i].amount == v,
                None => forall|i: int|
                    0 <= i < self.crypto_balances@.len() ==> #[trigger] self.crypto_balances@[i].symbol@
                        != symbol@,
            },
    {
        let mut i: usize = 0;
        while i < self.crypto_balances.len()
            invariant
                0 <= i <= self.crypto_balances@.len(),
                forall|j: int|
                    0 <= j < i ==> #[trigger] self.crypto_balances@[j].symbol@ != symbol@,
            decreases self.crypto_balances@.len() - i,
        {
            if self.crypto_balances[i].symbol == *symbol {
                return Some(self.crypto_balances[i].amount);
            }
            i = i + 1;
        }
        None
    }
}

/// In-memory collection of accounts, keyed by unique ID.
#[derive(Debug, Clone)]
pub struct AccountStore {
    pub accounts: Vec<Account>,
}

/// `accounts` holds an entry whose ID reads `id`.
pub open spec fn contains_id(accounts: Seq<Account>, id: Seq<char>) -> bool {
    exists|i: int| 0 <= i < accounts.len() && accounts[i].id@ == id
}

/// Index of the account with ID `id`; well defined when IDs are unique and
/// the ID is present.
pub open spec fn spec_account_index(accounts: Seq<Account>, id: Seq<char>) -> int {
    choose|i: int| 0 <= i < accounts.len() && accounts[i].id@ == id
}

/// The account with ID `id`.
pub open spec fn spec_account(accounts: Seq<Account>, id: Seq<char>) -> Account {
    accounts[spec_account_index(accounts, id)]
}

impl AccountStore {
    /// IDs are pairwise distinct and every account mirrors the catalog.
    pub open spec fn wf(self, catalog: Catalog) -> bool {
        &&& forall|i: int, j: int|
            0 <= i < j < self.accounts@.len() ==> self.accounts@[i].id@ != self.accounts@[j].id@
        &&& forall|i: int|
            0 <= i < self.accounts@.len() ==> #[trigger] self.accounts@[i].wf(catalog)
    }

    pub proof fn lemma_account_index_unique(self, id: Seq<char>, i: int)
        requires
            forall|p: int, q: int|
                0 <= p < q < self.accounts@.len() ==> self.accounts@[p].id@
                    != self.accounts@[q].id@,
            0 <= i < self.accounts@.len(),
            self.accounts@[i].id@ == id,
        ensures
            spec_account_index(self.accounts@, id) == i,
            spec_account(self.accounts@, id) == self.accounts@[i],
    {
        let k = spec_account_index(self.accounts@, id);
        assert(0 <= k < self.accounts@.len() && self.accounts@[k].id@ == id);
        if k < i {
            assert(self.accounts@[k].id@ != self.accounts@[i].id@);
        } else if i < k {
            assert(self.accounts@[i].id@ != self.accounts@[k].id@);
        }
    }

    /// Replacing one account by another under the same ID, with the balance
    /// lines still mirroring the catalog, keeps the store well formed.
    pub proof fn lemma_wf_update(pre: Self, post: Self, catalog: Catalog, i: int, a: Account)
        requires
            pre.wf(catalog),
            0 <= i < pre.accounts@.len(),
            post.accounts@ == pre.accounts@.update(i, a),
            a.id@ == pre.accounts@[i].id@,
            a.wf(catalog),
        ensures
            post.wf(catalog),
    {
        assert forall|p: int, q: int| 0 <= p < q < post.accounts@.len() implies post.accounts@[p].id@
            != post.accounts@[q].id@ by {
            assert(pre.accounts@[p].id@ != pre.accounts@[q].id@);
        }
        assert forall|k: int| 0 <= k < post.accounts@.len() implies #[trigger] post.accounts@[k].wf(
            catalog,
        ) by {
            if k != i {
                assert(post.accounts@[k] == pre.accounts@[k]);
                assert(pre.accounts@[k].wf(catalog));
            }
        }
    }

    pub fn new() -> (s: AccountStore)
        ensures
            s.accounts@.len() == 0,
    {
        AccountStore { accounts: Vec::new() }
    }

    /// Position of the account with ID `id`, if registered.
    pub fn find_index(&self, id: &String) -> (r: Option<usize>)
        ensures
            match r {
                Some(i) => i < self.accounts@.len() && self.accounts@[i as int].id@ == id@
                    && forall|j: int| 0 <= j < i ==> self.accounts@[j].id@ != id@,
                None => !contains_id(self.accounts@, id@),
            },
    {
        let mut i: usize = 0;
        while i < self.accounts.len()
            invariant
                0 <= i <= self.accounts@.len(),
                forall|j: int| 0 <= j < i ==> self.accounts@[j].id@ != id@,
            decreases self.accounts@.len() - i,
        {
            if self.accounts[i].id == *id {
                return Some(i);
            }
            i = i + 1;
        }
        None
    }

    /// The account registered under `id`, if any.
    pub fn find(&self, id: &String) -> (r: Option<&Account>)
        requires
            forall|p: int, q: int|
                0 <= p < q < self.accounts@.len() ==> self.accounts@[p].id@
                    != self.accounts@[q].id@,
        ensures
            match r {
                Some(a) => contains_id(self.accounts@, id@) && *a == spec_account(
                    self.accounts@,
                    id@,
                ),
                None => !contains_id(self.accounts@, id@),
            },
    {
        match self.find_index(id) {
            Some(i) => {
                proof {
                    self.lemma_account_index_unique(id@, i as int);
                }
                Some(&self.accounts[i])
            },
            None => None,
        }
    }

    /// Registers `account`; a second account under the same ID is refused
    /// and the store is left unchanged.
    pub fn create(&mut self, account: Account) -> (r: Result<(), crate::ledger::LedgerError>)
        ensures
            r is Ok <==> !contains_id(old(self).accounts@, account.id@),
            r is Ok ==> final (self).accounts@ == old(self).accounts@.push(account),
            r is Err ==> r == Err::<(), crate::ledger::LedgerError>(
                crate::ledger::LedgerError::DuplicateAccount,
            ) && *final (self) == *old(self),
    {
        match self.find_index(&account.id) {
            Some(_) => Err(crate::ledger::LedgerError::DuplicateAccount),
            None => {
                self.accounts.push(account);
                Ok(())
            },
        }
    }

    /// Confirms the identity behind `id`; reports whether the account was
    /// found.
    pub fn mark_validated(&mut self, id: &String) -> (r: bool)
        ensures
            r == contains_id(old(self).accounts@, id@),
            r ==> exists|i: int|
                0 <= i < old(self).accounts@.len() && old(self).accounts@[i].id@ == id@
                    && final (self).accounts@ == old(self).accounts@.update(
                    i,
                    (Account { validated: true, ..old(self).accounts@[i] }),
                ),
            !r ==> *final (self) == *old(self),
    {
        match self.find_index(id) {
            Some(i) => {
                let mut a = self.accounts.remove(i);
                a.validated = true;
                self.accounts.insert(i, a);
                assert(self.accounts@ =~= old(self).accounts@.update(
                    i as int,
                    (Account { validated: true, ..old(self).accounts@[i as int] }),
                ));
                true
            },
            None => false,
        }
    }
}

} // verus!
