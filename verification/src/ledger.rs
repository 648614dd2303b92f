//! The ledger engine: validates and executes operations against the account
//! store and the asset catalog, and appends one immutable transaction record
//! per successful operation.
//!
//! Every operation evaluates all its checks before any mutation; a refused
//! operation leaves the ledger exactly as it was.  The order of checks is
//! network compatibility (where one applies), then account existence, then
//! identity validation, then balance sufficiency.

use vstd::prelude::*;
use vstd::string::StringExecFns;
use crate::account::{Account, AccountStore, AssetBalance, contains_id, spec_account,
    spec_account_index};
use crate::catalog::{Catalog, CRYPTO_UNIT, Network, has_network};
use crate::fecha::Fecha;
use crate::texto::dec_nat;
use crate::transaction::{Transaction, WithdrawalMedium};

verus! {

/// Why an operation was refused.  The first five are business-rule refusals
/// and never change state; `PersistenceFailure` reports a snapshot write that
/// failed after the in-memory mutation had already taken effect.
#[derive(Debug, Clone, Copy, PartialEq, Eq, Structural)]
pub enum LedgerError {
    AccountNotFound,
    NotValidated,
    InsufficientBalance,
    IncompatibleNetwork,
    DuplicateAccount,
    PersistenceFailure,
}

/// Millionths of a unit bought with `amount` fiat cents at `price` cents per
/// unit, rounded down.
pub open spec fn buy_credit(amount: int, price: int) -> int {
    amount * CRYPTO_UNIT as int / price
}

/// Fiat cents received for `amount` millionths of a unit at `price` cents
/// per unit, rounded down.
pub open spec fn sell_proceeds(amount: int, price: int) -> int {
    amount * price / CRYPTO_UNIT as int
}

/// `b` is `a` with at most the two balance fields changed.
pub open spec fn same_account_except_balances(a: Account, b: Account) -> bool {
    &&& b.id == a.id
    &&& b.name == a.name
    &&& b.surname == a.surname
    &&& b.email == a.email
    &&& b.validated == a.validated
}

/// `b` is `a` with line `j` set to `amount` (same symbol), all others kept.
pub open spec fn crypto_line_updated(
    a: Seq<AssetBalance>,
    b: Seq<AssetBalance>,
    j: int,
    amount: int,
) -> bool {
    &&& b.len() == a.len()
    &&& forall|k: int| 0 <= k < a.len() && k != j ==> b[k] == a[k]
    &&& b[j].symbol == a[j].symbol
    &&& b[j].amount == amount
}

/// All accounts other than the one at `i` are kept as they were.
pub open spec fn others_kept(a: Seq<Account>, b: Seq<Account>, i: int) -> bool {
    &&& b.len() == a.len()
    &&& forall|k: int| 0 <= k < a.len() && k != i ==> b[k] == a[k]
}

pub open spec fn is_deposit_record(t: Transaction, id: Seq<char>, amount: u64) -> bool {
    &&& t matches (Transaction::Deposit { account, date, amount: am }) && account@ == id && am
        == amount && date.es_valida()
}

pub open spec fn is_withdraw_record(
    t: Transaction,
    id: Seq<char>,
    amount: u64,
    medium: WithdrawalMedium,
) -> bool {
    &&& t matches (Transaction::Withdraw { account, date, amount: am, medium: me }) && account@
        == id && am == amount && me == medium && date.es_valida()
}

pub open spec fn is_buy_record(
    t: Transaction,
    id: Seq<char>,
    sym: Seq<char>,
    amount: u64,
    price: int,
) -> bool {
    &&& t matches (Transaction::Buy { account, date, asset, amount: am, price: p }) && account@
        == id && asset@ == sym && am == amount && p == price && date.es_valida()
}

pub open spec fn is_sell_record(
    t: Transaction,
    id: Seq<char>,
    sym: Seq<char>,
    amount: u64,
    price: int,
) -> bool {
    &&& t matches (Transaction::Sell { account, date, asset, amount: am, price: p }) && account@
        == id && asset@ == sym && am == amount && p == price && date.es_valida()
}

pub open spec fn is_network_withdraw_record(
    t: Transaction,
    id: Seq<char>,
    sym: Seq<char>,
    net: Seq<char>,
    amount: u64,
    price: int,
) -> bool {
    &&& t matches (Transaction::NetworkWithdraw {
        account,
        date,
        asset,
        network,
        amount: am,
        price: p,
        reference,
    }) && account@ == id && asset@ == sym && network@ == net && am == amount && p == price
        && date.es_valida() && (exists|n: u16| reference@ == net + dec_nat(n as int))
}

pub open spec fn is_network_deposit_record(
    t: Transaction,
    id: Seq<char>,
    sym: Seq<char>,
    net: Seq<char>,
    amount: u64,
    price: int,
) -> bool {
    &&& t matches (Transaction::NetworkDeposit {
        account,
        date,
        asset,
        network,
        amount: am,
        price: p,
    }) && account@ == id && asset@ == sym && network@ == net && am == amount && p == price
        && date.es_valida()
}

/// Relies on rand 0.8's thread-local generator; nothing is assumed of the
/// value drawn.
pub assume_specification<T>[ rand::random::<T> ]() -> (r: T)
    where rand::distributions::Standard: rand::distributions::Distribution<T>
;

/// Relies on chrono's `Local::now` and the `Datelike` accessors `day`,
/// `month` and `year`: the clock always reads an existing calendar date.
#[verifier::external_body]
fn current_date() -> (f: Fecha)
    ensures
        f.es_valida(),
{
    let now = chrono::Local::now();
    Fecha { dia: chrono::Datelike::day(&now), mes: chrono::Datelike::month(&now), anio:
        chrono::Datelike::year(&now) }
}

/// The simulated exchange: catalog, account store and append-only log.
#[derive(Debug)]
pub struct Ledger {
    pub catalog: Catalog,
    pub store: AccountStore,
    pub log: Vec<Transaction>,
}

impl Ledger {
    pub open spec fn wf(self) -> bool {
        &&& self.catalog.wf()
        &&& self.store.wf(self.catalog)
    }

    /// Account registered under `id`.
    pub open spec fn spec_has_account(self, id: Seq<char>) -> bool {
        contains_id(self.store.accounts@, id)
    }

    /// The account registered under `id`.
    pub open spec fn spec_account_of(self, id: Seq<char>) -> Account {
        spec_account(self.store.accounts@, id)
    }

    /// Fiat balance of the account under `id`, in cents.
    pub open spec fn spec_fiat_of(self, id: Seq<char>) -> int {
        self.spec_account_of(id).fiat_balance as int
    }

    /// Crypto balance of the account under `id` in asset `sym`, in
    /// millionths of a unit.
    pub open spec fn spec_crypto_of(self, id: Seq<char>, sym: Seq<char>) -> int {
        self.spec_account_of(id).spec_crypto(self.catalog, sym)
    }

    /// The log grew by exactly the one record `t`.
    pub open spec fn log_appended(pre: Ledger, post: Ledger) -> bool {
        &&& post.log@.len() == pre.log@.len() + 1
        &&& post.log@.subrange(0, pre.log@.len() as int) == pre.log@
    }

    /// A fresh ledger over `catalog`: no accounts, empty log.
    pub fn new(catalog: Catalog) -> (l: Ledger)
        requires
            catalog.wf(),
        ensures
            l.wf(),
            l.catalog == catalog,
            l.store.accounts@.len() == 0,
            l.log@.len() == 0,
    {
        Ledger { catalog, store: AccountStore::new(), log: Vec::new() }
    }

    pub fn accounts(&self) -> (r: &Vec<Account>)
        ensures
            r == &self.store.accounts,
    {
        &self.store.accounts
    }

    pub fn transactions(&self) -> (r: &Vec<Transaction>)
        ensures
            r == &self.log,
    {
        &self.log
    }

    /// Registers a new account under `id` with zero balances; a duplicate ID
    /// is refused and nothing changes, the first account's data included.
    pub fn register(&mut self, name: String, surname: String, email: String, id: String) -> (r:
        Result<(), LedgerError>)
        requires
            old(self).wf(),
        ensures
            final (self).wf(),
            final (self).catalog == old(self).catalog,
            final (self).log == old(self).log,
            r is Ok <==> !old(self).spec_has_account(id@),
            r is Err ==> r == Err::<(), LedgerError>(LedgerError::DuplicateAccount) && *final (self)
                == *old(self),
            r is Ok ==> final (self).store.accounts@.len() == old(self).store.accounts@.len() + 1
                && final (self).store.accounts@.subrange(
                0,
                old(self).store.accounts@.len() as int,
            ) == old(self).store.accounts@,
            r is Ok ==> final (self).spec_has_account(id@) && final (self).spec_account_of(id@).id@
                == id@ && final (self).spec_account_of(id@).name == name && final (
            self).spec_account_of(id@).surname == surname && final (self).spec_account_of(id@).email
                == email && !final (self).spec_account_of(id@).validated && final (
            self).spec_fiat_of(id@) == 0 && forall|i: int|
                0 <= i < old(self).catalog.assets@.len() ==> final (self).spec_crypto_of(
                    id@,
                    #[trigger] old(self).catalog.assets@[i].symbol@,
                ) == 0,
    {
        let account = Account::new(name, surname, email, id, &self.catalog);
        let ghost pre = *self;
        let r = self.store.create(account);
        proof {
            if r is Ok {
                let n = pre.store.accounts@.len() as int;
                assert(self.store.accounts@.subrange(0, n) =~= pre.store.accounts@);
                self.store.lemma_account_index_unique(account.id@, n);
                assert forall|i: int| 0 <= i < pre.catalog.assets@.len() implies self.spec_crypto_of(
                    account.id@,
                    #[trigger] pre.catalog.assets@[i].symbol@,
                ) == 0 by {
                    pre.catalog.lemma_index_unique(pre.catalog.assets@[i].symbol@, i);
                }
            }
        }
        r
    }

    /// Confirms the identity behind `id`; reports whether the account was
    /// found.  No log entry is written.
    pub fn mark_validated(&mut self, id: &String) -> (r: bool)
        requires
            old(self).wf(),
        ensures
            final (self).wf(),
            final (self).catalog == old(self).catalog,
            final (self).log == old(self).log,
            r == old(self).spec_has_account(id@),
            !r ==> *final (self) == *old(self),
            r ==> final (self).spec_has_account(id@) && others_kept(
                old(self).store.accounts@,
                final (self).store.accounts@,
                spec_account_index(old(self).store.accounts@, id@),
            ) && final (self).spec_account_of(id@) == (Account {
                validated: true,
                ..old(self).spec_account_of(id@)
            }),
    {
        let ghost pre = *self;
        match self.store.find_index(id) {
            Some(i) => {
                proof {
                    pre.store.lemma_account_index_unique(id@, i as int);
                }
                let mut a = self.store.accounts.remove(i);
                a.validated = true;
                self.store.accounts.insert(i, a);
                proof {
                    assert(self.store.accounts@ =~= pre.store.accounts@.update(
                        i as int,
                        (Account { validated: true, ..pre.store.accounts@[i as int] }),
                    ));
                    assert(pre.store.accounts@[i as int].wf(pre.catalog));
                    assert(self.store.accounts@[i as int].wf(pre.catalog));
                    AccountStore::lemma_wf_update(
                        pre.store,
                        self.store,
                        pre.catalog,
                        i as int,
                        self.store.accounts@[i as int],
                    );
                    self.store.lemma_account_index_unique(id@, i as int);
                }
                true
            },
            None => false,
        }
    }

    /// Overflow guard for [`Self::deposit_fiat`]: the credited balance must
    /// still fit the fixed-point representation.
    pub open spec fn fits_deposit(self, id: Seq<char>, amount: u64) -> bool {
        self.spec_has_account(id) ==> self.spec_fiat_of(id) + amount <= u64::MAX
    }

    /// Credits `amount` fiat cents.  The account must exist; no validation
    /// is required for incoming money.
    pub fn deposit_fiat(&mut self, id: &String, amount: u64) -> (r: Result<(), LedgerError>)
        requires
            old(self).wf(),
            old(self).fits_deposit(id@, amount),
        ensures
            final (self).wf(),
            final (self).catalog == old(self).catalog,
            r is Ok <==> old(self).spec_has_account(id@),
            r is Err ==> r == Err::<(), LedgerError>(LedgerError::AccountNotFound) && *final (self)
                == *old(self),
            r is Ok ==> final (self).spec_has_account(id@) && others_kept(
                old(self).store.accounts@,
                final (self).store.accounts@,
                spec_account_index(old(self).store.accounts@, id@),
            ) && same_account_except_balances(
                old(self).spec_account_of(id@),
                final (self).spec_account_of(id@),
            ) && final (self).spec_account_of(id@).crypto_balances == old(self).spec_account_of(
                id@,
            ).crypto_balances && final (self).spec_fiat_of(id@) == old(self).spec_fiat_of(id@)
                + amount,
            r is Ok ==> Self::log_appended(*old(self), *final (self)) && is_deposit_record(
                final (self).log@.last(),
                id@,
                amount,
            ),
    {
        let ghost pre = *self;
        match self.store.find_index(id) {
            None => Err(LedgerError::AccountNotFound),
            Some(i) => {
                proof {
                    pre.store.lemma_account_index_unique(id@, i as int);
                }
                let mut a = self.store.accounts.remove(i);
                a.fiat_balance = a.fiat_balance + amount;
                self.store.accounts.insert(i, a);
                self.log.push(
                    Transaction::Deposit { account: id.clone(), date: current_date(), amount },
                );
                proof {
                    assert(self.store.accounts@ =~= pre.store.accounts@.update(
                        i as int,
                        self.store.accounts@[i as int],
                    ));
                    assert(pre.store.accounts@[i as int].wf(pre.catalog));
                    assert(self.store.accounts@[i as int].wf(pre.catalog));
                    AccountStore::lemma_wf_update(
                        pre.store,
                        self.store,
                        pre.catalog,
                        i as int,
                        self.store.accounts@[i as int],
                    );
                    self.store.lemma_account_index_unique(id@, i as int);
                    assert(self.log@.subrange(0, pre.log@.len() as int) =~= pre.log@);
                }
                Ok(())
            },
        }
    }

    /// Debits `amount` fiat cents over `medium`.  Requires an existing,
    /// validated account with a sufficient fiat balance.
    pub fn withdraw_fiat(&mut self, id: &String, amount: u64, medium: WithdrawalMedium) -> (r:
        Result<(), LedgerError>)
        requires
            old(self).wf(),
        ensures
            final (self).wf(),
            final (self).catalog == old(self).catalog,
            r is Ok <==> old(self).spec_has_account(id@) && old(self).spec_account_of(id@).validated
                && old(self).spec_fiat_of(id@) >= amount,
            !old(self).spec_has_account(id@) ==> r == Err::<(), LedgerError>(
                LedgerError::AccountNotFound,
            ),
            old(self).spec_has_account(id@) && !old(self).spec_account_of(id@).validated ==> r
                == Err::<(), LedgerError>(LedgerError::NotValidated),
            old(self).spec_has_account(id@) && old(self).spec_account_of(id@).validated && old(
                self,
            ).spec_fiat_of(id@) < amount ==> r == Err::<(), LedgerError>(
                LedgerError::InsufficientBalance,
            ),
            r is Err ==> *final (self) == *old(self),
            r is Ok ==> final (self).spec_has_account(id@) && others_kept(
                old(self).store.accounts@,
                final (self).store.accounts@,
                spec_account_index(old(self).store.accounts@, id@),
            ) && same_account_except_balances(
                old(self).spec_account_of(id@),
                final (self).spec_account_of(id@),
            ) && final (self).spec_account_of(id@).crypto_balances == old(self).spec_account_of(
                id@,
            ).crypto_balances && final (self).spec_fiat_of(id@) == old(self).spec_fiat_of(id@)
                - amount,
            r is Ok ==> Self::log_appended(*old(self), *final (self)) && is_withdraw_record(
                final (self).log@.last(),
                id@,
                amount,
                medium,
            ),
    {
        let ghost pre = *self;
        match self.store.find_index(id) {
            None => Err(LedgerError::AccountNotFound),
            Some(i) => {
                proof {
                    pre.store.lemma_account_index_unique(id@, i as int);
                }
                if !self.store.accounts[i].validated {
                    return Err(LedgerError::NotValidated);
                }
                if self.store.accounts[i].fiat_balance < amount {
                    return Err(LedgerError::InsufficientBalance);
                }
                let mut a = self.store.accounts.remove(i);
                a.fiat_balance = a.fiat_balance - amount;
                self.store.accounts.insert(i, a);
                self.log.push(
                    Transaction::Withdraw {
                        account: id.clone(),
                        date: current_date(),
                        amount,
                        medium,
                    },
                );
                proof {
                    assert(self.store.accounts@ =~= pre.store.accounts@.update(
                        i as int,
                        self.store.accounts@[i as int],
                    ));
                    assert(pre.store.accounts@[i as int].wf(pre.catalog));
                    assert(self.store.accounts@[i as int].wf(pre.catalog));
                    AccountStore::lemma_wf_update(
                        pre.store,
                        self.store,
                        pre.catalog,
                        i as int,
                        self.store.accounts@[i as int],
                    );
                    self.store.lemma_account_index_unique(id@, i as int);
                    assert(self.log@.subrange(0, pre.log@.len() as int) =~= pre.log@);
                }
                Ok(())
            },
        }
    }

    /// Overflow guard for [`Self::buy`]: the credited crypto balance must
    /// still fit the fixed-point representation.
    pub open spec fn fits_buy(self, id: Seq<char>, sym: Seq<char>, amount: u64) -> bool {
        self.spec_has_account(id) && self.spec_account_of(id).validated && self.spec_fiat_of(id)
            >= amount ==> self.spec_crypto_of(id, sym) + buy_credit(
            amount as int,
            self.catalog.spec_price(sym),
        ) <= u64::MAX
    }

    /// Converts `fiat_amount` cents into `asset` at the catalog price and
    /// moves both balances; requires an existing, validated account with
    /// sufficient fiat.  The purchase is logged at the captured price.
    pub fn buy(&mut self, id: &String, asset: &String, fiat_amount: u64) -> (r: Result<
        (),
        LedgerError,
    >)
        requires
            old(self).wf(),
            old(self).catalog.contains(asset@),
            old(self).fits_buy(id@, asset@, fiat_amount),
        ensures
            final (self).wf(),
            final (self).catalog == old(self).catalog,
            r is Ok <==> old(self).spec_has_account(id@) && old(self).spec_account_of(id@).validated
                && old(self).spec_fiat_of(id@) >= fiat_amount,
            !old(self).spec_has_account(id@) ==> r == Err::<(), LedgerError>(
                LedgerError::AccountNotFound,
            ),
            old(self).spec_has_account(id@) && !old(self).spec_account_of(id@).validated ==> r
                == Err::<(), LedgerError>(LedgerError::NotValidated),
            old(self).spec_has_account(id@) && old(self).spec_account_of(id@).validated && old(
                self,
            ).spec_fiat_of(id@) < fiat_amount ==> r == Err::<(), LedgerError>(
                LedgerError::InsufficientBalance,
            ),
            r is Err ==> *final (self) == *old(self),
            r is Ok ==> final (self).spec_has_account(id@) && others_kept(
                old(self).store.accounts@,
                final (self).store.accounts@,
                spec_account_index(old(self).store.accounts@, id@),
            ) && same_account_except_balances(
                old(self).spec_account_of(id@),
                final (self).spec_account_of(id@),
            ) && final (self).spec_fiat_of(id@) == old(self).spec_fiat_of(id@) - fiat_amount
                && crypto_line_updated(
                old(self).spec_account_of(id@).crypto_balances@,
                final (self).spec_account_of(id@).crypto_balances@,
                old(self).catalog.spec_index_of(asset@),
                old(self).spec_crypto_of(id@, asset@) + buy_credit(
                    fiat_amount as int,
                    old(self).catalog.spec_price(asset@),
                ),
            ),
            r is Ok ==> Self::log_appended(*old(self), *final (self)) && is_buy_record(
                final (self).log@.last(),
                id@,
                asset@,
                fiat_amount,
                old(self).catalog.spec_price(asset@),
            ),
    {
        let ghost pre = *self;
        let price = self.catalog.price_of(asset);
        let j = match self.catalog.index_of(asset) {
            Some(j) => j,
            None => {
                proof {
                    assert(false);
                }
                0
            },
        };
        match self.store.find_index(id) {
            None => Err(LedgerError::AccountNotFound),
            Some(i) => {
                proof {
                    pre.store.lemma_account_index_unique(id@, i as int);
                    assert(pre.store.accounts@[i as int].wf(pre.catalog));
                }
                if !self.store.accounts[i].validated {
                    return Err(LedgerError::NotValidated);
                }
                if self.store.accounts[i].fiat_balance < fiat_amount {
                    return Err(LedgerError::InsufficientBalance);
                }
                let credit_wide = crypto_credit(fiat_amount, price);
                let mut a = self.store.accounts.remove(i);
                let cur: u64 = a.crypto_balances[j].amount;
                assert(cur + credit_wide <= u64::MAX);
                let credit: u64 = credit_wide as u64;
                a.fiat_balance = a.fiat_balance - fiat_amount;
                let sym_line: String = a.crypto_balances[j].symbol.clone();
                a.crypto_balances.set(j, AssetBalance { symbol: sym_line, amount: cur + credit });
                self.store.accounts.insert(i, a);
                self.log.push(
                    Transaction::Buy {
                        account: id.clone(),
                        date: current_date(),
                        asset: asset.clone(),
                        amount: fiat_amount,
                        price,
                    },
                );
                proof {
                    assert(self.store.accounts@ =~= pre.store.accounts@.update(
                        i as int,
                        self.store.accounts@[i as int],
                    ));
                    assert(self.store.accounts@[i as int].crypto_balances@
                        =~= pre.store.accounts@[i as int].crypto_balances@.update(
                        j as int,
                        self.store.accounts@[i as int].crypto_balances@[j as int],
                    ));
                    assert(self.store.accounts@[i as int].wf(pre.catalog));
                    AccountStore::lemma_wf_update(
                        pre.store,
                        self.store,
                        pre.catalog,
                        i as int,
                        self.store.accounts@[i as int],
                    );
                    self.store.lemma_account_index_unique(id@, i as int);
                    assert(self.log@.subrange(0, pre.log@.len() as int) =~= pre.log@);
                }
                Ok(())
            },
        }
    }

    /// Overflow guard for [`Self::sell`]: the credited fiat balance must
    /// still fit the fixed-point representation.
    pub open spec fn fits_sell(self, id: Seq<char>, sym: Seq<char>, amount: u64) -> bool {
        self.spec_has_account(id) && self.spec_account_of(id).validated && self.spec_crypto_of(
            id,
            sym,
        ) >= amount ==> self.spec_fiat_of(id) + sell_proceeds(
            amount as int,
            self.catalog.spec_price(sym),
        ) <= u64::MAX
    }

    /// Converts `crypto_amount` millionths of `asset` back into fiat at the
    /// catalog price; requires an existing, validated account with a
    /// sufficient balance in the asset.  The sale is logged at the captured
    /// price.
    pub fn sell(&mut self, id: &String, asset: &String, crypto_amount: u64) -> (r: Result<
        (),
        LedgerError,
    >)
        requires
            old(self).wf(),
            old(self).catalog.contains(asset@),
            old(self).fits_sell(id@, asset@, crypto_amount),
        ensures
            final (self).wf(),
            final (self).catalog == old(self).catalog,
            r is Ok <==> old(self).spec_has_account(id@) && old(self).spec_account_of(id@).validated
                && old(self).spec_crypto_of(id@, asset@) >= crypto_amount,
            !old(self).spec_has_account(id@) ==> r == Err::<(), LedgerError>(
                LedgerError::AccountNotFound,
            ),
            old(self).spec_has_account(id@) && !old(self).spec_account_of(id@).validated ==> r
                == Err::<(), LedgerError>(LedgerError::NotValidated),
            old(self).spec_has_account(id@) && old(self).spec_account_of(id@).validated && old(
                self,
            ).spec_crypto_of(id@, asset@) < crypto_amount ==> r == Err::<(), LedgerError>(
                LedgerError::InsufficientBalance,
            ),
            r is Err ==> *final (self) == *old(self),
            r is Ok ==> final (self).spec_has_account(id@) && others_kept(
                old(self).store.accounts@,
                final (self).store.accounts@,
                spec_account_index(old(self).store.accounts@, id@),
            ) && same_account_except_balances(
                old(self).spec_account_of(id@),
                final (self).spec_account_of(id@),
            ) && final (self).spec_fiat_of(id@) == old(self).spec_fiat_of(id@) + sell_proceeds(
                crypto_amount as int,
                old(self).catalog.spec_price(asset@),
            ) && crypto_line_updated(
                old(self).spec_account_of(id@).crypto_balances@,
                final (self).spec_account_of(id@).crypto_balances@,
                old(self).catalog.spec_index_of(asset@),
                old(self).spec_crypto_of(id@, asset@) - crypto_amount,
            ),
            r is Ok ==> Self::log_appended(*old(self), *final (self)) && is_sell_record(
                final (self).log@.last(),
                id@,
                asset@,
                crypto_amount,
                old(self).catalog.spec_price(asset@),
            ),
    {
        let ghost pre = *self;
        let price = self.catalog.price_of(asset);
        let j = match self.catalog.index_of(asset) {
            Some(j) => j,
            None => {
                proof {
                    assert(false);
                }
                0
            },
        };
        match self.store.find_index(id) {
            None => Err(LedgerError::AccountNotFound),
            Some(i) => {
                proof {
                    pre.store.lemma_account_index_unique(id@, i as int);
                    assert(pre.store.accounts@[i as int].wf(pre.catalog));
                }
                if !self.store.accounts[i].validated {
                    return Err(LedgerError::NotValidated);
                }
                if self.store.accounts[i].crypto_balances[j].amount < crypto_amount {
                    return Err(LedgerError::InsufficientBalance);
                }
                let proceeds_wide = fiat_proceeds(crypto_amount, price);
                let mut a = self.store.accounts.remove(i);
                let cur: u64 = a.crypto_balances[j].amount;
                assert(a.fiat_balance + proceeds_wide <= u64::MAX);
                let proceeds: u64 = proceeds_wide as u64;
                a.fiat_balance = a.fiat_balance + proceeds;
                let sym_line: String = a.crypto_balances[j].symbol.clone();
                a.crypto_balances.set(
                    j,
                    AssetBalance { symbol: sym_line, amount: cur - crypto_amount },
                );
                self.store.accounts.insert(i, a);
                self.log.push(
                    Transaction::Sell {
                        account: id.clone(),
                        date: current_date(),
                        asset: asset.clone(),
                        amount: crypto_amount,
                        price,
                    },
                );
                proof {
                    assert(self.store.accounts@ =~= pre.store.accounts@.update(
                        i as int,
                        self.store.accounts@[i as int],
                    ));
                    assert(self.store.accounts@[i as int].crypto_balances@
                        =~= pre.store.accounts@[i as int].crypto_balances@.update(
                        j as int,
                        self.store.accounts@[i as int].crypto_balances@[j as int],
                    ));
                    assert(self.store.accounts@[i as int].wf(pre.catalog));
                    AccountStore::lemma_wf_update(
                        pre.store,
                        self.store,
                        pre.catalog,
                        i as int,
                        self.store.accounts@[i as int],
                    );
                    self.store.lemma_account_index_unique(id@, i as int);
                    assert(self.log@.subrange(0, pre.log@.len() as int) =~= pre.log@);
                }
                Ok(())
            },
        }
    }

    /// The network is in the compatible set of the catalog entry for `sym`.
    pub open spec fn spec_compatible(self, sym: Seq<char>, network: Network) -> bool {
        has_network(self.catalog.spec_asset(sym).networks@, network)
    }

    /// Sends `amount` millionths of `asset` out over `network`.  The
    /// network must be in the asset's compatible set, and the account must
    /// exist, be validated and hold enough of the asset.  The logged record
    /// carries a generated reference tag.
    pub fn withdraw_to_network(
        &mut self,
        id: &String,
        asset: &String,
        amount: u64,
        network: &Network,
    ) -> (r: Result<(), LedgerError>)
        requires
            old(self).wf(),
            old(self).catalog.contains(asset@),
        ensures
            final (self).wf(),
            final (self).catalog == old(self).catalog,
            r is Ok <==> old(self).spec_compatible(asset@, *network) && old(self).spec_has_account(
                id@,
            ) && old(self).spec_account_of(id@).validated && old(self).spec_crypto_of(id@, asset@)
                >= amount,
            !old(self).spec_compatible(asset@, *network) ==> r == Err::<(), LedgerError>(
                LedgerError::IncompatibleNetwork,
            ),
            old(self).spec_compatible(asset@, *network) && !old(self).spec_has_account(id@) ==> r
                == Err::<(), LedgerError>(LedgerError::AccountNotFound),
            old(self).spec_compatible(asset@, *network) && old(self).spec_has_account(id@) && !old(
                self,
            ).spec_account_of(id@).validated ==> r == Err::<(), LedgerError>(
                LedgerError::NotValidated,
            ),
            old(self).spec_compatible(asset@, *network) && old(self).spec_has_account(id@) && old(
                self,
            ).spec_account_of(id@).validated && old(self).spec_crypto_of(id@, asset@) < amount ==> r
                == Err::<(), LedgerError>(LedgerError::InsufficientBalance),
            r is Err ==> *final (self) == *old(self),
            r is Ok ==> final (self).spec_has_account(id@) && others_kept(
                old(self).store.accounts@,
                final (self).store.accounts@,
                spec_account_index(old(self).store.accounts@, id@),
            ) && same_account_except_balances(
                old(self).spec_account_of(id@),
                final (self).spec_account_of(id@),
            ) && final (self).spec_fiat_of(id@) == old(self).spec_fiat_of(id@)
                && crypto_line_updated(
                old(self).spec_account_of(id@).crypto_balances@,
                final (self).spec_account_of(id@).crypto_balances@,
                old(self).catalog.spec_index_of(asset@),
                old(self).spec_crypto_of(id@, asset@) - amount,
            ),
            r is Ok ==> Self::log_appended(*old(self), *final (self))
                && is_network_withdraw_record(
                final (self).log@.last(),
                id@,
                asset@,
                network.name@,
                amount,
                old(self).catalog.spec_price(asset@),
            ),
    {
        let ghost pre = *self;
        let price = self.catalog.price_of(asset);
        let j = match self.catalog.index_of(asset) {
            Some(j) => j,
            None => {
                proof {
                    assert(false);
                }
                0
            },
        };
        if !self.catalog.assets[j].supports_network(network) {
            proof {
                pre.catalog.lemma_index_unique(asset@, j as int);
            }
            return Err(LedgerError::IncompatibleNetwork);
        }
        proof {
            pre.catalog.lemma_index_unique(asset@, j as int);
        }
        match self.store.find_index(id) {
            None => Err(LedgerError::AccountNotFound),
            Some(i) => {
                proof {
                    pre.store.lemma_account_index_unique(id@, i as int);
                    assert(pre.store.accounts@[i as int].wf(pre.catalog));
                }
                if !self.store.accounts[i].validated {
                    return Err(LedgerError::NotValidated);
                }
                if self.store.accounts[i].crypto_balances[j].amount < amount {
                    return Err(LedgerError::InsufficientBalance);
                }
                let tag: u16 = rand::random();
                let mut reference = network.name.clone();
                let digits = crate::texto::texto_u64(tag as u64);
                reference.append(digits.as_str());
                let mut a = self.store.accounts.remove(i);
                let cur: u64 = a.crypto_balances[j].amount;
                let sym_line: String = a.crypto_balances[j].symbol.clone();
                a.crypto_balances.set(j, AssetBalance { symbol: sym_line, amount: cur - amount });
                self.store.accounts.insert(i, a);
                self.log.push(
                    Transaction::NetworkWithdraw {
                        account: id.clone(),
                        date: current_date(),
                        asset: asset.clone(),
                        network: network.name.clone(),
                        amount,
                        price,
                        reference,
                    },
                );
                proof {
                    assert(self.store.accounts@ =~= pre.store.accounts@.update(
                        i as int,
                        self.store.accounts@[i as int],
                    ));
                    assert(self.store.accounts@[i as int].crypto_balances@
                        =~= pre.store.accounts@[i as int].crypto_balances@.update(
                        j as int,
                        self.store.accounts@[i as int].crypto_balances@[j as int],
                    ));
                    assert(self.store.accounts@[i as int].wf(pre.catalog));
                    AccountStore::lemma_wf_update(
                        pre.store,
                        self.store,
                        pre.catalog,
                        i as int,
                        self.store.accounts@[i as int],
                    );
                    self.store.lemma_account_index_unique(id@, i as int);
                    assert(self.log@.subrange(0, pre.log@.len() as int) =~= pre.log@);
                }
                Ok(())
            },
        }
    }

    /// Overflow guard for [`Self::deposit_from_network`].  Only a transfer
    /// that will actually be credited needs the bound: an incompatible pair
    /// is refused before any balance is touched.
    pub open spec fn fits_network_deposit(
        self,
        id: Seq<char>,
        sym: Seq<char>,
        amount: u64,
        network: Network,
    ) -> bool {
        self.spec_compatible(sym, network) && self.spec_has_account(id) ==> self.spec_crypto_of(
            id,
            sym,
        ) + amount <= u64::MAX
    }

    /// Receives `amount` millionths of `asset` from `network`.  The network
    /// must be in the asset's compatible set and the account must exist; no
    /// validation is required for an incoming transfer.
    pub fn deposit_from_network(
        &mut self,
        id: &String,
        asset: &String,
        amount: u64,
        network: &Network,
    ) -> (r: Result<(), LedgerError>)
        requires
            old(self).wf(),
            old(self).catalog.contains(asset@),
            old(self).fits_network_deposit(id@, asset@, amount, *network),
        ensures
            final (self).wf(),
            final (self).catalog == old(self).catalog,
            r is Ok <==> old(self).spec_compatible(asset@, *network) && old(self).spec_has_account(
                id@,
            ),
            !old(self).spec_compatible(asset@, *network) ==> r == Err::<(), LedgerError>(
                LedgerError::IncompatibleNetwork,
            ),
            old(self).spec_compatible(asset@, *network) && !old(self).spec_has_account(id@) ==> r
                == Err::<(), LedgerError>(LedgerError::AccountNotFound),
            r is Err ==> *final (self) == *old(self),
            r is Ok ==> final (self).spec_has_account(id@) && others_kept(
                old(self).store.accounts@,
                final (self).store.accounts@,
                spec_account_index(old(self).store.accounts@, id@),
            ) && same_account_except_balances(
                old(self).spec_account_of(id@),
                final (self).spec_account_of(id@),
            ) && final (self).spec_fiat_of(id@) == old(self).spec_fiat_of(id@)
                && crypto_line_updated(
                old(self).spec_account_of(id@).crypto_balances@,
                final (self).spec_account_of(id@).crypto_balances@,
                old(self).catalog.spec_index_of(asset@),
                old(self).spec_crypto_of(id@, asset@) + amount,
            ),
            r is Ok ==> Self::log_appended(*old(self), *final (self)) && is_network_deposit_record(
                final (self).log@.last(),
                id@,
                asset@,
                network.name@,
                amount,
                old(self).catalog.spec_price(asset@),
            ),
    {
        let ghost pre = *self;
        let price = self.catalog.price_of(asset);
        let j = match self.catalog.index_of(asset) {
            Some(j) => j,
            None => {
                proof {
                    assert(false);
                }
                0
            },
        };
        if !self.catalog.assets[j].supports_network(network) {
            proof {
                pre.catalog.lemma_index_unique(asset@, j as int);
            }
            return Err(LedgerError::IncompatibleNetwork);
        }
        proof {
            pre.catalog.lemma_index_unique(asset@, j as int);
        }
        match self.store.find_index(id) {
            None => Err(LedgerError::AccountNotFound),
            Some(i) => {
                proof {
                    pre.store.lemma_account_index_unique(id@, i as int);
                    assert(pre.store.accounts@[i as int].wf(pre.catalog));
                }
                let mut a = self.store.accounts.remove(i);
                let cur: u64 = a.crypto_balances[j].amount;
                let sym_line: String = a.crypto_balances[j].symbol.clone();
                a.crypto_balances.set(j, AssetBalance { symbol: sym_line, amount: cur + amount });
                self.store.accounts.insert(i, a);
                self.log.push(
                    Transaction::NetworkDeposit {
                        account: id.clone(),
                        date: current_date(),
                        asset: asset.clone(),
                        network: network.name.clone(),
                        amount,
                        price,
                    },
                );
                proof {
                    assert(self.store.accounts@ =~= pre.store.accounts@.update(
                        i as int,
                        self.store.accounts@[i as int],
                    ));
                    assert(self.store.accounts@[i as int].crypto_balances@
                        =~= pre.store.accounts@[i as int].crypto_balances@.update(
                        j as int,
                        self.store.accounts@[i as int].crypto_balances@[j as int],
                    ));
                    assert(self.store.accounts@[i as int].wf(pre.catalog));
                    AccountStore::lemma_wf_update(
                        pre.store,
                        self.store,
                        pre.catalog,
                        i as int,
                        self.store.accounts@[i as int],
                    );
                    self.store.lemma_account_index_unique(id@, i as int);
                    assert(self.log@.subrange(0, pre.log@.len() as int) =~= pre.log@);
                }
                Ok(())
            },
        }
    }
}

/// `amount * CRYPTO_UNIT / price` computed in 128 bits, so the product
/// cannot overflow.
fn crypto_credit(amount: u64, price: u64) -> (r: u128)
    requires
        price >= 1,
    ensures
        r == buy_credit(amount as int, price as int),
{
    assert(amount as int * CRYPTO_UNIT as int <= u64::MAX as int * CRYPTO_UNIT as int) by (
    nonlinear_arith)
        requires
            amount <= u64::MAX,
    ;
    let wide: u128 = (amount as u128) * (CRYPTO_UNIT as u128);
    wide / (price as u128)
}

/// `amount * price / CRYPTO_UNIT` computed in 128 bits, so the product
/// cannot overflow.
fn fiat_proceeds(amount: u64, price: u64) -> (r: u128)
    ensures
        r == sell_proceeds(amount as int, price as int),
{
    assert(amount as int * price as int <= u64::MAX as int * u64::MAX as int) by (nonlinear_arith)
        requires
            amount <= u64::MAX,
            price <= u64::MAX,
    ;
    let wide: u128 = (amount as u128) * (price as u128);
    wide / (CRYPTO_UNIT as u128)
}

} // verus!
