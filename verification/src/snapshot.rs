//! The data side of the persistence boundary: exporting the per-account
//! balance snapshot and hydrating balances and the transaction log back into
//! the ledger.
//!
//! The snapshot is plain values; how it is serialized and stored is the
//! adapter's business, outside this crate's logic.  Hydration is defensive: a
//! snapshot entry is applied only when its balance lines mirror the catalog,
//! and anything else is ignored, as a corrupt snapshot means a cold start.

use vstd::prelude::*;
use crate::account::{Account, AccountStore, AssetBalance, contains_id};
use crate::catalog::Catalog;
use crate::ledger::{Ledger, same_account_except_balances};
use crate::transaction::Transaction;

verus! {

/// One account's persisted balances: fiat cents plus one line per asset.
#[derive(Debug, Clone)]
pub struct BalanceEntry {
    pub id: String,
    pub fiat: u64,
    pub crypto: Vec<AssetBalance>,
}

/// The two line sequences carry the same symbols and amounts.
pub open spec fn lines_equal(a: Seq<AssetBalance>, b: Seq<AssetBalance>) -> bool {
    a.len() == b.len() && forall|j: int|
        0 <= j < a.len() ==> #[trigger] a[j].symbol@ == b[j].symbol@ && a[j].amount == b[j].amount
}

/// The entry's balance lines mirror the catalog, one per asset in order.
pub open spec fn shape_ok(e: BalanceEntry, catalog: Catalog) -> bool {
    e.crypto@.len() == catalog.assets@.len() && forall|j: int|
        0 <= j < catalog.assets@.len() ==> #[trigger] e.crypto@[j].symbol@
            == catalog.assets@[j].symbol@
}

/// The entry is a usable snapshot line for the account under `id`.
pub open spec fn good_entry(e: BalanceEntry, id: Seq<char>, catalog: Catalog) -> bool {
    e.id@ == id && shape_ok(e, catalog)
}

/// Index of the last usable entry for `id`, or `-1` when there is none.
/// When a snapshot carries several entries under one ID the last one wins,
/// as the later write would in the persisted map.
pub open spec fn last_good_entry(entries: Seq<BalanceEntry>, id: Seq<char>, catalog: Catalog) -> int
    decreases entries.len(),
{
    if entries.len() == 0 {
        -1
    } else if good_entry(entries.last(), id, catalog) {
        entries.len() - 1
    } else {
        last_good_entry(entries.drop_last(), id, catalog)
    }
}

proof fn lemma_last_good_entry_range(entries: Seq<BalanceEntry>, id: Seq<char>, catalog: Catalog)
    ensures
        -1 <= last_good_entry(entries, id, catalog) < entries.len(),
    decreases entries.len(),
{
    if entries.len() > 0 {
        lemma_last_good_entry_range(entries.drop_last(), id, catalog);
    }
}


/// `b` is `a` with its balances overwritten from the snapshot entry `e`.
pub open spec fn entry_applied(a: Account, b: Account, e: BalanceEntry) -> bool {
    &&& same_account_except_balances(a, b)
    &&& b.fiat_balance == e.fiat
    &&& lines_equal(b.crypto_balances@, e.crypto@)
}

/// What hydrating from `entries` leaves of an account that started as `a`:
/// unchanged if no usable entry names it, else overwritten from the last
/// usable entry.
pub open spec fn hydrated_account(a: Account, b: Account, entries: Seq<BalanceEntry>, catalog:
    Catalog) -> bool {
    if last_good_entry(entries, a.id@, catalog) == -1 {
        b == a
    } else {
        entry_applied(a, b, entries[last_good_entry(entries, a.id@, catalog)])
    }
}

/// An unusable entry leaves the hydration outcome of `a` where it was.
proof fn lemma_hydrated_step_unchanged(
    a: Account,
    b: Account,
    entries: Seq<BalanceEntry>,
    k: int,
    catalog: Catalog,
)
    requires
        0 <= k < entries.len(),
        !good_entry(entries[k], a.id@, catalog),
        hydrated_account(a, b, entries.take(k), catalog),
    ensures
        hydrated_account(a, b, entries.take(k + 1), catalog),
{
    assert(entries.take(k + 1).drop_last() =~= entries.take(k));
    assert(entries.take(k + 1).last() == entries[k]);
    let g = last_good_entry(entries.take(k), a.id@, catalog);
    lemma_last_good_entry_range(entries.take(k), a.id@, catalog);
    assert(last_good_entry(entries.take(k + 1), a.id@, catalog) == g);
    if g != -1 {
        assert(entries.take(k + 1)[g] == entries.take(k)[g]);
    }
}

/// Applying a usable entry makes it the hydration outcome of `a`.
proof fn lemma_hydrated_step_applied(
    a: Account,
    b: Account,
    entries: Seq<BalanceEntry>,
    k: int,
    catalog: Catalog,
)
    requires
        0 <= k < entries.len(),
        good_entry(entries[k], a.id@, catalog),
        entry_applied(a, b, entries[k]),
    ensures
        hydrated_account(a, b, entries.take(k + 1), catalog),
{
    assert(entries.take(k + 1).last() == entries[k]);
    assert(last_good_entry(entries.take(k + 1), a.id@, catalog) == k);
    assert(entries.take(k + 1)[k] == entries[k]);
}

/// Copies balance lines, one by one.
fn clone_lines(v: &Vec<AssetBalance>) -> (r: Vec<AssetBalance>)
    ensures
        lines_equal(r@, v@),
{
    let mut r: Vec<AssetBalance> = Vec::new();
    let mut j: usize = 0;
    while j < v.len()
        invariant
            0 <= j <= v@.len(),
            r@.len() == j,
            forall|m: int|
                0 <= m < j ==> #[trigger] r@[m].symbol@ == v@[m].symbol@ && r@[m].amount
                    == v@[m].amount,
        decreases v@.len() - j,
    {
        r.push(AssetBalance { symbol: v[j].symbol.clone(), amount: v[j].amount });
        j = j + 1;
    }
    r
}

impl Ledger {
    /// The full balance snapshot: one entry per account, in store order.
    pub fn balance_snapshot(&self) -> (r: Vec<BalanceEntry>)
        ensures
            r@.len() == self.store.accounts@.len(),
            forall|i: int|
                0 <= i < r@.len() ==> #[trigger] r@[i].id@ == self.store.accounts@[i].id@
                    && r@[i].fiat == self.store.accounts@[i].fiat_balance && lines_equal(
                    r@[i].crypto@,
                    self.store.accounts@[i].crypto_balances@,
                ),
    {
        let mut r: Vec<BalanceEntry> = Vec::new();
        let mut i: usize = 0;
        while i < self.store.accounts.len()
            invariant
                0 <= i <= self.store.accounts@.len(),
                r@.len() == i,
                forall|m: int|
                    0 <= m < i ==> #[trigger] r@[m].id@ == self.store.accounts@[m].id@
                        && r@[m].fiat == self.store.accounts@[m].fiat_balance && lines_equal(
                        r@[m].crypto@,
                        self.store.accounts@[m].crypto_balances@,
                    ),
            decreases self.store.accounts@.len() - i,
        {
            let a = &self.store.accounts[i];
            r.push(
                BalanceEntry {
                    id: a.id.clone(),
                    fiat: a.fiat_balance,
                    crypto: clone_lines(&a.crypto_balances),
                },
            );
            i = i + 1;
        }
        r
    }

    /// The entry's lines mirror this ledger's catalog.
    fn entry_shape_ok(&self, e: &BalanceEntry) -> (r: bool)
        ensures
            r == shape_ok(*e, self.catalog),
    {
        if e.crypto.len() != self.catalog.assets.len() {
            return false;
        }
        let mut j: usize = 0;
        while j < e.crypto.len()
            invariant
                e.crypto@.len() == self.catalog.assets@.len(),
                0 <= j <= e.crypto@.len(),
                forall|m: int|
                    0 <= m < j ==> #[trigger] e.crypto@[m].symbol@
                        == self.catalog.assets@[m].symbol@,
            decreases e.crypto@.len() - j,
        {
            if !(e.crypto[j].symbol == self.catalog.assets[j].symbol) {
                return false;
            }
            j = j + 1;
        }
        true
    }

    /// Hydrates balances from a decoded snapshot.  Entries are applied in
    /// order; an entry is ignored unless it names a registered account and
    /// its lines mirror the catalog.  Registration data, the log and the
    /// catalog are untouched.
    pub fn restore_balances(&mut self, entries: &Vec<BalanceEntry>)
        requires
            old(self).wf(),
        ensures
            final (self).wf(),
            final (self).catalog == old(self).catalog,
            final (self).log == old(self).log,
            final (self).store.accounts@.len() == old(self).store.accounts@.len(),
            forall|i: int|
                0 <= i < old(self).store.accounts@.len() ==> hydrated_account(
                    old(self).store.accounts@[i],
                    #[trigger] final (self).store.accounts@[i],
                    entries@,
                    old(self).catalog,
                ),
    {
        let ghost pre = *self;
        let mut k: usize = 0;
        while k < entries.len()
            invariant
                pre.wf(),
                self.wf(),
                self.catalog == pre.catalog,
                self.log == pre.log,
                0 <= k <= entries@.len(),
                self.store.accounts@.len() == pre.store.accounts@.len(),
                forall|i: int|
                    0 <= i < pre.store.accounts@.len() ==> #[trigger] self.store.accounts@[i].id@
                        == pre.store.accounts@[i].id@,
                forall|i: int|
                    0 <= i < pre.store.accounts@.len() ==> hydrated_account(
                        pre.store.accounts@[i],
                        #[trigger] self.store.accounts@[i],
                        entries@.take(k as int),
                        pre.catalog,
                    ),
            decreases entries@.len() - k,
        {
            let ghost mid = *self;
            proof {
                assert(entries@.take(k + 1).drop_last() =~= entries@.take(k as int));
                assert(entries@.take(k + 1).last() == entries@[k as int]);
            }
            let e = &entries[k];
            if self.entry_shape_ok(e) {
                match self.store.find_index(&e.id) {
                    Some(i) => {
                        proof {
                            mid.store.lemma_account_index_unique(e.id@, i as int);
                        }
                        let mut a = self.store.accounts.remove(i);
                        a.fiat_balance = e.fiat;
                        a.crypto_balances = clone_lines(&e.crypto);
                        self.store.accounts.insert(i, a);
                        proof {
                            assert(self.store.accounts@ =~= mid.store.accounts@.update(
                                i as int,
                                self.store.accounts@[i as int],
                            ));
                            assert(self.store.accounts@[i as int].wf(pre.catalog));
                            AccountStore::lemma_wf_update(
                                mid.store,
                                self.store,
                                pre.catalog,
                                i as int,
                                self.store.accounts@[i as int],
                            );
                            assert forall|m: int| 0 <= m < pre.store.accounts@.len() implies
                                hydrated_account(
                                pre.store.accounts@[m],
                                #[trigger] self.store.accounts@[m],
                                entries@.take(k + 1),
                                pre.catalog,
                            ) by {
                                assert(hydrated_account(pre.store.accounts@[m],
                                    mid.store.accounts@[m], entries@.take(k as int), pre.catalog));
                                if m == i as int {
                                    assert(pre.store.accounts@[m].id@ == entries@[k as int].id@);
                                    assert(same_account_except_balances(pre.store.accounts@[m],
                                        mid.store.accounts@[m]));
                                    assert(entry_applied(pre.store.accounts@[m],
                                        self.store.accounts@[m], entries@[k as int]));
                                    lemma_hydrated_step_applied(pre.store.accounts@[m],
                                        self.store.accounts@[m], entries@, k as int, pre.catalog);
                                } else {
                                    assert(mid.store.accounts@[m].id@
                                        != mid.store.accounts@[i as int].id@);
                                    assert(pre.store.accounts@[m].id@ != entries@[k as int].id@);
                                    assert(self.store.accounts@[m] == mid.store.accounts@[m]);
                                    lemma_hydrated_step_unchanged(pre.store.accounts@[m],
                                        self.store.accounts@[m], entries@, k as int, pre.catalog);
                                }
                            }
                        }
                    },
                    None => {
                        proof {
                            assert forall|m: int| 0 <= m < pre.store.accounts@.len() implies
                                hydrated_account(
                                pre.store.accounts@[m],
                                #[trigger] self.store.accounts@[m],
                                entries@.take(k + 1),
                                pre.catalog,
                            ) by {
                                assert(!contains_id(mid.store.accounts@, entries@[k as int].id@));
                                assert(mid.store.accounts@[m].id@ != entries@[k as int].id@);
                                assert(pre.store.accounts@[m].id@ != entries@[k as int].id@);
                                assert(hydrated_account(pre.store.accounts@[m],
                                    self.store.accounts@[m], entries@.take(k as int), pre.catalog));
                                lemma_hydrated_step_unchanged(pre.store.accounts@[m],
                                    self.store.accounts@[m], entries@, k as int, pre.catalog);
                            }
                        }
                    },
                }
            } else {
                proof {
                    assert forall|m: int| 0 <= m < pre.store.accounts@.len() implies
                        hydrated_account(
                        pre.store.accounts@[m],
                        #[trigger] self.store.accounts@[m],
                        entries@.take(k + 1),
                        pre.catalog,
                    ) by {
                        assert(!good_entry(entries@[k as int], pre.store.accounts@[m].id@,
                            pre.catalog));
                        assert(hydrated_account(pre.store.accounts@[m], self.store.accounts@[m],
                            entries@.take(k as int), pre.catalog));
                        lemma_hydrated_step_unchanged(pre.store.accounts@[m],
                            self.store.accounts@[m], entries@, k as int, pre.catalog);
                    }
                }
            }
            k = k + 1;
        }
        proof {
            assert(entries@.take(entries@.len() as int) =~= entries@);
        }
    }

    /// Hydrates the transaction log from a decoded snapshot, replacing
    /// whatever the log held.
    pub fn restore_log(&mut self, log: Vec<Transaction>)
        requires
            old(self).wf(),
        ensures
            final (self).wf(),
            final (self).catalog == old(self).catalog,
            final (self).store == old(self).store,
            final (self).log == log,
    {
        self.log = log;
    }
}

} // verus!
