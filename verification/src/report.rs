//! Read-only aggregations over the transaction log: the most traded catalog
//! asset by trade count and by traded volume.
//!
//! Both reports return `None` when no qualifying trade exists, and never name
//! an asset with zero activity.  Ties are broken arbitrarily.

use vstd::prelude::*;
use crate::ledger::Ledger;
use crate::transaction::{Transaction, TradeKind, count_of, lemma_count_of_bound, volume_of,
    lemma_volume_of_nonneg};

verus! {

/// The volume of a prefix of the log never exceeds the volume of the whole
/// log: every record contributes a nonnegative term.
pub proof fn lemma_volume_take_le(log: Seq<Transaction>, kind: TradeKind, sym: Seq<char>, k: int)
    requires
        0 <= k <= log.len(),
    ensures
        volume_of(log.take(k), kind, sym) <= volume_of(log, kind, sym),
    decreases log.len() - k,
{
    if k < log.len() {
        assert(log.take(k + 1).drop_last() =~= log.take(k));
        assert(log.take(k + 1).last() == log[k]);
        let t = log[k];
        if t.is_trade_of(kind, sym) {
            match t {
                Transaction::Sell { amount, price, .. } => {
                    assert(amount as int * price as int >= 0) by (nonlinear_arith)
                        requires
                            amount >= 0,
                            price >= 0,
                    ;
                },
                _ => {},
            }
            assert(t.trade_volume(kind) >= 0);
        }
        lemma_volume_take_le(log, kind, sym, k + 1);
    } else {
        assert(log.take(k) =~= log);
    }
}

impl Ledger {
    /// The catalog asset with the most `kind` trades in the log, or `None`
    /// when no such trade was recorded at all.
    pub fn most_traded_by_count(&self, kind: TradeKind) -> (r: Option<String>)
        requires
            self.wf(),
        ensures
            match r {
                None => forall|j: int|
                    0 <= j < self.catalog.assets@.len() ==> #[trigger] count_of(
                        self.log@,
                        kind,
                        self.catalog.assets@[j].symbol@,
                    ) == 0,
                Some(s) => self.catalog.contains(s@) && count_of(self.log@, kind, s@) >= 1
                    && forall|j: int|
                    0 <= j < self.catalog.assets@.len() ==> #[trigger] count_of(
                        self.log@,
                        kind,
                        self.catalog.assets@[j].symbol@,
                    ) <= count_of(self.log@, kind, s@),
            },
    {
        let n = self.catalog.assets.len();
        let mut counts: Vec<usize> = Vec::new();
        let mut j: usize = 0;
        while j < n
            invariant
                0 <= j <= n,
                counts@.len() == j,
                forall|m: int| 0 <= m < j ==> counts@[m] == 0,
            decreases n - j,
        {
            counts.push(0);
            j = j + 1;
        }
        let mut k: usize = 0;
        while k < self.log.len()
            invariant
                self.wf(),
                n == self.catalog.assets@.len(),
                0 <= k <= self.log@.len(),
                counts@.len() == n,
                forall|m: int|
                    0 <= m < n ==> counts@[m] == count_of(
                        self.log@.take(k as int),
                        kind,
                        #[trigger] self.catalog.assets@[m].symbol@,
                    ),
            decreases self.log@.len() - k,
        {
            proof {
                assert(self.log@.take(k + 1).drop_last() =~= self.log@.take(k as int));
                assert(self.log@.take(k + 1).last() == self.log@[k as int]);
            }
            match &self.log[k] {
                Transaction::Buy { asset, .. } => {
                    if kind == TradeKind::Buy {
                        match self.catalog.index_of(asset) {
                            Some(idx) => {
                                proof {
                                    lemma_count_of_bound(
                                        self.log@.take(k as int),
                                        kind,
                                        self.catalog.assets@[idx as int].symbol@,
                                    );
                                }
                                let c = counts[idx];
                                counts.set(idx, c + 1);
                            },
                            None => {},
                        }
                    }
                },
                Transaction::Sell { asset, .. } => {
                    if kind == TradeKind::Sell {
                        match self.catalog.index_of(asset) {
                            Some(idx) => {
                                proof {
                                    lemma_count_of_bound(
                                        self.log@.take(k as int),
                                        kind,
                                        self.catalog.assets@[idx as int].symbol@,
                                    );
                                }
                                let c = counts[idx];
                                counts.set(idx, c + 1);
                            },
                            None => {},
                        }
                    }
                },
                _ => {},
            }
            k = k + 1;
        }
        proof {
            assert(self.log@.take(self.log@.len() as int) =~= self.log@);
        }
        let mut best: usize = 0;
        let mut found = false;
        let mut j2: usize = 0;
        while j2 < n
            invariant
                self.wf(),
                n == self.catalog.assets@.len(),
                counts@.len() == n,
                0 <= j2 <= n,
                forall|m: int|
                    0 <= m < n ==> counts@[m] == count_of(
                        self.log@,
                        kind,
                        #[trigger] self.catalog.assets@[m].symbol@,
                    ),
                !found ==> forall|m: int| 0 <= m < j2 ==> counts@[m] == 0,
                found ==> best < n && counts@[best as int] >= 1,
                found ==> forall|m: int| 0 <= m < j2 ==> counts@[m] <= counts@[best as int],
            decreases n - j2,
        {
            if counts[j2] > 0 && (!found || counts[j2] > counts[best]) {
                best = j2;
                found = true;
            }
            j2 = j2 + 1;
        }
        if found {
            proof {
                lemma_count_of_bound(self.log@, kind, self.catalog.assets@[best as int].symbol@);
            }
            Some(self.catalog.assets[best].symbol.clone())
        } else {
            None
        }
    }

    /// Every per-asset total volume fits the 128-bit accumulator; forced by
    /// the machine representation, and trivially true of any log a bounded
    /// sequence of operations can build.
    pub open spec fn volume_fits(self, kind: TradeKind) -> bool {
        forall|j: int|
            0 <= j < self.catalog.assets@.len() ==> #[trigger] volume_of(
                self.log@,
                kind,
                self.catalog.assets@[j].symbol@,
            ) <= u128::MAX
    }

    /// The catalog asset with the highest traded volume of direction `kind`,
    /// or `None` when every asset's volume is zero.  A sale's volume is its
    /// amount times the captured price; a purchase's volume is the fiat
    /// spent.
    pub fn most_traded_by_volume(&self, kind: TradeKind) -> (r: Option<String>)
        requires
            self.wf(),
            self.volume_fits(kind),
        ensures
            match r {
                None => forall|j: int|
                    0 <= j < self.catalog.assets@.len() ==> #[trigger] volume_of(
                        self.log@,
                        kind,
                        self.catalog.assets@[j].symbol@,
                    ) == 0,
                Some(s) => self.catalog.contains(s@) && volume_of(self.log@, kind, s@) >= 1
                    && forall|j: int|
                    0 <= j < self.catalog.assets@.len() ==> #[trigger] volume_of(
                        self.log@,
                        kind,
                        self.catalog.assets@[j].symbol@,
                    ) <= volume_of(self.log@, kind, s@),
            },
    {
        let n = self.catalog.assets.len();
        let mut vols: Vec<u128> = Vec::new();
        let mut j: usize = 0;
        while j < n
            invariant
                0 <= j <= n,
                vols@.len() == j,
                forall|m: int| 0 <= m < j ==> vols@[m] == 0,
            decreases n - j,
        {
            vols.push(0);
            j = j + 1;
        }
        let mut k: usize = 0;
        while k < self.log.len()
            invariant
                self.wf(),
                self.volume_fits(kind),
                n == self.catalog.assets@.len(),
                0 <= k <= self.log@.len(),
                vols@.len() == n,
                forall|m: int|
                    0 <= m < n ==> vols@[m] == volume_of(
                        self.log@.take(k as int),
                        kind,
                        #[trigger] self.catalog.assets@[m].symbol@,
                    ),
            decreases self.log@.len() - k,
        {
            proof {
                assert(self.log@.take(k + 1).drop_last() =~= self.log@.take(k as int));
                assert(self.log@.take(k + 1).last() == self.log@[k as int]);
            }
            match &self.log[k] {
                Transaction::Buy { asset, amount, .. } => {
                    if kind == TradeKind::Buy {
                        match self.catalog.index_of(asset) {
                            Some(idx) => {
                                proof {
                                    let sym = self.catalog.assets@[idx as int].symbol@;
                                    lemma_volume_of_nonneg(self.log@.take(k as int), kind, sym);
                                    lemma_volume_take_le(self.log@, kind, sym, k + 1);
                                }
                                let v = vols[idx];
                                vols.set(idx, v + (*amount as u128));
                            },
                            None => {},
                        }
                    }
                },
                Transaction::Sell { asset, amount, price, .. } => {
                    if kind == TradeKind::Sell {
                        match self.catalog.index_of(asset) {
                            Some(idx) => {
                                proof {
                                    let sym = self.catalog.assets@[idx as int].symbol@;
                                    lemma_volume_of_nonneg(self.log@.take(k as int), kind, sym);
                                    lemma_volume_take_le(self.log@, kind, sym, k + 1);
                                    assert((amount as int) * (price as int) <= u64::MAX as int
                                        * u64::MAX as int) by (nonlinear_arith)
                                        requires
                                            amount <= u64::MAX,
                                            price <= u64::MAX,
                                    ;
                                }
                                let v = vols[idx];
                                let term: u128 = (*amount as u128) * (*price as u128);
                                vols.set(idx, v + term);
                            },
                            None => {},
                        }
                    }
                },
                _ => {},
            }
            k = k + 1;
        }
        proof {
            assert(self.log@.take(self.log@.len() as int) =~= self.log@);
        }
        let mut best: usize = 0;
        let mut found = false;
        let mut j2: usize = 0;
        while j2 < n
            invariant
                self.wf(),
                n == self.catalog.assets@.len(),
                vols@.len() == n,
                0 <= j2 <= n,
                forall|m: int|
                    0 <= m < n ==> vols@[m] == volume_of(
                        self.log@,
                        kind,
                        #[trigger] self.catalog.assets@[m].symbol@,
                    ),
                !found ==> forall|m: int| 0 <= m < j2 ==> vols@[m] == 0,
                found ==> best < n && vols@[best as int] >= 1,
                found ==> forall|m: int| 0 <= m < j2 ==> vols@[m] <= vols@[best as int],
            decreases n - j2,
        {
            if vols[j2] > 0 && (!found || vols[j2] > vols[best]) {
                best = j2;
                found = true;
            }
            j2 = j2 + 1;
        }
        if found {
            Some(self.catalog.assets[best].symbol.clone())
        } else {
            None
        }
    }
}

} // verus!
