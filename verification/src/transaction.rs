//! The immutable transaction log records: one tagged record per successful
//! ledger operation, carrying the values that were in force when the
//! operation executed.

use vstd::prelude::*;
use crate::fecha::Fecha;

verus! {

/// Payment channel used for a fiat withdrawal.
#[derive(Debug, Clone, Copy, PartialEq, Eq, Structural)]
pub enum WithdrawalMedium {
    BankTransfer,
    MercadoPago,
}

/// The two trade directions a report can aggregate over.
#[derive(Debug, Clone, Copy, PartialEq, Eq, Structural)]
pub enum TradeKind {
    Buy,
    Sell,
}

/// One entry of the append-only log.  Asset-bearing records carry the quoted
/// price captured at execution time; network withdrawals also carry the
/// generated reference tag.
#[derive(Debug, Clone)]
pub enum Transaction {
    Deposit { account: String, date: Fecha, amount: u64 },
    Withdraw { account: String, date: Fecha, amount: u64, medium: WithdrawalMedium },
    Buy { account: String, date: Fecha, asset: String, amount: u64, price: u64 },
    Sell { account: String, date: Fecha, asset: String, amount: u64, price: u64 },
    NetworkWithdraw {
        account: String,
        date: Fecha,
        asset: String,
        network: String,
        amount: u64,
        price: u64,
        reference: String,
    },
    NetworkDeposit {
        account: String,
        date: Fecha,
        asset: String,
        network: String,
        amount: u64,
        price: u64,
    },
}

impl Transaction {
    /// The record is a trade of direction `kind` in asset `sym`.
    pub open spec fn is_trade_of(self, kind: TradeKind, sym: Seq<char>) -> bool {
        match kind {
            TradeKind::Buy => self matches (Transaction::Buy { asset, .. }) && asset@ == sym,
            TradeKind::Sell => self matches (Transaction::Sell { asset, .. }) && asset@ == sym,
        }
    }

    /// Traded volume of the record: fiat spent for a purchase, amount times
    /// captured price for a sale.
    pub open spec fn trade_volume(self, kind: TradeKind) -> int {
        match self {
            Transaction::Buy { amount, .. } => amount as int,
            Transaction::Sell { amount, price, .. } => amount as int * price as int,
            _ => 0,
        }
    }
}

/// Number of trades of direction `kind` in asset `sym` in `log`.
pub open spec fn count_of(log: Seq<Transaction>, kind: TradeKind, sym: Seq<char>) -> int
    decreases log.len(),
{
    if log.len() == 0 {
        0
    } else {
        count_of(log.drop_last(), kind, sym) + if log.last().is_trade_of(kind, sym) {
            1int
        } else {
            0int
        }
    }
}

/// Total traded volume of direction `kind` in asset `sym` in `log`.
pub open spec fn volume_of(log: Seq<Transaction>, kind: TradeKind, sym: Seq<char>) -> int
    decreases log.len(),
{
    if log.len() == 0 {
        0
    } else {
        volume_of(log.drop_last(), kind, sym) + if log.last().is_trade_of(kind, sym) {
            log.last().trade_volume(kind)
        } else {
            0int
        }
    }
}

pub proof fn lemma_count_of_bound(log: Seq<Transaction>, kind: TradeKind, sym: Seq<char>)
    ensures
        0 <= count_of(log, kind, sym) <= log.len(),
    decreases log.len(),
{
    if log.len() > 0 {
        lemma_count_of_bound(log.drop_last(), kind, sym);
    }
}

pub proof fn lemma_volume_of_nonneg(log: Seq<Transaction>, kind: TradeKind, sym: Seq<char>)
    ensures
        0 <= volume_of(log, kind, sym),
    decreases log.len(),
{
    if log.len() > 0 {
        lemma_volume_of_nonneg(log.drop_last(), kind, sym);
    }
}

} // verus!
