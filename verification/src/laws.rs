//! Properties of the ledger that go beyond any single operation's contract.
//!
//! Balance nonnegativity is carried by the representation itself; the
//! buy/sell round trip is a fact about the fixed-point conversion that every
//! pair of operations at one price inherits; and silent reports follow from
//! a log without qualifying trades.

use vstd::prelude::*;
use vstd::arithmetic::div_mod::{lemma_fundamental_div_mod, lemma_mod_bound};
use crate::catalog::CRYPTO_UNIT;
use crate::ledger::{buy_credit, sell_proceeds, Ledger};
use crate::transaction::{count_of, volume_of, TradeKind, Transaction};

verus! {

/// Every balance of every account is nonnegative, in any ledger state at
/// all: balances are held as unsigned fixed-point integers, and every
/// operation's contract keeps the store well formed, so no sequence of
/// operations can leave a negative balance behind.
pub proof fn lemma_balances_nonnegative(l: Ledger)
    ensures
        forall|i: int|
            0 <= i < l.store.accounts@.len() ==> #[trigger] l.store.accounts@[i].fiat_balance >= 0,
        forall|i: int, j: int|
            0 <= i < l.store.accounts@.len() && 0 <= j
                < l.store.accounts@[i].crypto_balances@.len()
                ==> #[trigger] l.store.accounts@[i].crypto_balances@[j].amount >= 0,
{
}

/// Buying with `amount` fiat cents at `price` and then selling the credited
/// units at the unchanged price returns at most `amount` cents, and falls
/// short of it by no more than the rounding granularity: one cent plus the
/// value of one millionth of a unit.
pub proof fn lemma_buy_sell_round_trip(amount: int, price: int)
    requires
        0 <= amount,
        1 <= price,
    ensures
        0 <= sell_proceeds(buy_credit(amount, price), price) <= amount,
        amount - sell_proceeds(buy_credit(amount, price), price) <= price / (CRYPTO_UNIT as int)
            + 1,
{
    let s = CRYPTO_UNIT as int;
    let c = buy_credit(amount, price);
    lemma_fundamental_div_mod(amount * s, price);
    lemma_mod_bound(amount * s, price);
    let r1 = (amount * s) % price;
    assert(amount * s >= 0) by (nonlinear_arith)
        requires
            amount >= 0,
            s == 1_000_000,
    ;
    assert(c * price == amount * s - r1) by (nonlinear_arith)
        requires
            amount * s == price * c + r1,
    ;
    let q = sell_proceeds(c, price);
    lemma_fundamental_div_mod(c * price, s);
    lemma_mod_bound(c * price, s);
    let r2 = (c * price) % s;
    assert(q * s == amount * s - r1 - r2) by (nonlinear_arith)
        requires
            c * price == s * q + r2,
            c * price == amount * s - r1,
    ;
    assert(q <= amount) by (nonlinear_arith)
        requires
            q * s == amount * s - r1 - r2,
            r1 >= 0,
            r2 >= 0,
            s == 1_000_000,
    ;
    assert(c >= 0) by (nonlinear_arith)
        requires
            amount * s == price * c + r1,
            0 <= r1 < price,
            amount * s >= 0,
            price >= 1,
    ;
    assert(q >= 0) by (nonlinear_arith)
        requires
            q * s == c * price - r2,
            c >= 0,
            price >= 1,
            0 <= r2 < s,
            s == 1_000_000,
    ;
    lemma_fundamental_div_mod(price, s);
    lemma_mod_bound(price, s);
    assert(amount - q <= price / s + 1) by (nonlinear_arith)
        requires
            q * s == amount * s - r1 - r2,
            r1 < price,
            r2 < s,
            price == s * (price / s) + price % s,
            0 <= price % s < s,
            s == 1_000_000,
    ;
}

/// The fiat balance after a buy of `amount` cents followed by a sale of the
/// credited units at the unchanged price: back to the pre-buy figure, up to
/// the conversion granularity, and never above it.
pub proof fn lemma_round_trip_restores_fiat(fiat0: int, amount: int, price: int)
    requires
        0 <= amount <= fiat0,
        1 <= price,
    ensures
        fiat0 - amount + sell_proceeds(buy_credit(amount, price), price) <= fiat0,
        fiat0 - (fiat0 - amount + sell_proceeds(buy_credit(amount, price), price)) <= price / (
        CRYPTO_UNIT as int) + 1,
{
    lemma_buy_sell_round_trip(amount, price);
}

/// A log without a single trade of direction `kind` in `sym` has zero count
/// and zero volume for it.
pub proof fn lemma_no_trades_no_volume(log: Seq<Transaction>, kind: TradeKind, sym: Seq<char>)
    requires
        forall|i: int| 0 <= i < log.len() ==> !(#[trigger] log[i].is_trade_of(kind, sym)),
    ensures
        count_of(log, kind, sym) == 0,
        volume_of(log, kind, sym) == 0,
    decreases log.len(),
{
    if log.len() > 0 {
        assert(!log[log.len() - 1].is_trade_of(kind, sym));
        lemma_no_trades_no_volume(log.drop_last(), kind, sym);
    }
}

/// With no `Sell` record in the log at all, every asset's sale volume is
/// zero, so a sale-volume report has nothing to name.
pub proof fn lemma_no_sales_no_volume(log: Seq<Transaction>, sym: Seq<char>)
    requires
        forall|i: int| 0 <= i < log.len() ==> !(#[trigger] log[i] matches Transaction::Sell { .. }),
    ensures
        count_of(log, TradeKind::Sell, sym) == 0,
        volume_of(log, TradeKind::Sell, sym) == 0,
{
    assert forall|i: int| 0 <= i < log.len() implies !(#[trigger] log[i].is_trade_of(
        TradeKind::Sell,
        sym,
    )) by {
        assert(!(log[i] matches Transaction::Sell { .. }));
    }
    lemma_no_trades_no_volume(log, TradeKind::Sell, sym);
}

} // verus!
