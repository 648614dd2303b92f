//! Hydration and export of the persisted snapshots, against a second ledger
//! standing in for a restarted process.

use exchange_ledger::account::AssetBalance;
use exchange_ledger::catalog::{Asset, Catalog};
use exchange_ledger::ledger::Ledger;
use exchange_ledger::snapshot::BalanceEntry;
use exchange_ledger::transaction::{TradeKind, Transaction};

fn catalogo() -> Catalog {
    let mut c = Catalog::new();
    c.add_asset(Asset::new("Bitcoin".to_string(), 6_996_095));
    c.add_asset(Asset::new("USDT".to_string(), 100));
    c
}

fn sistema_con_movimientos() -> Ledger {
    let mut sistema = Ledger::new(catalogo());
    sistema
        .register(
            "Nahuel".to_string(),
            "Luna".to_string(),
            "example@gmail.com".to_string(),
            "45497524".to_string(),
        )
        .unwrap();
    sistema
        .register(
            "Juan".to_string(),
            "Perez".to_string(),
            "juanpe@gmail.com".to_string(),
            "50321572".to_string(),
        )
        .unwrap();
    let u1 = "45497524".to_string();
    sistema.mark_validated(&u1);
    sistema.deposit_fiat(&u1, 500_000).unwrap();
    sistema.buy(&u1, &"USDT".to_string(), 100_000).unwrap();
    sistema
}

#[test]
fn test_snapshot_refleja_balances() {
    let sistema = sistema_con_movimientos();
    let snapshot = sistema.balance_snapshot();

    assert_eq!(snapshot.len(), 2);
    assert_eq!(snapshot[0].id, "45497524");
    assert_eq!(snapshot[0].fiat, 400_000);
    assert_eq!(snapshot[0].crypto.len(), 2);
    assert_eq!(snapshot[0].crypto[1].symbol, "USDT");
    assert_eq!(snapshot[0].crypto[1].amount, 1_000_000_000);
    assert_eq!(snapshot[1].id, "50321572");
    assert_eq!(snapshot[1].fiat, 0);
}

#[test]
fn test_hidratar_desde_snapshot() {
    let sistema = sistema_con_movimientos();
    let snapshot = sistema.balance_snapshot();
    let log: Vec<Transaction> = sistema.transactions().clone();

    // Un proceso nuevo: mismas cuentas registradas, balances en cero.
    let mut nuevo = Ledger::new(catalogo());
    nuevo
        .register(
            "Nahuel".to_string(),
            "Luna".to_string(),
            "example@gmail.com".to_string(),
            "45497524".to_string(),
        )
        .unwrap();
    nuevo
        .register(
            "Juan".to_string(),
            "Perez".to_string(),
            "juanpe@gmail.com".to_string(),
            "50321572".to_string(),
        )
        .unwrap();

    nuevo.restore_balances(&snapshot);
    nuevo.restore_log(log);

    assert_eq!(nuevo.accounts()[0].fiat_balance, 400_000);
    assert_eq!(
        nuevo.accounts()[0]
            .crypto_balance_of(&"USDT".to_string())
            .unwrap(),
        1_000_000_000
    );
    assert_eq!(nuevo.accounts()[1].fiat_balance, 0);
    assert_eq!(nuevo.transactions().len(), 2);
    assert_eq!(
        nuevo.most_traded_by_count(TradeKind::Buy),
        Some("USDT".to_string())
    );
}

#[test]
fn test_snapshot_corrupto_se_ignora() {
    let mut sistema = sistema_con_movimientos();

    // Una entrada cuyas lineas no reflejan el catalogo, y una de una cuenta
    // no registrada: ninguna de las dos toca el estado.
    let entradas = vec![
        BalanceEntry {
            id: "45497524".to_string(),
            fiat: 77,
            crypto: vec![AssetBalance { symbol: "Dogecoin".to_string(), amount: 1 }, AssetBalance {
                symbol: "USDT".to_string(),
                amount: 2,
            }],
        },
        BalanceEntry { id: "99999999".to_string(), fiat: 88, crypto: Vec::new() },
    ];
    sistema.restore_balances(&entradas);

    assert_eq!(sistema.accounts()[0].fiat_balance, 400_000);
    assert_eq!(sistema.accounts()[1].fiat_balance, 0);
}

#[test]
fn test_snapshot_ultima_entrada_gana() {
    let mut sistema = sistema_con_movimientos();

    let entradas = vec![
        BalanceEntry {
            id: "50321572".to_string(),
            fiat: 111,
            crypto: vec![
                AssetBalance { symbol: "Bitcoin".to_string(), amount: 5 },
                AssetBalance { symbol: "USDT".to_string(), amount: 6 },
            ],
        },
        BalanceEntry {
            id: "50321572".to_string(),
            fiat: 222,
            crypto: vec![
                AssetBalance { symbol: "Bitcoin".to_string(), amount: 7 },
                AssetBalance { symbol: "USDT".to_string(), amount: 8 },
            ],
        },
    ];
    sistema.restore_balances(&entradas);

    assert_eq!(sistema.accounts()[1].fiat_balance, 222);
    assert_eq!(
        sistema.accounts()[1]
            .crypto_balance_of(&"Bitcoin".to_string())
            .unwrap(),
        7
    );
}
