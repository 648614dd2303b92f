//! Exchange scenarios.  Fiat amounts are in cents, crypto amounts in
//! millionths of a unit, prices in cents per whole unit, so 100_000 is
//! $1000.00 of fiat and 1_000_000 is 1.0 of an asset.

use exchange_ledger::catalog::{Asset, Catalog, Network};
use exchange_ledger::ledger::{Ledger, LedgerError};
use exchange_ledger::transaction::{TradeKind, Transaction, WithdrawalMedium};

fn redes() -> Vec<Network> {
    vec![
        Network::new("Binance Smart Chain".to_string(), "BSC".to_string()),
        Network::new("Cardano".to_string(), "ADA".to_string()),
        Network::new("Polkadot".to_string(), "DOT".to_string()),
        Network::new("Solana".to_string(), "SOL".to_string()),
        Network::new("Ripple".to_string(), "XRP".to_string()),
        Network::new("Tezos".to_string(), "XTZ".to_string()),
    ]
}

/// The reference catalog, with each asset tied to its compatible networks.
fn catalogo_de_referencia() -> Catalog {
    let redes = redes();
    let mut catalogo = Catalog::new();

    let mut bitcoin = Asset::new("Bitcoin".to_string(), 6_996_095);
    bitcoin.add_network(redes[0].clone());
    bitcoin.add_network(redes[1].clone());
    catalogo.add_asset(bitcoin);

    let mut ethereum = Asset::new("Ethereum".to_string(), 392_650);
    ethereum.add_network(redes[2].clone());
    ethereum.add_network(redes[3].clone());
    catalogo.add_asset(ethereum);

    let mut bnb = Asset::new("BNB".to_string(), 60_940);
    bnb.add_network(redes[4].clone());
    bnb.add_network(redes[5].clone());
    catalogo.add_asset(bnb);

    let mut usdt = Asset::new("USDT".to_string(), 100);
    for red in &redes {
        usdt.add_network(red.clone());
    }
    catalogo.add_asset(usdt);

    catalogo
}

fn sistema_con_usuarios() -> Ledger {
    let mut sistema = Ledger::new(catalogo_de_referencia());
    sistema
        .register(
            "Nahuel".to_string(),
            "Luna".to_string(),
            "example@gmail.com".to_string(),
            "45497524".to_string(),
        )
        .unwrap();
    sistema
        .register(
            "Lionel".to_string(),
            "Messi".to_string(),
            "leomessi@gmail.com".to_string(),
            "27427323".to_string(),
        )
        .unwrap();
    sistema
        .register(
            "Pedro".to_string(),
            "Gallese".to_string(),
            "pedrito@hotmail.com".to_string(),
            "35587534".to_string(),
        )
        .unwrap();
    sistema
        .register(
            "Arda".to_string(),
            "Guler".to_string(),
            "arda@yahoo.com".to_string(),
            "43521534".to_string(),
        )
        .unwrap();
    sistema
        .register(
            "Juan".to_string(),
            "Perez".to_string(),
            "juanpe@gmail.com".to_string(),
            "50321572".to_string(),
        )
        .unwrap();
    sistema
}

fn fiat_de(sistema: &Ledger, id: &str) -> u64 {
    for a in sistema.accounts() {
        if a.id == id {
            return a.fiat_balance;
        }
    }
    panic!("cuenta no registrada");
}

fn cripto_de(sistema: &Ledger, id: &str, simbolo: &str) -> u64 {
    for a in sistema.accounts() {
        if a.id == id {
            return a.crypto_balance_of(&simbolo.to_string()).unwrap();
        }
    }
    panic!("cuenta no registrada");
}

fn inyectar_cripto(sistema: &mut Ledger, id: &str, simbolo: &str, cantidad: u64) {
    for a in sistema.store.accounts.iter_mut() {
        if a.id == id {
            for linea in a.crypto_balances.iter_mut() {
                if linea.symbol == simbolo {
                    linea.amount = cantidad;
                }
            }
        }
    }
}

fn inyectar_fiat(sistema: &mut Ledger, id: &str, cantidad: u64) {
    for a in sistema.store.accounts.iter_mut() {
        if a.id == id {
            a.fiat_balance = cantidad;
        }
    }
}

#[test]
fn ej05_test_datos_sistema() {
    let mut sistema = sistema_con_usuarios();

    // Cantidad de elementos
    assert_eq!(sistema.accounts().len(), 5);
    assert_eq!(sistema.transactions().len(), 0);
    assert_eq!(sistema.catalog.assets.len(), 4);

    // Informacion de los usuarios
    assert_eq!(sistema.accounts().first().unwrap().id, "45497524");
    assert_eq!(sistema.accounts().get(2).unwrap().surname, "Gallese");
    assert_eq!(sistema.accounts().last().unwrap().email, "juanpe@gmail.com");

    // Registro con un ID ya usado
    let resultado = sistema.register(
        "Pablo".to_string(),
        "Leman".to_string(),
        "test@gmail.com".to_string(),
        "45497524".to_string(),
    );
    assert_eq!(resultado, Err(LedgerError::DuplicateAccount));
    assert_eq!(sistema.accounts().len(), 5);
    assert_eq!(sistema.accounts().first().unwrap().name, "Nahuel");

    // Balances en cero, con las criptos del catalogo
    assert_eq!(sistema.accounts().get(4).unwrap().fiat_balance, 0);
    assert_eq!(cripto_de(&sistema, "50321572", "BNB"), 0);
    assert_eq!(cripto_de(&sistema, "27427323", "Ethereum"), 0);

    // Catalogo
    let bitcoin = sistema.catalog.lookup(&"Bitcoin".to_string()).unwrap();
    assert_eq!(bitcoin.symbol, "Bitcoin");
    assert_eq!(bitcoin.prefix, "Bit");
    assert_eq!(sistema.catalog.price_of(&"USDT".to_string()), 100);
    assert!(sistema.catalog.lookup(&"Dogecoin".to_string()).is_none());
}

#[test]
fn ej05_test_ingresar_dinero() {
    let mut sistema = sistema_con_usuarios();

    // $499.99 acreditados al usuario
    assert!(sistema.deposit_fiat(&"45497524".to_string(), 49_999).is_ok());
    assert_eq!(fiat_de(&sistema, "45497524"), 49_999);

    // Deposito a un usuario no existente
    assert_eq!(
        sistema.deposit_fiat(&"00000000".to_string(), 5_525),
        Err(LedgerError::AccountNotFound)
    );

    // Transaccion registrada
    assert_eq!(sistema.transactions().len(), 1);
    match sistema.transactions().first().unwrap() {
        Transaction::Deposit { account, amount, date } => {
            assert_eq!(account, "45497524");
            assert_eq!(*amount, 49_999);
            assert!(date.es_fecha_valida());
        }
        otro => panic!("se esperaba un deposito, no {:?}", otro),
    }
}

#[test]
fn ej05_test_comprar_cripto() {
    let mut sistema = sistema_con_usuarios();
    let u1 = "45497524".to_string();
    let u5 = "50321572".to_string();

    sistema.mark_validated(&u1);
    sistema.mark_validated(&u5);

    sistema.deposit_fiat(&u1, 100_000).unwrap();
    sistema.deposit_fiat(&u5, 12_075_070).unwrap();

    // Compras con balance e identidad aptos
    sistema.buy(&u1, &"BNB".to_string(), 60_940).unwrap();
    sistema.buy(&u5, &"Bitcoin".to_string(), 3_498_048).unwrap();
    sistema.buy(&u5, &"Ethereum".to_string(), 3_926_500).unwrap();

    assert_eq!(fiat_de(&sistema, "45497524"), 39_060);
    assert_eq!(cripto_de(&sistema, "45497524", "BNB"), 1_000_000);

    assert_eq!(fiat_de(&sistema, "50321572"), 4_650_522);
    assert_eq!(cripto_de(&sistema, "50321572", "Bitcoin"), 500_000);
    assert_eq!(cripto_de(&sistema, "50321572", "Ethereum"), 10_000_000);

    // La compra registra el precio vigente
    match sistema.transactions().get(2).unwrap() {
        Transaction::Buy { asset, price, .. } => {
            assert_eq!(asset, "BNB");
            assert_eq!(*price, 60_940);
        }
        otro => panic!("se esperaba una compra, no {:?}", otro),
    }

    // Compra de un usuario no validado
    let u3 = "35587534".to_string();
    sistema.deposit_fiat(&u3, 1_000_000).unwrap();
    assert_eq!(fiat_de(&sistema, "35587534"), 1_000_000);
    assert_eq!(
        sistema.buy(&u3, &"USDT".to_string(), 5_000),
        Err(LedgerError::NotValidated)
    );
    assert_eq!(cripto_de(&sistema, "35587534", "USDT"), 0);

    // Compra con saldo insuficiente
    assert_eq!(
        sistema.buy(&u1, &"USDT".to_string(), 50_000),
        Err(LedgerError::InsufficientBalance)
    );
    assert_eq!(cripto_de(&sistema, "45497524", "USDT"), 0);

    // Compra de un usuario no existente
    assert_eq!(
        sistema.buy(&"64928204".to_string(), &"USDT".to_string(), 100),
        Err(LedgerError::AccountNotFound)
    );
}

#[test]
fn ej05_test_vender_cripto() {
    let mut sistema = sistema_con_usuarios();
    let u1 = "45497524".to_string();
    let u5 = "50321572".to_string();

    sistema.mark_validated(&u1);
    sistema.mark_validated(&u5);

    sistema.deposit_fiat(&u1, 10_000_000).unwrap();
    sistema.deposit_fiat(&u5, 10_000_000).unwrap();

    sistema.buy(&u1, &"Bitcoin".to_string(), 6_996_095).unwrap();
    sistema.buy(&u1, &"USDT".to_string(), 3_000_000).unwrap();

    sistema.buy(&u5, &"Ethereum".to_string(), 3_926_500).unwrap();
    sistema.buy(&u5, &"BNB".to_string(), 609_400).unwrap();
    sistema.buy(&u5, &"USDT".to_string(), 5_000_000).unwrap();

    // Ventas de usuarios validados y con balance
    sistema.sell(&u1, &"Bitcoin".to_string(), 1_000_000).unwrap();
    sistema.sell(&u1, &"USDT".to_string(), 25_000_000_000).unwrap();

    sistema.sell(&u5, &"Ethereum".to_string(), 5_000_000).unwrap();

    assert_eq!(fiat_de(&sistema, "45497524"), 9_500_000);
    assert_eq!(cripto_de(&sistema, "45497524", "USDT"), 5_000_000_000);

    assert_eq!(fiat_de(&sistema, "50321572"), 2_427_350);
    assert_eq!(cripto_de(&sistema, "50321572", "USDT"), 50_000_000_000);
    assert_eq!(cripto_de(&sistema, "50321572", "Ethereum"), 5_000_000);

    // Transaccion de la venta de USDT
    match sistema.transactions().get(8).unwrap() {
        Transaction::Sell { asset, amount, .. } => {
            assert_eq!(asset, "USDT");
            assert_eq!(*amount, 25_000_000_000);
        }
        otro => panic!("se esperaba una venta, no {:?}", otro),
    }

    // Venta de un usuario no validado, con cripto puesta a mano
    let u3 = "35587534".to_string();
    inyectar_cripto(&mut sistema, "35587534", "USDT", 10_000_000_000);
    assert_eq!(
        sistema.sell(&u3, &"USDT".to_string(), 10_000_000_000),
        Err(LedgerError::NotValidated)
    );
    assert_eq!(fiat_de(&sistema, "35587534"), 0);

    // Venta con balance insuficiente
    assert_eq!(
        sistema.sell(&u1, &"USDT".to_string(), 10_000_000_000),
        Err(LedgerError::InsufficientBalance)
    );
    assert_eq!(fiat_de(&sistema, "45497524"), 9_500_000);

    // Venta de un usuario no existente
    assert_eq!(
        sistema.sell(&"64928204".to_string(), &"USDT".to_string(), 1_000_000),
        Err(LedgerError::AccountNotFound)
    );
}

#[test]
fn ej05_test_retirar_cripto() {
    let mut sistema = sistema_con_usuarios();
    let u1 = "45497524".to_string();
    let u5 = "50321572".to_string();
    let redes = redes();

    sistema.mark_validated(&u1);

    inyectar_cripto(&mut sistema, "45497524", "Bitcoin", 5_000_000);
    inyectar_cripto(&mut sistema, "50321572", "Ethereum", 15_000_000);

    // Retiro valido: balance suficiente, identidad validada, red compatible
    assert!(sistema
        .withdraw_to_network(&u1, &"Bitcoin".to_string(), 3_500_000, &redes[0])
        .is_ok());
    assert_eq!(cripto_de(&sistema, "45497524", "Bitcoin"), 1_500_000);

    match sistema.transactions().first().unwrap() {
        Transaction::NetworkWithdraw { network, reference, date, .. } => {
            assert_eq!(network, "Binance Smart Chain");
            assert!(reference.starts_with("Binance Smart Chain"));
            let sufijo = &reference["Binance Smart Chain".len()..];
            assert!(sufijo.parse::<u16>().is_ok());
            assert!(date.es_fecha_valida());
        }
        otro => panic!("se esperaba un retiro a red, no {:?}", otro),
    }

    // Retiro sin validacion
    assert_eq!(
        sistema.withdraw_to_network(&u5, &"Ethereum".to_string(), 10_000_000, &redes[2]),
        Err(LedgerError::NotValidated)
    );

    // Retiro por una red que el activo no opera
    assert_eq!(
        sistema.withdraw_to_network(&u1, &"Bitcoin".to_string(), 500_000, &redes[3]),
        Err(LedgerError::IncompatibleNetwork)
    );
    assert_eq!(cripto_de(&sistema, "45497524", "Bitcoin"), 1_500_000);

    // Retiro sin balance suficiente
    assert_eq!(
        sistema.withdraw_to_network(&u1, &"Bitcoin".to_string(), 2_000_000, &redes[1]),
        Err(LedgerError::InsufficientBalance)
    );

    // Retiro de un usuario no existente
    assert_eq!(
        sistema.withdraw_to_network(&"64928204".to_string(), &"USDT".to_string(), 1_000_000, &redes[3]),
        Err(LedgerError::AccountNotFound)
    );
}

#[test]
fn ej05_test_recibir_cripto() {
    let mut sistema = sistema_con_usuarios();
    let u1 = "45497524".to_string();
    let redes = redes();

    // Recepcion sin validacion: permitida por diseño
    assert!(sistema
        .deposit_from_network(&u1, &"USDT".to_string(), 50_500_000, &redes[2])
        .is_ok());
    assert_eq!(cripto_de(&sistema, "45497524", "USDT"), 50_500_000);

    match sistema.transactions().first().unwrap() {
        Transaction::NetworkDeposit { account, .. } => {
            assert_eq!(account, "45497524");
        }
        otro => panic!("se esperaba una recepcion, no {:?}", otro),
    }

    // Recepcion por una red que el activo no opera
    assert_eq!(
        sistema.deposit_from_network(&u1, &"BNB".to_string(), 20_500_000, &redes[3]),
        Err(LedgerError::IncompatibleNetwork)
    );

    // Recepcion de un usuario no existente
    assert_eq!(
        sistema.deposit_from_network(&"64928204".to_string(), &"Bitcoin".to_string(), 5_000_000, &redes[0]),
        Err(LedgerError::AccountNotFound)
    );
}

#[test]
fn ej05_test_retirar_fiat() {
    let mut sistema = sistema_con_usuarios();
    let u1 = "45497524".to_string();
    let u5 = "50321572".to_string();

    sistema.mark_validated(&u1);
    sistema.deposit_fiat(&u1, 500_000).unwrap();
    inyectar_fiat(&mut sistema, "50321572", 350_000);

    // Retiro valido
    assert!(sistema
        .withdraw_fiat(&u1, 400_000, WithdrawalMedium::BankTransfer)
        .is_ok());
    assert_eq!(fiat_de(&sistema, "45497524"), 100_000);

    match sistema.transactions().get(1).unwrap() {
        Transaction::Withdraw { medium, amount, .. } => {
            assert_eq!(*medium, WithdrawalMedium::BankTransfer);
            assert_eq!(*amount, 400_000);
        }
        otro => panic!("se esperaba un retiro, no {:?}", otro),
    }

    // Retiro sin balance suficiente
    assert_eq!(
        sistema.withdraw_fiat(&u1, 150_000, WithdrawalMedium::MercadoPago),
        Err(LedgerError::InsufficientBalance)
    );

    // Retiro sin validacion
    assert_eq!(
        sistema.withdraw_fiat(&u5, 50_000, WithdrawalMedium::MercadoPago),
        Err(LedgerError::NotValidated)
    );
    assert_eq!(fiat_de(&sistema, "50321572"), 350_000);

    // Retiro de un usuario no existente
    assert_eq!(
        sistema.withdraw_fiat(&"64928204".to_string(), 500, WithdrawalMedium::BankTransfer),
        Err(LedgerError::AccountNotFound)
    );
}

#[test]
fn ej05_test_criptos_mayores_estadisticas() {
    let mut sistema = sistema_con_usuarios();
    let u1 = "45497524".to_string();
    let u5 = "50321572".to_string();

    sistema.mark_validated(&u1);
    sistema.mark_validated(&u5);

    sistema.deposit_fiat(&u1, 10_000_000).unwrap();
    sistema.deposit_fiat(&u5, 10_000_000).unwrap();

    sistema.buy(&u1, &"Bitcoin".to_string(), 5_000_000).unwrap();
    sistema.buy(&u1, &"Ethereum".to_string(), 3_000_000).unwrap();

    sistema.buy(&u5, &"Bitcoin".to_string(), 8_000_000).unwrap();
    sistema.buy(&u5, &"USDT".to_string(), 1_000_000).unwrap();
    sistema.buy(&u5, &"Ethereum".to_string(), 500_000).unwrap();

    sistema.sell(&u1, &"Ethereum".to_string(), 5_000_000).unwrap();

    sistema.sell(&u5, &"Ethereum".to_string(), 1_000_000).unwrap();
    sistema.sell(&u5, &"Bitcoin".to_string(), 1_000_000).unwrap();

    // Mas ventas
    assert_eq!(
        sistema.most_traded_by_count(TradeKind::Sell),
        Some("Ethereum".to_string())
    );

    // Mas compras: empate entre Bitcoin y Ethereum, cualquiera vale
    let mas_comprada = sistema.most_traded_by_count(TradeKind::Buy).unwrap();
    assert!(mas_comprada == "Ethereum" || mas_comprada == "Bitcoin");

    // Mayor volumen de venta (cantidad por precio capturado)
    assert_eq!(
        sistema.most_traded_by_volume(TradeKind::Sell),
        Some("Bitcoin".to_string())
    );

    // Mayor volumen de compra (fiat gastado)
    assert_eq!(
        sistema.most_traded_by_volume(TradeKind::Buy),
        Some("Bitcoin".to_string())
    );
}

#[test]
fn ej05_test_sistema_vacio() {
    let mut sistema = Ledger::new(catalogo_de_referencia());
    let u = "45786392".to_string();
    let redes = redes();

    assert!(sistema.deposit_fiat(&u, 1_000).is_err());
    assert!(sistema.buy(&u, &"USDT".to_string(), 1_000).is_err());
    assert!(sistema.sell(&u, &"USDT".to_string(), 1_000).is_err());
    assert!(sistema
        .withdraw_to_network(&u, &"USDT".to_string(), 1_000, &redes[0])
        .is_err());
    assert!(sistema
        .deposit_from_network(&u, &"USDT".to_string(), 1_000, &redes[0])
        .is_err());
    assert!(sistema
        .withdraw_fiat(&u, 1_000, WithdrawalMedium::MercadoPago)
        .is_err());

    assert!(sistema.most_traded_by_count(TradeKind::Sell).is_none());
    assert!(sistema.most_traded_by_count(TradeKind::Buy).is_none());
    assert!(sistema.most_traded_by_volume(TradeKind::Sell).is_none());
    assert!(sistema.most_traded_by_volume(TradeKind::Buy).is_none());
}

/// Scenario: deposits need no validation, every debit does.
#[test]
fn test_cuenta_sin_validar() {
    let mut sistema = sistema_con_usuarios();
    let u1 = "45497524".to_string();
    let redes = redes();

    assert!(sistema.deposit_fiat(&u1, 100_000).is_ok());
    assert!(sistema
        .deposit_from_network(&u1, &"USDT".to_string(), 1_000_000, &redes[0])
        .is_ok());

    assert_eq!(
        sistema.withdraw_fiat(&u1, 1_000, WithdrawalMedium::BankTransfer),
        Err(LedgerError::NotValidated)
    );
    assert_eq!(
        sistema.buy(&u1, &"USDT".to_string(), 1_000),
        Err(LedgerError::NotValidated)
    );
    assert_eq!(
        sistema.sell(&u1, &"USDT".to_string(), 1_000),
        Err(LedgerError::NotValidated)
    );
    assert_eq!(
        sistema.withdraw_to_network(&u1, &"USDT".to_string(), 1_000, &redes[0]),
        Err(LedgerError::NotValidated)
    );
    assert_eq!(sistema.transactions().len(), 2);
}

/// Scenario: an incompatible asset/network pair always refuses, whatever the
/// balance or validation state.
#[test]
fn test_red_incompatible() {
    let mut sistema = sistema_con_usuarios();
    let u1 = "45497524".to_string();
    let redes = redes();

    sistema.mark_validated(&u1);
    inyectar_cripto(&mut sistema, "45497524", "Bitcoin", 10_000_000);

    // Bitcoin no opera con la red 4
    assert_eq!(
        sistema.withdraw_to_network(&u1, &"Bitcoin".to_string(), 1_000_000, &redes[4]),
        Err(LedgerError::IncompatibleNetwork)
    );
    assert_eq!(
        sistema.deposit_from_network(&u1, &"Bitcoin".to_string(), 1_000_000, &redes[4]),
        Err(LedgerError::IncompatibleNetwork)
    );
    assert_eq!(cripto_de(&sistema, "45497524", "Bitcoin"), 10_000_000);
    assert_eq!(sistema.transactions().len(), 0);
}

/// Scenario from the design: deposit, refused purchase while unvalidated,
/// validation, then the same purchase at the quoted price.
#[test]
fn test_flujo_compra() {
    let mut sistema = Ledger::new(catalogo_de_referencia());
    sistema
        .register(
            "Ana".to_string(),
            "Paz".to_string(),
            "ana@example.com".to_string(),
            "11111111".to_string(),
        )
        .unwrap();
    let a = "11111111".to_string();

    assert!(sistema.deposit_fiat(&a, 100_000).is_ok());
    assert_eq!(fiat_de(&sistema, "11111111"), 100_000);
    assert_eq!(sistema.transactions().len(), 1);

    assert_eq!(
        sistema.buy(&a, &"BNB".to_string(), 60_940),
        Err(LedgerError::NotValidated)
    );
    assert_eq!(fiat_de(&sistema, "11111111"), 100_000);
    assert_eq!(sistema.transactions().len(), 1);

    assert!(sistema.mark_validated(&a));
    assert!(sistema.buy(&a, &"BNB".to_string(), 60_940).is_ok());
    assert_eq!(fiat_de(&sistema, "11111111"), 39_060);
    assert_eq!(cripto_de(&sistema, "11111111", "BNB"), 1_000_000);
    assert_eq!(sistema.transactions().len(), 2);
}

/// Scenario: selling more than the account holds changes nothing and logs
/// nothing.
#[test]
fn test_venta_insuficiente() {
    let mut sistema = sistema_con_usuarios();
    let u1 = "45497524".to_string();

    sistema.mark_validated(&u1);
    inyectar_cripto(&mut sistema, "45497524", "Ethereum", 1_000_000);

    assert_eq!(
        sistema.sell(&u1, &"Ethereum".to_string(), 2_000_000),
        Err(LedgerError::InsufficientBalance)
    );
    assert_eq!(sistema.transactions().len(), 0);
    assert_eq!(cripto_de(&sistema, "45497524", "Ethereum"), 1_000_000);
    assert_eq!(fiat_de(&sistema, "45497524"), 0);
}

/// Scenario: with no sale recorded, the sale-volume report names nothing,
/// even when other records exist.
#[test]
fn test_volumen_sin_ventas() {
    let mut sistema = sistema_con_usuarios();
    let u1 = "45497524".to_string();

    assert!(sistema.most_traded_by_volume(TradeKind::Sell).is_none());

    sistema.mark_validated(&u1);
    sistema.deposit_fiat(&u1, 1_000_000).unwrap();
    sistema.buy(&u1, &"USDT".to_string(), 500_000).unwrap();

    assert!(sistema.most_traded_by_volume(TradeKind::Sell).is_none());
    assert!(sistema.most_traded_by_count(TradeKind::Sell).is_none());
    assert!(sistema.most_traded_by_volume(TradeKind::Buy).is_some());
}

/// A buy followed by selling the credited units at the unchanged price
/// returns the fiat balance to within the conversion granularity.
#[test]
fn test_ida_y_vuelta() {
    let mut sistema = sistema_con_usuarios();
    let u1 = "45497524".to_string();

    sistema.mark_validated(&u1);
    sistema.deposit_fiat(&u1, 100_000).unwrap();

    sistema.buy(&u1, &"BNB".to_string(), 10_000).unwrap();
    let credito = cripto_de(&sistema, "45497524", "BNB");
    assert_eq!(credito, 164_095);

    sistema.sell(&u1, &"BNB".to_string(), credito).unwrap();
    assert_eq!(cripto_de(&sistema, "45497524", "BNB"), 0);

    // $0.01 lost to rounding, never more than one cent plus the value of
    // one millionth of a unit.
    assert_eq!(fiat_de(&sistema, "45497524"), 99_999);
}

/// Fixed-point conversion rounds down: a purchase below the price of one
/// millionth of a unit debits the fiat and credits nothing.
#[test]
fn test_compra_redondeo_a_cero() {
    let mut sistema = sistema_con_usuarios();
    let u1 = "45497524".to_string();

    sistema.mark_validated(&u1);
    sistema.deposit_fiat(&u1, 1_000).unwrap();

    // One cent of Bitcoin is less than one millionth of a coin.
    sistema.buy(&u1, &"Bitcoin".to_string(), 1).unwrap();
    assert_eq!(cripto_de(&sistema, "45497524", "Bitcoin"), 0);
    assert_eq!(fiat_de(&sistema, "45497524"), 999);
}

/// The built-in reference table carries exactly the four quoted assets.
#[test]
fn test_catalogo_por_defecto() {
    let c = exchange_ledger::catalog::default_catalog();

    assert_eq!(c.assets.len(), 4);
    assert_eq!(c.price_of(&"Bitcoin".to_string()), 6_996_095);
    assert_eq!(c.price_of(&"Ethereum".to_string()), 392_650);
    assert_eq!(c.price_of(&"BNB".to_string()), 60_940);
    assert_eq!(c.price_of(&"USDT".to_string()), 100);
    for activo in &c.assets {
        assert!(activo.networks.is_empty());
    }
}
