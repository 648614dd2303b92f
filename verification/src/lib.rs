//! A simulated crypto-exchange ledger: user accounts with fiat and per-asset
//! crypto balances, an append-only transaction log, blockchain-scoped transfer
//! rules and read-only trading reports, together with a set of small verified
//! utility modules (calendar dates, array statistics, simple record types).

pub mod account;
pub mod aritmetica;
pub mod cadenas;
pub mod catalog;
pub mod fecha;
pub mod laws;
pub mod ledger;
pub mod playlist;
pub mod primos;
pub mod rectangulo;
pub mod report;
pub mod snapshot;
pub mod texto;
pub mod transaction;
pub mod triangulo;
pub mod veterinaria;
