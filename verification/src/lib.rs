//! A verified procurement engine: suppliers, purchase orders, requests for
//! quotation, goods receipts, three-way matching, contracts, budgets,
//! supplier diversity and punch-out catalogs, held in one in-memory store.
//!
//! Amounts are held in cents, unit prices in millionths of a currency unit
//! and quantities in thousandths of a unit, so every rule of the engine is
//! exact integer arithmetic; line totals are rounded to cents.
pub mod fixed;
pub mod text;
pub mod keyed;
pub mod ids;
pub mod clock;
pub mod types;
pub mod store;
pub mod server;
pub mod suppliers;
pub mod orders;
pub mod rfqs;
pub mod receiving;
pub mod contracts;
pub mod budgets;
pub mod catalogs;
pub mod diversity;
pub mod analytics;
pub mod laws;
