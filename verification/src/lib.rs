//! Mirror of a Lightning node's invoices and payments: a payment-request
//! decoder, a keyed record store with an idempotent write path, the
//! reconciliation decisions that feed it, and the event fan-out.

pub mod amount;
pub mod api;
pub mod bus;
pub mod clock;
pub mod decoder;
pub mod dto;
pub mod errors;
pub mod fields;
pub mod format;
pub mod initialize;
pub mod lnd;
pub mod models;
pub mod panel;
pub mod payment;
pub mod racing;
pub mod reconciler;
pub mod store;
pub mod symbols;
pub mod text;
pub mod upsert;
