//! Reconciliation and analytics engine for marketplace listings.
//!
//! Offers are a supplier's listings, products are what customers see, and
//! orders are what is shipped. Every new snapshot of a listing is reconciled
//! with its stored history:
//!
//! - `arith` divides as the machine does, toward zero;
//! - `delta` turns successive readings of raw availability counters into
//!   sold quantities that can be trusted;
//! - `ledger` keeps the bounded log of daily samples and its rolling sums;
//! - `tips` holds the review flag and the tips with their sticky entries;
//! - `weight` estimates shipping weights and schedules their review;
//! - `stock` takes reserved units out of the per-SKU stock;
//! - `models` drives offers, products and orders through their transitions;
//! - `import` reads the daily sheet of visitors and sales;
//! - `routes` holds what each operation of the service decides;
//! - `json`, `pattern` and `text` call `serde_json`, `regex` and the
//!   standard library for what is not proved here;
//! - `types` names the failures and the replies.

pub mod arith;
pub mod delta;
pub mod import;
pub mod json;
pub mod ledger;
pub mod models;
pub mod pattern;
pub mod routes;
pub mod stock;
pub mod text;
pub mod tips;
pub mod types;
pub mod weight;
