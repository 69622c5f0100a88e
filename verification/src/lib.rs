//! The logic of sqlx drivers for Cloudflare D1 and Durable Object SQL
//! storage: SQLite behind a JavaScript API.
//!
//! Values cross as JavaScript values, so an integer is exact only within
//! ±(2^53 − 1); a result reports no declared types, so a column is typed by
//! what is in it; errors come back as SQLite's message text, so their code
//! and kind are read from it; and neither backend holds a transaction open
//! across calls, so `begin()` is refused and a Durable Object transaction is
//! a storage callback, whose outcome is decided here.
pub mod number;
pub mod types;
pub mod value;
pub mod text;
pub mod error;
pub mod query_result;
pub mod row;
pub mod arguments;
pub mod js;
pub mod transaction;
pub mod connection;
mod outside;
