//! A rental ledger: who has borrowed what, kept per user in borrowing order.
//!
//! - [`ledger`]: the ledger and its three operations, borrow, list and
//!   give back.
//! - [`dispatch`]: from a command, its requester and its arguments to a
//!   ledger operation and a reply.
//! - [`persist`]: the ledger as a TOML text, and back.
//! - [`settings`]: the startup configuration, read from a TOML text.
//! - [`shutdown`]: the sequence that saves the ledger before the process
//!   exits.
//! - [`desk`]: the ledger and that sequence as one value, made at startup
//!   and handed to whoever serves commands or shuts down.
//! - [`document`]: what the `toml` crate is relied on for.
//! - [`numeral`], [`strings`]: decimal numerals and plain texts.
//!
//! Every function states what it returns over a mathematical model of its
//! arguments, and is proved to meet that statement. The library reads no
//! file, takes no lock and never panics: its caller does the waiting.

pub mod desk;
pub mod dispatch;
pub mod document;
pub mod ledger;
pub mod numeral;
pub mod persist;
pub mod settings;
pub mod shutdown;
pub mod strings;
