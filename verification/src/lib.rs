//! Core of a book-lending service: the checkout lifecycle manager.
//!
//! A book moves between three states — nonexistent, available, and checked
//! out — and the core decides, for each `create` (checkout) and `return_book`
//! command, whether the transition is allowed, records it, and never lets two
//! simultaneous checkouts of the same book exist. The decision rules, the
//! in-memory store that implements them, and the data shapes exchanged with
//! the persistence and API layers all live here, each with its contract.

pub mod auth;
pub mod book;
pub mod checkout_laws;
pub mod checkout_model;
pub mod checkout_records;
pub mod checkout_state;
pub mod checkout_store;
pub mod env;
pub mod ids;
