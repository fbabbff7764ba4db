//! A fungible-value ledger with delegated spending, and a factory that
//! creates instances at deterministic identities.
//!
//! Every operation works on an explicit state object and reports failures as
//! values. Who consented to an operation, and the current lifetime marker,
//! come in with the call; what has to be announced goes out as the result.
//! Each executable operation is specified by a pure transition function over
//! a mathematical view of the state (`model` for the ledger, `factory` for
//! the factory), and the general facts about those transitions are proved in
//! `laws`.

pub mod error;
pub mod identity;
pub mod table;
pub mod types;
pub mod model;
pub mod token;
pub mod factory;
pub mod laws;
