//! A two-party escrow: a maker locks an amount of one asset in a vault owned
//! by an offer record, and either a taker fulfils the offer by paying the
//! maker in a second asset, or the maker cancels it and takes the deposit
//! back. Every instruction is all or nothing.
pub mod address;
pub mod book;
pub mod instructions;
pub mod laws;
pub mod ledger;
pub mod state;
pub mod transitions;
