//! A marketplace ledger for non-fungible assets.
//!
//! Sellers deposit an asset of a registered collection together with a price on one of
//! two payment rails. A buyer who pays the price receives the asset; the proceeds are
//! divided between the seller and the collection's royalty recipients. The ledger never
//! moves an asset or a payment itself: every call returns the transfers that its host has
//! to carry out.
pub mod admin;
pub mod collection;
pub mod contract;
pub mod error;
pub mod fraction;
pub mod laws;
pub mod ledger;
pub mod msg;
pub mod query;
pub mod registry;
pub mod royalty;
pub mod sequence;
pub mod settlement;
pub mod state;
