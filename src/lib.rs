//! Settlement of trades in a synthetic basket instrument.
//!
//! A basket is a weighted list of underlying assets, each priced by an oracle
//! and traded on an external order book. A basket trade is driven through a
//! trade context: it is opened, every component is filled on its own (in any
//! order, by any caller, with retries), and then it is finalized; or it is
//! reverted and the filled part is unwound in the opposite direction.
//!
//! This crate holds the verified logic: oracle quote validation, basket price
//! aggregation, and the trade-context state machine. Reading accounts, token
//! transfers and order placement are left to the caller, who hands the
//! observed values in and executes the actions handed out.
pub mod arith;
pub mod context;
pub mod errors;
pub mod instructions;
pub mod key;
pub mod laws;
pub mod oracle;
pub mod price;
pub mod registry;
pub mod states;
