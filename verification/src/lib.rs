//! A verified ledger core for a deterministic state-transition runtime.
//!
//! The centrepiece is a fungible-token ledger ([`ledger`]): balances,
//! delegated allowances, and the issue / transfer / approve /
//! transfer-on-behalf protocol, proved to conserve the issued supply and to
//! mutate nothing on failure. A small breedable-asset registry ([`kitties`])
//! accompanies it.
//!
//! Caller authentication, durable storage and event delivery belong to the
//! surrounding runtime: every operation here receives an already
//! authenticated account identifier and records events in an in-memory log
//! for the runtime to drain.

pub mod allowance_store;
pub mod balance_store;
pub mod kitties;
pub mod ledger;
pub mod poe;
