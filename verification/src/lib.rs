//! A ledger-resident score record store.
//!
//! The library accepts a reputation tuple for a wallet identity, validates
//! it, persists it keyed by that identity, and lets any caller later
//! retrieve the record or check for its presence.  The ledger substrate
//! (durable key-value storage and a transaction clock) is modeled by the
//! [`ledger::Env`] type, so the whole service is verified end to end.

pub mod data;
pub mod laws;
pub mod ledger;
pub mod service;
pub mod storage;

pub use data::DataKey;
pub use data::ScoreData;
pub use data::ScoreError;
pub use data::ScoreView;
pub use ledger::Env;
pub use ledger::Ledger;
pub use service::RivoraScoresContract;
pub use storage::Storage;
