//! The modeled host environment: the storage substrate together with the
//! ledger clock that stamps each write.

use crate::data::DataKey;
use crate::data::ScoreView;
use crate::storage::Storage;
use vstd::prelude::*;

verus! {

/// The ledger clock: the current transaction timestamp.
pub struct Ledger {
    timestamp: u64,
}

impl Ledger {
    /// The timestamp the clock currently reads.
    pub closed spec fn now(self) -> u64 {
        self.timestamp
    }

    /// A clock reading `timestamp`.
    pub fn new(timestamp: u64) -> (l: Ledger)
        ensures
            l.now() == timestamp,
    {
        Ledger { timestamp }
    }

    /// The current transaction timestamp.
    pub fn timestamp(&self) -> (r: u64)
        ensures
            r == self.now(),
    {
        self.timestamp
    }

    /// Moves the clock to `timestamp`.
    pub fn set_timestamp(&mut self, timestamp: u64)
        ensures
            final(self).now() == timestamp,
    {
        self.timestamp = timestamp;
    }
}

/// The host environment a transaction runs in: durable storage plus the
/// transaction clock.
pub struct Env {
    pub storage: Storage,
    pub ledger: Ledger,
}

impl Env {
    /// The environment's storage binds each key at most once.
    pub open spec fn wf(self) -> bool {
        self.storage.wf()
    }

    /// The table of live records, keyed by storage key.
    pub open spec fn scores(self) -> Map<DataKey, ScoreView> {
        self.storage@
    }

    /// The clock's current reading.
    pub open spec fn now(self) -> u64 {
        self.ledger.now()
    }

    /// A fresh environment: empty storage, clock reading `timestamp`.
    pub fn new(timestamp: u64) -> (e: Env)
        ensures
            e.wf(),
            e.scores() == Map::<DataKey, ScoreView>::empty(),
            e.now() == timestamp,
    {
        Env { storage: Storage::new(), ledger: Ledger::new(timestamp) }
    }
}

} // verus!
