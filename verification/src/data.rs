//! The persisted record, its mathematical content, the storage key scheme,
//! and the validation rules for incoming score values.

use vstd::prelude::*;

verus! {

/// Largest value (inclusive) that a trust rating or a health score may take.
pub const MAX_SCORE: i128 = 10000;

/// Why a write was rejected.  Both variants are caller-input violations;
/// a rejected write leaves the store untouched.
#[derive(Clone, Copy, Debug, PartialEq, Eq, Structural)]
pub enum ScoreError {
    /// The trust rating lies outside `[0, MAX_SCORE]`.
    InvalidTrustRating,
    /// The health score lies outside `[0, MAX_SCORE]`.
    InvalidHealthScore,
}

/// A score value is valid when it lies in `[0, MAX_SCORE]`.
pub open spec fn valid_score(x: i128) -> bool {
    0 <= x <= MAX_SCORE
}

/// The storage key scheme: one record slot per wallet identity, derived
/// deterministically from the identity and from nothing else.
#[derive(Clone, Copy, Debug, PartialEq, Eq, Structural)]
pub enum DataKey {
    Scores(u64),
}

/// The persisted score record for one wallet identity.
#[derive(Debug)]
pub struct ScoreData {
    /// The owning wallet's identity.
    pub wallet_address: u64,
    /// Trust rating in `[0, MAX_SCORE]`.
    pub trust_rating: i128,
    /// Health score in `[0, MAX_SCORE]`.
    pub health_score: i128,
    /// Caller-supplied categorical label; not validated by this service.
    pub user_type: String,
    /// Ledger timestamp assigned at write time; never caller-supplied.
    pub timestamp: u64,
}

/// The mathematical content of a [`ScoreData`] record.
#[verifier::ext_equal]
pub struct ScoreView {
    pub wallet_address: u64,
    pub trust_rating: i128,
    pub health_score: i128,
    pub user_type: Seq<char>,
    pub timestamp: u64,
}

impl View for ScoreData {
    type V = ScoreView;

    open spec fn view(&self) -> ScoreView {
        ScoreView {
            wallet_address: self.wallet_address,
            trust_rating: self.trust_rating,
            health_score: self.health_score,
            user_type: self.user_type@,
            timestamp: self.timestamp,
        }
    }
}

impl Clone for ScoreData {
    /// The copy has the same mathematical content as the original.
    fn clone(&self) -> (r: Self)
        ensures
            r@ == self@,
    {
        ScoreData {
            wallet_address: self.wallet_address,
            trust_rating: self.trust_rating,
            health_score: self.health_score,
            user_type: self.user_type.clone(),
            timestamp: self.timestamp,
        }
    }
}

} // verus!
