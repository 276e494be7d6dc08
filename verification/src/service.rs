//! The score ledger service: validate a reputation tuple, persist it keyed
//! by its wallet identity, and answer later reads and existence probes.

use crate::data::DataKey;
use crate::data::ScoreData;
use crate::data::ScoreError;
use crate::data::ScoreView;
use crate::data::valid_score;
use crate::ledger::Env;
use vstd::prelude::*;

verus! {

/// The score ledger service.
pub struct RivoraScoresContract;

impl RivoraScoresContract {
    /// Checks a reputation tuple.  Trust rating is checked first, then
    /// health score; the first violated rule is the one reported.
    pub fn validate_scores(trust_rating: i128, health_score: i128) -> (r: Result<
        (),
        ScoreError,
    >)
        ensures
            r is Ok <==> valid_score(trust_rating) && valid_score(health_score),
            !valid_score(trust_rating) ==> r == Err::<(), ScoreError>(
                ScoreError::InvalidTrustRating,
            ),
            valid_score(trust_rating) && !valid_score(health_score) ==> r == Err::<
                (),
                ScoreError,
            >(ScoreError::InvalidHealthScore),
    {
        if trust_rating < 0 || trust_rating > crate::data::MAX_SCORE {
            return Err(ScoreError::InvalidTrustRating);
        }
        if health_score < 0 || health_score > crate::data::MAX_SCORE {
            return Err(ScoreError::InvalidHealthScore);
        }
        Ok(())
    }

    /// Saves the scores for a wallet identity.
    ///
    /// On valid inputs the record is stamped with the current ledger
    /// timestamp, fully replaces any prior record for that identity, and is
    /// returned by value.  On invalid inputs the call reports the first
    /// violated rule and changes nothing.
    pub fn save_scores(
        e: &mut Env,
        wallet_address: u64,
        trust_rating: i128,
        health_score: i128,
        user_type: String,
    ) -> (r: Result<ScoreData, ScoreError>)
        requires
            old(e).wf(),
        ensures
            final(e).wf(),
            final(e).now() == old(e).now(),
            r is Ok <==> valid_score(trust_rating) && valid_score(health_score),
            (r matches Ok(d) ==> d@ == (ScoreView {
                wallet_address,
                trust_rating,
                health_score,
                user_type: user_type@,
                timestamp: old(e).now(),
            })),
            (r matches Ok(d) ==> final(e).scores() == old(e).scores().insert(
                DataKey::Scores(wallet_address),
                d@,
            )),
            !valid_score(trust_rating) ==> r == Err::<ScoreData, ScoreError>(
                ScoreError::InvalidTrustRating,
            ),
            valid_score(trust_rating) && !valid_score(health_score) ==> r == Err::<
                ScoreData,
                ScoreError,
            >(ScoreError::InvalidHealthScore),
            r is Err ==> *final(e) == *old(e),
    {
        if let Err(err) = Self::validate_scores(trust_rating, health_score) {
            return Err(err);
        }
        let score_data = ScoreData {
            wallet_address,
            trust_rating,
            health_score,
            user_type,
            timestamp: e.ledger.timestamp(),
        };
        let key = DataKey::Scores(wallet_address);
        let stored = score_data.clone();
        e.storage.set(key, stored);
        Ok(score_data)
    }

    /// The current record for a wallet identity, if one exists.  Absence is
    /// a normal outcome, never an error.
    pub fn get_scores(e: &Env, wallet_address: u64) -> (r: Option<ScoreData>)
        requires
            e.wf(),
        ensures
            match r {
                Some(d) => e.scores().contains_key(DataKey::Scores(wallet_address)) && d@
                    == e.scores()[DataKey::Scores(wallet_address)],
                None => !e.scores().contains_key(DataKey::Scores(wallet_address)),
            },
    {
        let key = DataKey::Scores(wallet_address);
        e.storage.get(&key)
    }

    /// Whether a record currently exists for a wallet identity.
    pub fn has_scores(e: &Env, wallet_address: u64) -> (r: bool)
        ensures
            r == e.scores().contains_key(DataKey::Scores(wallet_address)),
    {
        let key = DataKey::Scores(wallet_address);
        e.storage.has(&key)
    }
}

} // verus!
