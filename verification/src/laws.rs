//! General properties of the score ledger service, stated over the record
//! table that the contracts of `save_scores`, `get_scores` and `has_scores`
//! speak of, and proved once for every input.

use crate::data::DataKey;
use crate::data::ScoreView;
use vstd::prelude::*;

verus! {

/// An identity with no prior record is absent: a fresh environment's table
/// contains no key, so `has_scores` answers false and `get_scores` answers
/// nothing for every identity.
pub proof fn lemma_fresh_identity_unknown(scores: Map<DataKey, ScoreView>, wallet_address: u64)
    requires
        scores == Map::<DataKey, ScoreView>::empty(),
    ensures
        !scores.contains_key(DataKey::Scores(wallet_address)),
{
}

/// A successful save is visible in full: once the table gains a record
/// under an identity's key, that key is present and maps to exactly that
/// record, so `get_scores` returns it and `has_scores` answers true.
pub proof fn lemma_save_then_get(
    scores: Map<DataKey, ScoreView>,
    wallet_address: u64,
    record: ScoreView,
)
    ensures
        scores.insert(DataKey::Scores(wallet_address), record).contains_key(
            DataKey::Scores(wallet_address),
        ),
        scores.insert(DataKey::Scores(wallet_address), record)[DataKey::Scores(wallet_address)]
            == record,
{
}

/// Saving twice for one identity is overwrite, not merge: only the second
/// payload stays visible, whatever the first one held.
pub proof fn lemma_save_overwrites(
    scores: Map<DataKey, ScoreView>,
    wallet_address: u64,
    first: ScoreView,
    second: ScoreView,
)
    ensures
        scores.insert(DataKey::Scores(wallet_address), first).insert(
            DataKey::Scores(wallet_address),
            second,
        ) == scores.insert(DataKey::Scores(wallet_address), second),
{
    assert(scores.insert(DataKey::Scores(wallet_address), first).insert(
        DataKey::Scores(wallet_address),
        second,
    ) =~= scores.insert(DataKey::Scores(wallet_address), second));
}

/// Records for distinct identities never interfere: a save for one identity
/// neither creates, removes nor alters the record any other identity's key
/// maps to.
pub proof fn lemma_distinct_identities_independent(
    scores: Map<DataKey, ScoreView>,
    wallet_address: u64,
    other: u64,
    record: ScoreView,
)
    requires
        wallet_address != other,
    ensures
        scores.insert(DataKey::Scores(wallet_address), record).contains_key(
            DataKey::Scores(other),
        ) == scores.contains_key(DataKey::Scores(other)),
        scores.contains_key(DataKey::Scores(other)) ==> scores.insert(
            DataKey::Scores(wallet_address),
            record,
        )[DataKey::Scores(other)] == scores[DataKey::Scores(other)],
{
}

} // verus!
