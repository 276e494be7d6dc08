use rivora_scores::Env;
use rivora_scores::RivoraScoresContract;
use rivora_scores::ScoreError;

#[test]
fn test_save_and_get_scores() {
    let mut env = Env::new(0);
    let wallet_address: u64 = 1;

    let result =
        RivoraScoresContract::save_scores(&mut env, wallet_address, 8550, 7230, String::from("balanced"))
            .unwrap();

    assert_eq!(result.wallet_address, wallet_address);
    assert_eq!(result.trust_rating, 8550);
    assert_eq!(result.health_score, 7230);

    let retrieved = RivoraScoresContract::get_scores(&env, wallet_address);
    assert!(retrieved.is_some());
    let scores = retrieved.unwrap();
    assert_eq!(scores.trust_rating, 8550);
    assert_eq!(scores.health_score, 7230);

    assert!(RivoraScoresContract::has_scores(&env, wallet_address));
}

#[test]
fn fresh_env_has_no_records() {
    let env = Env::new(100);
    assert!(!RivoraScoresContract::has_scores(&env, 0));
    assert!(!RivoraScoresContract::has_scores(&env, 42));
    assert!(RivoraScoresContract::get_scores(&env, 0).is_none());
    assert!(RivoraScoresContract::get_scores(&env, 42).is_none());
}

#[test]
fn saved_record_round_trips_in_full() {
    let mut env = Env::new(555);
    let result =
        RivoraScoresContract::save_scores(&mut env, 9, 1, 9999, String::from("curious")).unwrap();
    assert_eq!(result.wallet_address, 9);
    assert_eq!(result.trust_rating, 1);
    assert_eq!(result.health_score, 9999);
    assert_eq!(result.user_type, "curious");
    assert_eq!(result.timestamp, 555);

    let stored = RivoraScoresContract::get_scores(&env, 9).unwrap();
    assert_eq!(stored.wallet_address, 9);
    assert_eq!(stored.trust_rating, 1);
    assert_eq!(stored.health_score, 9999);
    assert_eq!(stored.user_type, "curious");
    assert_eq!(stored.timestamp, 555);
    assert!(RivoraScoresContract::has_scores(&env, 9));
}

#[test]
fn second_save_overwrites_every_field() {
    let mut env = Env::new(10);
    RivoraScoresContract::save_scores(&mut env, 3, 100, 200, String::from("early")).unwrap();
    env.ledger.set_timestamp(20);
    RivoraScoresContract::save_scores(&mut env, 3, 300, 400, String::from("late")).unwrap();

    let stored = RivoraScoresContract::get_scores(&env, 3).unwrap();
    assert_eq!(stored.wallet_address, 3);
    assert_eq!(stored.trust_rating, 300);
    assert_eq!(stored.health_score, 400);
    assert_eq!(stored.user_type, "late");
    assert_eq!(stored.timestamp, 20);
}

#[test]
fn boundary_values_accepted() {
    let mut env = Env::new(1);
    assert!(RivoraScoresContract::save_scores(&mut env, 1, 0, 5, String::from("a")).is_ok());
    assert!(RivoraScoresContract::save_scores(&mut env, 2, 10000, 5, String::from("b")).is_ok());
    assert!(RivoraScoresContract::save_scores(&mut env, 3, 5, 0, String::from("c")).is_ok());
    assert!(RivoraScoresContract::save_scores(&mut env, 4, 5, 10000, String::from("d")).is_ok());
    assert_eq!(RivoraScoresContract::get_scores(&env, 2).unwrap().trust_rating, 10000);
    assert_eq!(RivoraScoresContract::get_scores(&env, 4).unwrap().health_score, 10000);
}

#[test]
fn out_of_range_values_rejected_with_the_right_error() {
    let mut env = Env::new(1);
    assert_eq!(
        RivoraScoresContract::save_scores(&mut env, 1, -1, 5, String::from("a")).unwrap_err(),
        ScoreError::InvalidTrustRating
    );
    assert_eq!(
        RivoraScoresContract::save_scores(&mut env, 1, 10001, 5, String::from("a")).unwrap_err(),
        ScoreError::InvalidTrustRating
    );
    assert_eq!(
        RivoraScoresContract::save_scores(&mut env, 1, 5, -1, String::from("a")).unwrap_err(),
        ScoreError::InvalidHealthScore
    );
    assert_eq!(
        RivoraScoresContract::save_scores(&mut env, 1, 5, 10001, String::from("a")).unwrap_err(),
        ScoreError::InvalidHealthScore
    );
    assert!(!RivoraScoresContract::has_scores(&env, 1));
}

#[test]
fn trust_rating_violation_reported_before_health_score() {
    let mut env = Env::new(1);
    assert_eq!(
        RivoraScoresContract::save_scores(&mut env, 1, -1, 10001, String::from("a")).unwrap_err(),
        ScoreError::InvalidTrustRating
    );
    assert_eq!(
        RivoraScoresContract::validate_scores(20000, -5).unwrap_err(),
        ScoreError::InvalidTrustRating
    );
    assert!(RivoraScoresContract::validate_scores(0, 10000).is_ok());
    assert_eq!(
        RivoraScoresContract::validate_scores(10000, 10001).unwrap_err(),
        ScoreError::InvalidHealthScore
    );
}

#[test]
fn rejected_save_leaves_prior_record_unchanged() {
    let mut env = Env::new(7);
    RivoraScoresContract::save_scores(&mut env, 5, 1234, 5678, String::from("keeper")).unwrap();
    env.ledger.set_timestamp(8);
    assert!(RivoraScoresContract::save_scores(&mut env, 5, 10001, 1, String::from("gone")).is_err());
    assert!(RivoraScoresContract::save_scores(&mut env, 5, 1, -1, String::from("gone")).is_err());

    let stored = RivoraScoresContract::get_scores(&env, 5).unwrap();
    assert_eq!(stored.trust_rating, 1234);
    assert_eq!(stored.health_score, 5678);
    assert_eq!(stored.user_type, "keeper");
    assert_eq!(stored.timestamp, 7);
}

#[test]
fn concrete_scenario_balanced_wallet() {
    let mut env = Env::new(1700000000);
    let w: u64 = 11;
    let w2: u64 = 12;

    let record =
        RivoraScoresContract::save_scores(&mut env, w, 8550, 7230, String::from("balanced")).unwrap();
    assert_eq!(record.wallet_address, w);
    assert_eq!(record.trust_rating, 8550);
    assert_eq!(record.health_score, 7230);
    assert_eq!(record.user_type, "balanced");
    assert_eq!(record.timestamp, 1700000000);

    let stored = RivoraScoresContract::get_scores(&env, w).unwrap();
    assert_eq!(stored.wallet_address, record.wallet_address);
    assert_eq!(stored.trust_rating, record.trust_rating);
    assert_eq!(stored.health_score, record.health_score);
    assert_eq!(stored.user_type, record.user_type);
    assert_eq!(stored.timestamp, record.timestamp);

    assert!(RivoraScoresContract::has_scores(&env, w));
    assert!(RivoraScoresContract::get_scores(&env, w2).is_none());
}

#[test]
fn distinct_identities_do_not_interfere() {
    let mut env = Env::new(30);
    RivoraScoresContract::save_scores(&mut env, 21, 10, 20, String::from("left")).unwrap();
    env.ledger.set_timestamp(31);
    RivoraScoresContract::save_scores(&mut env, 22, 30, 40, String::from("right")).unwrap();

    let first = RivoraScoresContract::get_scores(&env, 21).unwrap();
    assert_eq!(first.trust_rating, 10);
    assert_eq!(first.health_score, 20);
    assert_eq!(first.user_type, "left");
    assert_eq!(first.timestamp, 30);

    let second = RivoraScoresContract::get_scores(&env, 22).unwrap();
    assert_eq!(second.trust_rating, 30);
    assert_eq!(second.health_score, 40);
    assert_eq!(second.user_type, "right");
    assert_eq!(second.timestamp, 31);

    assert!(!RivoraScoresContract::has_scores(&env, 23));
}
