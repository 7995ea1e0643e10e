use cosmwasm_std::testing::{mock_env, MockApi};
use regen_contracts::marketplace_curation::{
    all_challenges_resolved, execute_activate_collection, execute_add_to_collection, execute_challenge_batch,
    execute_close_collection, execute_create_collection, execute_remove_from_collection, execute_resolve_challenge,
    execute_submit_quality_score, execute_top_up_bond, execute_update_config, execute_withdraw_bond, instantiate,
    load_collection, may_resolve_challenge, must_pay, query_bond_status, query_collections, query_curator_stats, query_quality_score,
    Action, ChallengeResolution, Collection, CollectionStatus, ConfigUpdate, CurationError, CurationState,
    InstantiateMsg,
};
use regen_contracts::money::Coin;

const DENOM: &str = "uregen";
const MIN_BOND: u128 = 1_000_000_000;
const CHALLENGE_DEP: u128 = 100_000_000;
const BATCH: &str = "C01-001-20250101-20251231-001";

fn addr(input: &str) -> String {
    MockApi::default().addr_make(input).to_string()
}

fn now() -> u64 {
    mock_env().block.time.nanos()
}

fn coins(amount: u128) -> Vec<Coin> {
    vec![Coin { denom: DENOM.to_string(), amount }]
}

fn msg_with(activation: u64, unbonding: u64, max: Option<u32>) -> InstantiateMsg {
    InstantiateMsg {
        community_pool: Ok(addr("community_pool")),
        min_curation_bond: None,
        curation_fee_rate_bps: None,
        challenge_deposit: None,
        slash_percentage_bps: None,
        activation_delay_seconds: Some(activation),
        unbonding_period_seconds: Some(unbonding),
        bond_top_up_window_seconds: None,
        min_quality_score: None,
        max_collections_per_curator: max,
        denom: DENOM.to_string(),
    }
}

fn setup_contract() -> CurationState {
    instantiate(&addr("admin"), msg_with(0, 0, None)).ok().unwrap()
}

fn setup_contract_with_delays() -> CurationState {
    instantiate(&addr("admin"), msg_with(172_800, 1_209_600, None)).ok().unwrap()
}

fn create(state: &mut CurationState, curator: &String, name: &str) -> Result<u64, CurationError> {
    execute_create_collection(
        state,
        curator,
        now(),
        &coins(MIN_BOND),
        name.to_string(),
        "Verified carbon removal credits with >90% permanence".to_string(),
    )
}

fn create_collection(state: &mut CurationState, curator: &String) -> u64 {
    create(state, curator, "Top Carbon Batches").unwrap()
}

fn activate_collection(state: &mut CurationState, curator: &String, id: u64) {
    execute_activate_collection(state, curator, now(), id).unwrap();
}

fn submit_quality_score(state: &mut CurationState, batch: &str, score: u32) -> Vec<u64> {
    execute_submit_quality_score(state, &addr("admin"), now(), batch.to_string(), score, 800).unwrap()
}

fn collection<'a>(state: &'a CurationState, id: u64) -> &'a Collection {
    let i = load_collection(state, id).unwrap();
    &state.collections[i]
}

/// An active collection holding `BATCH`, challenged once.
fn challenged() -> (CurationState, u64) {
    let mut state = setup_contract();
    let curator = addr("curator1");
    let id = create_collection(&mut state, &curator);
    activate_collection(&mut state, &curator, id);
    submit_quality_score(&mut state, BATCH, 500);
    execute_add_to_collection(&mut state, &curator, id, BATCH.to_string()).unwrap();
    execute_challenge_batch(
        &mut state,
        &addr("challenger1"),
        now(),
        &coins(CHALLENGE_DEP),
        id,
        BATCH.to_string(),
        "Invalid methodology".to_string(),
    )
    .unwrap();
    (state, id)
}

#[test]
fn curation_test_instantiate() {
    let state = setup_contract();
    let config = &state.config;
    assert_eq!(config.admin, addr("admin"));
    assert_eq!(config.min_curation_bond, MIN_BOND);
    assert_eq!(config.curation_fee_rate_bps, 50);
    assert_eq!(config.challenge_deposit, CHALLENGE_DEP);
    assert_eq!(config.slash_percentage_bps, 2000);
    assert_eq!(config.activation_delay_seconds, 0);
    assert_eq!(config.unbonding_period_seconds, 0);
    assert_eq!(config.bond_top_up_window_seconds, 604_800);
    assert_eq!(config.min_quality_score, 300);
    assert_eq!(config.max_collections_per_curator, 5);
    assert_eq!(config.denom, DENOM);
}

#[test]
fn test_create_and_activate_collection() {
    let mut state = setup_contract();
    let curator = addr("curator1");
    let id = create_collection(&mut state, &curator);
    assert_eq!(id, 1);
    let c = collection(&state, 1);
    assert_eq!(c.status, CollectionStatus::Proposed);
    assert_eq!(c.curator, curator);
    assert_eq!(c.bond_amount, MIN_BOND);
    assert!(c.batches.is_empty());

    activate_collection(&mut state, &curator, 1);
    assert_eq!(collection(&state, 1).status, CollectionStatus::Active);

    let stats = query_curator_stats(&state, curator.clone(), Ok(curator.clone())).ok().unwrap();
    assert_eq!(stats.collection_count, 1);
    assert_eq!(stats.max_collections, 5);
}

#[test]
fn test_add_batch_to_collection() {
    let mut state = setup_contract();
    let curator = addr("curator1");
    let id = create_collection(&mut state, &curator);
    activate_collection(&mut state, &curator, id);
    submit_quality_score(&mut state, BATCH, 500);
    execute_add_to_collection(&mut state, &curator, id, BATCH.to_string()).unwrap();
    assert_eq!(collection(&state, id).batches.len(), 1);
    assert_eq!(collection(&state, id).batches[0], BATCH);

    let low_batch = "C01-001-20250101-20251231-002";
    submit_quality_score(&mut state, low_batch, 200);
    let err = execute_add_to_collection(&mut state, &curator, id, low_batch.to_string()).unwrap_err();
    assert!(matches!(err, CurationError::QualityScoreTooLow { .. }));

    let unknown_batch = "C01-001-20250101-20251231-003";
    let err = execute_add_to_collection(&mut state, &curator, id, unknown_batch.to_string()).unwrap_err();
    assert!(matches!(err, CurationError::NoQualityScore { .. }));
}

#[test]
fn test_challenge_and_resolve() {
    let (mut state, id) = challenged();
    assert_eq!(state.challenges.len(), 1);
    assert_eq!(state.challenges[0].id, 1);
    assert_eq!(collection(&state, id).status, CollectionStatus::UnderReview);

    let transfers =
        execute_resolve_challenge(&mut state, &addr("admin"), now(), 1, ChallengeResolution::CuratorWins).unwrap();
    assert_eq!(transfers.len(), 1);
    assert_eq!(collection(&state, id).status, CollectionStatus::Active);
    assert_eq!(collection(&state, id).bond_amount, MIN_BOND);
}

#[test]
fn test_challenge_challenger_wins_slash() {
    let (mut state, id) = challenged();
    let transfers =
        execute_resolve_challenge(&mut state, &addr("admin"), now(), 1, ChallengeResolution::ChallengerWins).unwrap();
    assert_eq!(transfers.len(), 2);
    let c = collection(&state, id);
    assert_eq!(c.bond_amount, 800_000_000);
    assert_eq!(c.status, CollectionStatus::Suspended);
    assert!(c.suspension_expires_at.is_some());

    let bond = query_bond_status(&state, id).unwrap_or_else(|| panic!("no collection"));
    assert!(!bond.is_sufficient);
    assert_eq!(bond.bond_amount, 800_000_000);
}

#[test]
fn test_quality_score_auto_removal() {
    let mut state = setup_contract();
    let curator = addr("curator1");
    let id = create_collection(&mut state, &curator);
    activate_collection(&mut state, &curator, id);
    submit_quality_score(&mut state, BATCH, 500);
    execute_add_to_collection(&mut state, &curator, id, BATCH.to_string()).unwrap();
    assert_eq!(collection(&state, id).batches.len(), 1);

    submit_quality_score(&mut state, BATCH, 100);
    assert!(collection(&state, id).batches.is_empty());

    let k = query_quality_score(&state, &BATCH.to_string()).unwrap();
    assert_eq!(state.quality_scores[k].score, 100);
}

#[test]
fn test_max_collections_per_curator() {
    let mut state = instantiate(&addr("admin"), msg_with(0, 0, Some(2))).ok().unwrap();
    let curator = addr("curator1");
    create_collection(&mut state, &curator);
    create_collection(&mut state, &curator);
    let err = execute_create_collection(&mut state, &curator, now(), &coins(MIN_BOND), "Third".to_string(), "Too many".to_string())
        .unwrap_err();
    assert!(matches!(err, CurationError::MaxCollectionsExceeded { max: 2 }));
}

#[test]
fn test_activation_delay_enforcement() {
    let mut state = setup_contract_with_delays();
    let curator = addr("curator1");
    let id = create_collection(&mut state, &curator);
    let err = execute_activate_collection(&mut state, &curator, now(), id).unwrap_err();
    assert!(matches!(err, CurationError::ActivationDelayNotElapsed));
    let later = mock_env().block.time.plus_seconds(172_801).nanos();
    execute_activate_collection(&mut state, &curator, later, id).unwrap();
    assert_eq!(collection(&state, id).status, CollectionStatus::Active);
}

#[test]
fn test_close_and_withdraw_bond() {
    let mut state = setup_contract();
    let curator = addr("curator1");
    let id = create_collection(&mut state, &curator);
    activate_collection(&mut state, &curator, id);
    execute_close_collection(&mut state, &curator, now(), id).unwrap();
    assert_eq!(collection(&state, id).status, CollectionStatus::Closed);
    let transfers = execute_withdraw_bond(&mut state, &curator, now(), id).unwrap();
    assert_eq!(transfers.len(), 1);
    let stats = query_curator_stats(&state, curator.clone(), Ok(curator.clone())).ok().unwrap();
    assert_eq!(stats.collection_count, 0);
}

#[test]
fn test_top_up_bond_restores_active() {
    let (mut state, id) = challenged();
    execute_resolve_challenge(&mut state, &addr("admin"), now(), 1, ChallengeResolution::ChallengerWins).unwrap();
    assert_eq!(collection(&state, id).status, CollectionStatus::Suspended);
    let (bond, status) = execute_top_up_bond(&mut state, &addr("curator1"), &coins(200_000_000), id).unwrap();
    assert_eq!(status, CollectionStatus::Active);
    assert_eq!(bond, 1_000_000_000);
    assert_eq!(collection(&state, id).status, CollectionStatus::Active);
    assert_eq!(collection(&state, id).bond_amount, 1_000_000_000);
}

// ── Further cases ──────────────────────────────────────────────────────

#[test]
fn challenger_wins_split_of_slash() {
    let (mut state, _id) = challenged();
    let transfers =
        execute_resolve_challenge(&mut state, &addr("admin"), now(), 1, ChallengeResolution::ChallengerWins).unwrap();
    let to_challenger: u128 = transfers.iter().filter(|t| t.to == addr("challenger1")).map(|t| t.amount).sum();
    let to_pool: u128 = transfers.iter().filter(|t| t.to == addr("community_pool")).map(|t| t.amount).sum();
    // The deposit back plus half of the 200_000_000 slash; the pool gets the other half.
    assert_eq!(to_challenger, CHALLENGE_DEP + 100_000_000);
    assert_eq!(to_pool, 100_000_000);
    assert!(all_challenges_resolved(&state, 1));
}

#[test]
fn curator_wins_deposit_goes_to_pool() {
    let (mut state, _id) = challenged();
    assert!(!all_challenges_resolved(&state, 1));
    let transfers =
        execute_resolve_challenge(&mut state, &addr("admin"), now(), 1, ChallengeResolution::CuratorWins).unwrap();
    assert_eq!(transfers[0].to, addr("community_pool"));
    assert_eq!(transfers[0].amount, CHALLENGE_DEP);
    assert_eq!(
        execute_resolve_challenge(&mut state, &addr("admin"), now(), 1, ChallengeResolution::CuratorWins).unwrap_err(),
        CurationError::ChallengeAlreadyResolved
    );
}

#[test]
fn curation_must_pay() {
    let denom = DENOM.to_string();
    assert_eq!(must_pay(&coins(5), &denom), Ok(5));
    assert_eq!(must_pay(&vec![], &denom), Err(CurationError::CoinCount { expected: denom.clone(), count: 0 }));
    assert_eq!(
        must_pay(&vec![Coin { denom: "uatom".to_string(), amount: 5 }], &denom),
        Err(CurationError::WrongDenom { expected: denom.clone(), got: "uatom".to_string() })
    );
}

#[test]
fn bond_and_score_bounds() {
    let mut state = setup_contract();
    let curator = addr("curator1");
    assert_eq!(
        execute_create_collection(&mut state, &curator, now(), &coins(10), "n".to_string(), "c".to_string()),
        Err(CurationError::InsufficientBond { required: MIN_BOND, sent: 10 })
    );
    assert_eq!(
        execute_submit_quality_score(&mut state, &addr("admin"), now(), BATCH.to_string(), 1001, 5),
        Err(CurationError::InvalidScore { value: 1001 })
    );
    assert_eq!(
        execute_submit_quality_score(&mut state, &curator, now(), BATCH.to_string(), 10, 5),
        Err(CurationError::Unauthorized { action: Action::SubmitQualityScores })
    );
}

#[test]
fn batch_membership_errors() {
    let mut state = setup_contract();
    let curator = addr("curator1");
    let id = create_collection(&mut state, &curator);
    activate_collection(&mut state, &curator, id);
    submit_quality_score(&mut state, BATCH, 500);
    execute_add_to_collection(&mut state, &curator, id, BATCH.to_string()).unwrap();
    assert_eq!(
        execute_add_to_collection(&mut state, &curator, id, BATCH.to_string()),
        Err(CurationError::BatchAlreadyInCollection { batch_denom: BATCH.to_string(), collection_id: id })
    );
    execute_remove_from_collection(&mut state, &curator, id, BATCH.to_string()).unwrap();
    assert_eq!(
        execute_remove_from_collection(&mut state, &curator, id, BATCH.to_string()),
        Err(CurationError::BatchNotInCollection { batch_denom: BATCH.to_string(), collection_id: id })
    );
    assert_eq!(
        execute_remove_from_collection(&mut state, &addr("rando"), id, BATCH.to_string()),
        Err(CurationError::Unauthorized { action: Action::RemoveBatches })
    );
}

#[test]
fn withdraw_waits_for_unbonding() {
    let mut state = setup_contract_with_delays();
    let curator = addr("curator1");
    let id = create_collection(&mut state, &curator);
    execute_close_collection(&mut state, &curator, now(), id).unwrap();
    assert_eq!(execute_withdraw_bond(&mut state, &curator, now(), id), Err(CurationError::UnbondingNotComplete));
    let later = mock_env().block.time.plus_seconds(1_209_601).nanos();
    let transfers = execute_withdraw_bond(&mut state, &curator, later, id).unwrap();
    assert_eq!(transfers[0].amount, MIN_BOND);
    assert_eq!(transfers[0].to, curator);
}

#[test]
fn bond_is_withdrawn_once() {
    let mut state = setup_contract();
    let curator = addr("curator1");
    let first = create_collection(&mut state, &curator);
    create_collection(&mut state, &curator);
    execute_close_collection(&mut state, &curator, now(), first).unwrap();
    let later = mock_env().block.time.plus_seconds(1_209_601).nanos();
    let transfers = execute_withdraw_bond(&mut state, &curator, later, first).unwrap();
    assert_eq!(transfers.len(), 1);
    assert_eq!(transfers[0].amount, MIN_BOND);
    let stats = query_curator_stats(&state, curator.clone(), Ok(curator.clone())).ok().unwrap();
    assert_eq!(stats.collection_count, 1);
    assert_eq!(
        execute_withdraw_bond(&mut state, &curator, later, first),
        Err(CurationError::NothingToWithdraw { id: first })
    );
    let stats = query_curator_stats(&state, curator.clone(), Ok(curator.clone())).ok().unwrap();
    assert_eq!(stats.collection_count, 1);
}

#[test]
fn collections_listing_filters() {
    let mut state = setup_contract();
    let a = addr("curator1");
    let b = addr("curator2");
    create_collection(&mut state, &a);
    let id2 = create_collection(&mut state, &b);
    activate_collection(&mut state, &b, id2);
    assert_eq!(query_collections(&state, None, None, None, None), Ok(vec![1, 2]));
    assert_eq!(query_collections(&state, Some(CollectionStatus::Active), None, None, None), Ok(vec![2]));
    assert_eq!(query_collections(&state, None, Some(Ok(a.clone())), None, None), Ok(vec![1]));
    assert_eq!(
        query_collections(&state, None, Some(Err("bad".to_string())), None, None),
        Err(CurationError::InvalidAddress { address: "bad".to_string() })
    );
    assert!(query_bond_status(&state, 9).is_none());
}

#[test]
fn curation_update_config_needs_admin() {
    let mut state = setup_contract();
    let update = ConfigUpdate {
        community_pool: None,
        min_curation_bond: Some(5),
        curation_fee_rate_bps: None,
        challenge_deposit: None,
        slash_percentage_bps: None,
        activation_delay_seconds: None,
        unbonding_period_seconds: None,
        bond_top_up_window_seconds: None,
        min_quality_score: None,
        max_collections_per_curator: None,
    };
    assert_eq!(
        execute_update_config(&mut state, &addr("rando"), update),
        Err(CurationError::Unauthorized { action: Action::UpdateConfig })
    );
}

#[test]
fn collection_status_names() {
    assert_eq!(CollectionStatus::UnderReview.label(), "UnderReview");
}

#[test]
fn challenge_resolution_refusal_matches_resolution() {
    let (mut state, _id) = challenged();
    assert_eq!(may_resolve_challenge(&state, &addr("admin"), 1), Ok(()));
    assert_eq!(
        may_resolve_challenge(&state, &addr("rando"), 1),
        Err(CurationError::Unauthorized { action: Action::ResolveChallenges })
    );
    assert_eq!(may_resolve_challenge(&state, &addr("admin"), 2), Err(CurationError::ChallengeNotFound { id: 2 }));
    execute_resolve_challenge(&mut state, &addr("admin"), now(), 1, ChallengeResolution::CuratorWins).unwrap();
    assert_eq!(may_resolve_challenge(&state, &addr("admin"), 1), Err(CurationError::ChallengeAlreadyResolved));
}
