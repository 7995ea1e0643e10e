use cosmwasm_std::testing::{mock_env, MockApi};
use cosmwasm_std::Uint128;
use regen_contracts::contribution_rewards::{
    calculate_weighted_score, execute_activate, execute_claim_matured, execute_commit_stability, execute_exit_early,
    execute_initialize, execute_record_activity, execute_trigger_distribution, execute_update_config,
    extract_single_coin, instantiate, load_commitment, may_distribute, period_maxima, query_activity_score,
    query_distribution_record, query_participant_rewards, require_admin, Action, ActivityScore, CommitmentStatus,
    ConfigUpdate, InstantiateMsg, MechanismStatus, RewardsError, RewardsState, StabilityCommitment,
    SECONDS_PER_MONTH,
};
use regen_contracts::money::Coin;

const DENOM: &str = "uregen";
const NANOS: u64 = 1_000_000_000;

fn addr(input: &str) -> String {
    MockApi::default().addr_make(input).to_string()
}

fn now() -> u64 {
    mock_env().block.time.nanos()
}

fn coins(amount: u128) -> Vec<Coin> {
    vec![Coin { denom: DENOM.to_string(), amount }]
}

fn setup_contract() -> RewardsState {
    let msg = InstantiateMsg { community_pool_addr: Ok(addr("community_pool")), denom: DENOM.to_string() };
    instantiate(&addr("admin"), msg).ok().unwrap()
}

fn initialized() -> RewardsState {
    let mut state = setup_contract();
    execute_initialize(&mut state, &addr("admin"), now()).unwrap();
    execute_activate(&mut state, &addr("admin")).unwrap();
    state
}

fn record(state: &mut RewardsState, who: &str, purchase: u128, retirement: u128, facilitation: u128, votes: u32, credits: u32) {
    execute_record_activity(state, &addr("admin"), Ok(addr(who)), purchase, retirement, facilitation, votes, credits)
        .unwrap();
}

fn commitment<'a>(state: &'a RewardsState, id: u64) -> &'a StabilityCommitment {
    let i = load_commitment(state, id).unwrap();
    &state.commitments[i]
}

fn no_update() -> ConfigUpdate {
    ConfigUpdate {
        community_pool_addr: None,
        credit_purchase_weight: None,
        credit_retirement_weight: None,
        platform_facilitation_weight: None,
        governance_voting_weight: None,
        proposal_submission_weight: None,
        stability_annual_return_bps: None,
        max_stability_share_bps: None,
        min_commitment_amount: None,
        min_lock_months: None,
        max_lock_months: None,
        early_exit_penalty_bps: None,
        period_seconds: None,
    }
}

#[test]
fn test_instantiate_and_initialize() {
    let mut state = setup_contract();
    let config = &state.config;
    assert_eq!(config.admin, addr("admin"));
    assert_eq!(config.denom, DENOM);
    assert_eq!(config.credit_purchase_weight, 3000);
    assert_eq!(config.credit_retirement_weight, 3000);
    assert_eq!(config.platform_facilitation_weight, 2000);
    assert_eq!(config.governance_voting_weight, 1000);
    assert_eq!(config.proposal_submission_weight, 1000);
    assert_eq!(config.stability_annual_return_bps, 600);
    assert_eq!(config.max_stability_share_bps, 3000);
    assert_eq!(config.min_commitment_amount, 100_000_000);
    assert_eq!(config.min_lock_months, 6);
    assert_eq!(config.max_lock_months, 24);
    assert_eq!(config.early_exit_penalty_bps, 5000);
    assert_eq!(config.period_seconds, 604_800);

    assert_eq!(state.mechanism.status, MechanismStatus::Inactive);
    assert_eq!(state.mechanism.status.label(), "Inactive");
    assert_eq!(state.mechanism.current_period, 0);

    execute_initialize(&mut state, &addr("admin"), now()).unwrap();
    assert_eq!(state.mechanism.status, MechanismStatus::Tracking);
    assert_eq!(state.mechanism.status.label(), "Tracking");
    assert_eq!(state.mechanism.current_period, 1);
    assert!(state.mechanism.tracking_start.is_some());

    let err = execute_initialize(&mut state, &addr("admin"), now()).unwrap_err();
    assert!(matches!(err, RewardsError::AlreadyInitialized));
}

#[test]
fn test_commit_stability() {
    let mut state = setup_contract();
    execute_initialize(&mut state, &addr("admin"), now()).unwrap();
    let holder = addr("holder1");

    let id = execute_commit_stability(&mut state, &holder, now(), &coins(200_000_000), 12).unwrap();
    assert_eq!(id, 1);
    let c = commitment(&state, 1);
    assert_eq!(c.holder, holder);
    assert_eq!(c.amount, 200_000_000);
    assert_eq!(c.lock_months, 12);
    assert_eq!(c.accrued_rewards, 0);
    assert_eq!(c.status, CommitmentStatus::Committed);
    let expected_maturity = mock_env().block.time.seconds() + 12 * SECONDS_PER_MONTH;
    assert_eq!(c.matures_at / NANOS, expected_maturity);

    let err = execute_commit_stability(&mut state, &addr("small_holder"), now(), &coins(50_000_000), 6).unwrap_err();
    assert!(matches!(err, RewardsError::BelowMinCommitment { .. }));
    let err = execute_commit_stability(&mut state, &holder, now(), &coins(200_000_000), 3).unwrap_err();
    assert!(matches!(err, RewardsError::InvalidLockMonths { .. }));
    let err = execute_commit_stability(&mut state, &holder, now(), &coins(200_000_000), 36).unwrap_err();
    assert!(matches!(err, RewardsError::InvalidLockMonths { .. }));
    let err = execute_commit_stability(&mut state, &holder, now(), &vec![], 12).unwrap_err();
    assert!(matches!(err, RewardsError::NoFundsAttached));
}

#[test]
fn test_record_activity_and_distribute() {
    let mut state = initialized();
    record(&mut state, "alice", 1_000_000, 500_000, 200_000, 5, 100);
    record(&mut state, "bob", 500_000, 250_000, 100_000, 3, 50);

    let score = query_activity_score(&state, Ok(addr("alice")), 1).ok().unwrap();
    assert_eq!(score.credit_purchase_value, 1_000_000);
    assert_eq!(score.governance_votes, 5);

    let inflow: u128 = 10_000_000;
    let out = execute_trigger_distribution(&mut state, &addr("admin"), now(), inflow).ok().unwrap();
    assert_eq!(out.record.stability_allocation, 0);
    assert_eq!(out.record.activity_pool, 10_000_000);
    assert_eq!(out.transfers.len(), 2);

    assert_eq!(state.mechanism.current_period, 2);
    assert_eq!(state.mechanism.last_distribution_period, Some(1));

    let dist = query_distribution_record(&state, 1).unwrap();
    assert_eq!(dist.community_pool_inflow, inflow);
    assert_eq!(dist.stability_allocation, 0);
    assert_eq!(dist.activity_pool, inflow);
}

#[test]
fn test_early_exit_penalty() {
    let mut state = initialized();
    let holder = addr("holder1");
    let commit_amount: u128 = 500_000_000;
    execute_commit_stability(&mut state, &holder, now(), &coins(commit_amount), 12).unwrap();
    record(&mut state, "participant1", 1_000_000, 0, 0, 0, 0);
    execute_trigger_distribution(&mut state, &addr("admin"), now(), 50_000_000).ok().unwrap();

    let accrued = commitment(&state, 1).accrued_rewards;
    assert!(accrued > 0, "should have accrued some rewards");

    let (transfers, penalty) = execute_exit_early(&mut state, &holder, 1).unwrap();
    let expected_penalty = Uint128::new(accrued).multiply_ratio(5000u128, 10_000u128).u128();
    let expected_return = commit_amount + accrued - expected_penalty;
    assert_eq!(penalty, expected_penalty);
    assert_eq!(transfers.len(), 1);
    assert_eq!(transfers[0].amount, expected_return);
    assert_eq!(commitment(&state, 1).status, CommitmentStatus::EarlyExit);

    let err = execute_exit_early(&mut state, &holder, 1).unwrap_err();
    assert!(matches!(err, RewardsError::InvalidCommitmentStatus { .. }));
}

#[test]
fn test_matured_claim() {
    let mut state = initialized();
    let holder = addr("holder1");
    let commit_amount: u128 = 300_000_000;
    execute_commit_stability(&mut state, &holder, now(), &coins(commit_amount), 6).unwrap();
    record(&mut state, "p1", 1_000_000, 0, 0, 0, 0);
    execute_trigger_distribution(&mut state, &addr("admin"), now(), 20_000_000).ok().unwrap();
    let accrued = commitment(&state, 1).accrued_rewards;

    let err = execute_claim_matured(&mut state, &holder, now(), 1).unwrap_err();
    assert!(matches!(err, RewardsError::CommitmentNotMatured { .. }));

    let future = (mock_env().block.time.seconds() + 6 * SECONDS_PER_MONTH + 86_400) * NANOS;
    let transfers = execute_claim_matured(&mut state, &holder, future, 1).unwrap();
    assert_eq!(transfers.len(), 1);
    assert_eq!(transfers[0].amount, commit_amount + accrued);
    assert_eq!(transfers[0].to, holder);
    assert_eq!(commitment(&state, 1).status, CommitmentStatus::Matured);
}

#[test]
fn test_unauthorized_operations() {
    let mut state = setup_contract();
    let stranger = addr("stranger");
    let err = execute_initialize(&mut state, &stranger, now()).unwrap_err();
    assert!(matches!(err, RewardsError::Unauthorized { .. }));
    let err =
        execute_record_activity(&mut state, &stranger, Ok(stranger.clone()), 100, 0, 0, 0, 0).unwrap_err();
    assert!(matches!(err, RewardsError::Unauthorized { .. }));
    let err = execute_trigger_distribution(&mut state, &stranger, now(), 1_000_000).err().unwrap();
    assert!(matches!(err, RewardsError::Unauthorized { .. }));
}

#[test]
fn test_distribution_with_stability_and_activity() {
    let mut state = initialized();
    execute_commit_stability(&mut state, &addr("holder_a"), now(), &coins(400_000_000), 12).unwrap();
    execute_commit_stability(&mut state, &addr("holder_b"), now(), &coins(600_000_000), 24).unwrap();
    record(&mut state, "alice", 2_000_000, 1_000_000, 0, 0, 0);

    let inflow: u128 = 100_000_000;
    let out = execute_trigger_distribution(&mut state, &addr("admin"), now(), inflow).ok().unwrap();
    let stability_alloc = out.record.stability_allocation;
    assert!(stability_alloc > 0, "stability allocation should be positive");
    assert_eq!(out.record.activity_pool, inflow - stability_alloc);

    let a = commitment(&state, 1).accrued_rewards;
    let b = commitment(&state, 2).accrued_rewards;
    assert!(b > a, "holder_b (600M) should accrue more than holder_a (400M)");
    assert!((a + b).abs_diff(stability_alloc) <= 1);
}

#[test]
fn test_update_config_weight_validation() {
    let mut state = setup_contract();
    let update = ConfigUpdate {
        credit_purchase_weight: Some(4000),
        credit_retirement_weight: Some(2000),
        platform_facilitation_weight: Some(2000),
        governance_voting_weight: Some(1000),
        proposal_submission_weight: Some(1000),
        ..no_update()
    };
    assert!(execute_update_config(&mut state, &addr("admin"), update).is_ok());
    let update = ConfigUpdate { credit_purchase_weight: Some(5000), ..no_update() };
    let err = execute_update_config(&mut state, &addr("admin"), update).unwrap_err();
    assert!(matches!(err, RewardsError::InvalidWeightSum { .. }));
}

// ── Further cases ──────────────────────────────────────────────────────

#[test]
fn stability_allocation_formula() {
    // 6% a year on 1_000_000_000 committed, for one 604_800 s period:
    // 1e9 * 600 * 604_800 / (10_000 * 31_556_926) = 1_149_921 (floored), under the 30% cap.
    let mut state = initialized();
    execute_commit_stability(&mut state, &addr("h"), now(), &coins(1_000_000_000), 12).unwrap();
    record(&mut state, "alice", 1, 0, 0, 0, 0);
    let out = execute_trigger_distribution(&mut state, &addr("admin"), now(), 100_000_000).ok().unwrap();
    assert_eq!(out.record.stability_allocation, 1_149_921);
    // A small inflow is capped at 30% of it.
    let mut state = initialized();
    execute_commit_stability(&mut state, &addr("h"), now(), &coins(1_000_000_000), 12).unwrap();
    record(&mut state, "alice", 1, 0, 0, 0, 0);
    let out = execute_trigger_distribution(&mut state, &addr("admin"), now(), 1_000_000).ok().unwrap();
    assert_eq!(out.record.stability_allocation, 300_000);
}

#[test]
fn rewards_split_by_weighted_score() {
    let mut state = initialized();
    record(&mut state, "alice", 3_000, 0, 0, 0, 0);
    record(&mut state, "bob", 1_000, 0, 0, 0, 0);
    let out = execute_trigger_distribution(&mut state, &addr("admin"), now(), 4_000).ok().unwrap();
    let paid_to = |who: &str| -> u128 {
        out.transfers.iter().filter(|t| t.to == addr(who)).map(|t| t.amount).sum()
    };
    assert_eq!(paid_to("alice"), 3_000);
    assert_eq!(paid_to("bob"), 1_000);
    let (total, periods) = query_participant_rewards(&state, Ok(addr("alice")), 1, 1).unwrap();
    assert_eq!(total, 3_000);
    assert_eq!(periods, 1);
}

#[test]
fn weighted_score_of_one_participant() {
    let state = setup_contract();
    let score = ActivityScore {
        address: addr("a"),
        period: 1,
        credit_purchase_value: 10_000,
        credit_retirement_value: 10_000,
        platform_facilitation_value: 10_000,
        governance_votes: 2,
        proposal_credits: 4,
    };
    // 3000 + 3000 + 2000 from the values, plus 1000 * 1_000_000 * 2/4 and
    // 1000 * 1_000_000 * 4/4 for votes and credits against maxima 4 and 4,
    // divided by 10_000.
    let w = calculate_weighted_score(&state.config, &score, 4, 4);
    assert_eq!(w, 8_000 + 50_000 + 100_000);
    assert_eq!(period_maxima(&vec![score]), (2, 4));
}

#[test]
fn distribution_needs_activity_and_inflow() {
    let mut state = initialized();
    assert_eq!(
        execute_trigger_distribution(&mut state, &addr("admin"), now(), 0).err().unwrap(),
        RewardsError::ZeroInflow
    );
    // A period without participants still closes, paying nobody.
    let out = execute_trigger_distribution(&mut state, &addr("admin"), now(), 10).ok().unwrap();
    assert_eq!(out.transfers.len(), 0);
    assert_eq!(out.participants, 0);
    assert_eq!(state.mechanism.current_period, 2);
}

#[test]
fn coin_and_admin_checks() {
    let state = setup_contract();
    let denom = DENOM.to_string();
    assert_eq!(extract_single_coin(&coins(9), &denom), Ok(9));
    assert_eq!(extract_single_coin(&vec![], &denom), Err(RewardsError::NoFundsAttached));
    assert_eq!(
        extract_single_coin(&vec![Coin { denom: "uatom".to_string(), amount: 1 }], &denom),
        Err(RewardsError::WrongDenom { expected: denom.clone(), got: "uatom".to_string() })
    );
    assert_eq!(require_admin(&state.config, &addr("x")), Err(RewardsError::Unauthorized { action: Action::Administer }));
    assert!(require_admin(&state.config, &addr("admin")).is_ok());
    assert!(query_distribution_record(&state, 1).is_none());
    assert_eq!(
        query_activity_score(&state, Err("bad".to_string()), 1).err().unwrap(),
        RewardsError::InvalidAddress { address: "bad".to_string() }
    );
}

#[test]
fn distribution_refusal_matches_distribution() {
    let mut state = initialized();
    record(&mut state, "alice", 1_000_000, 500_000, 200_000, 5, 100);
    assert_eq!(may_distribute(&state, &addr("admin"), 0), Err(RewardsError::ZeroInflow));
    assert!(matches!(may_distribute(&state, &addr("alice"), 10), Err(RewardsError::Unauthorized { .. })));
    assert_eq!(may_distribute(&state, &addr("admin"), 10_000_000), Ok(()));
    execute_trigger_distribution(&mut state, &addr("admin"), now(), 10_000_000).ok().unwrap();
    assert_eq!(state.mechanism.current_period, 2);
    assert_eq!(may_distribute(&state, &addr("admin"), 10_000_000), Ok(()));
}
