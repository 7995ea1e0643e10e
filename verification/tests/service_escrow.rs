use cosmwasm_std::testing::MockApi;
use regen_contracts::money::Coin;
use regen_contracts::service_escrow::{
    execute_accept, execute_approve_milestone, execute_cancel, execute_dispute_milestone, execute_fund,
    execute_propose, execute_resolve_dispute, execute_revise_milestone, execute_start, execute_submit_milestone,
    execute_update_config, find_dispute, instantiate, load_agreement, may_approve, may_resolve_dispute, must_pay,
    query_agreements,
    query_agreements_by_client, query_agreements_by_provider, query_escrow_balance, remaining_escrow,
    validate_bond_ratio, validate_fee_rate, Action, AgreementStatus, ConfigUpdate, DisputeResolution, EscrowError,
    EscrowState, Expected, InstantiateMsg, MilestoneInput, MilestoneStatus, ServiceAgreement,
};

const DENOM: &str = "uregen";
const NOW: u64 = 1_571_797_419_879_305_533;

fn addr(input: &str) -> String {
    MockApi::default().addr_make(input).to_string()
}

fn coin(amount: u128, denom: &str) -> Coin {
    Coin { denom: denom.to_string(), amount }
}

fn default_msg() -> InstantiateMsg {
    InstantiateMsg {
        arbiter_dao: Ok(addr("arbiter_dao")),
        community_pool: Ok(addr("community_pool")),
        provider_bond_ratio_bps: None,
        platform_fee_rate_bps: None,
        cancellation_fee_rate_bps: None,
        arbiter_fee_rate_bps: None,
        review_period_seconds: None,
        max_milestones: None,
        max_revisions: None,
        denom: DENOM.to_string(),
    }
}

fn setup_contract() -> EscrowState {
    instantiate(&addr("admin"), default_msg()).ok().unwrap()
}

fn milestones_3() -> Vec<MilestoneInput> {
    vec![
        MilestoneInput { description: "Phase 1: Assessment".to_string(), payment_amount: 3000 },
        MilestoneInput { description: "Phase 2: Implementation".to_string(), payment_amount: 5000 },
        MilestoneInput { description: "Phase 3: Final Report".to_string(), payment_amount: 2000 },
    ]
}

fn propose(state: &mut EscrowState, client: &String, provider: &String, ms: Vec<MilestoneInput>) -> Result<u64, EscrowError> {
    execute_propose(
        state,
        client,
        NOW,
        Ok(provider.clone()),
        "ProjectVerification".to_string(),
        "Verify carbon credits".to_string(),
        ms,
    )
    .map(|(id, _, _)| id)
}

fn propose_agreement(state: &mut EscrowState, client: &String, provider: &String) -> u64 {
    propose(state, client, provider, milestones_3()).unwrap()
}

fn fund_and_accept(state: &mut EscrowState, id: u64, provider: &String) {
    execute_accept(state, provider, NOW, &vec![coin(1000, DENOM)], id).unwrap();
}

fn fund_escrow(state: &mut EscrowState, id: u64, client: &String) {
    execute_fund(state, client, NOW, &vec![coin(10000, DENOM)], id).unwrap();
}

fn start_agreement(state: &mut EscrowState, id: u64, client: &String) {
    execute_start(state, client, NOW, id).unwrap();
}

fn agreement<'a>(state: &'a EscrowState, id: u64) -> &'a ServiceAgreement {
    let i = load_agreement(state, id).unwrap();
    &state.agreements[i]
}

/// An agreement in progress whose first milestone the client disputed.
fn disputed() -> (EscrowState, u64) {
    let mut state = setup_contract();
    let client = addr("client");
    let provider = addr("provider");
    let id = propose_agreement(&mut state, &client, &provider);
    fund_and_accept(&mut state, id, &provider);
    fund_escrow(&mut state, id, &client);
    start_agreement(&mut state, id, &client);
    execute_submit_milestone(&mut state, &provider, NOW, id, 0, "regen:iri/x".to_string()).unwrap();
    execute_dispute_milestone(&mut state, &client, NOW, id, 0, "Bad".to_string()).unwrap();
    (state, id)
}

fn in_progress() -> (EscrowState, u64) {
    let mut state = setup_contract();
    let client = addr("client");
    let provider = addr("provider");
    let id = propose_agreement(&mut state, &client, &provider);
    fund_and_accept(&mut state, id, &provider);
    fund_escrow(&mut state, id, &client);
    start_agreement(&mut state, id, &client);
    (state, id)
}

fn no_update() -> ConfigUpdate {
    ConfigUpdate {
        arbiter_dao: None,
        community_pool: None,
        provider_bond_ratio_bps: None,
        platform_fee_rate_bps: None,
        cancellation_fee_rate_bps: None,
        arbiter_fee_rate_bps: None,
        review_period_seconds: None,
        max_milestones: None,
        max_revisions: None,
    }
}

#[test]
fn contract_test_instantiate() {
    let state = setup_contract();
    let config = &state.config;
    assert_eq!(config.admin, addr("admin"));
    assert_eq!(config.provider_bond_ratio_bps, 1000);
    assert_eq!(config.platform_fee_rate_bps, 100);
    assert_eq!(config.cancellation_fee_rate_bps, 200);
    assert_eq!(config.arbiter_fee_rate_bps, 500);
    assert_eq!(config.review_period_seconds, 1_209_600);
    assert_eq!(config.max_milestones, 20);
    assert_eq!(config.max_revisions, 3);
    assert_eq!(config.denom, DENOM);
}

#[test]
fn test_instantiate_custom_params() {
    let msg = InstantiateMsg {
        arbiter_dao: Ok(addr("arbiter")),
        community_pool: Ok(addr("pool")),
        provider_bond_ratio_bps: Some(1500),
        platform_fee_rate_bps: Some(200),
        cancellation_fee_rate_bps: Some(300),
        arbiter_fee_rate_bps: Some(1000),
        review_period_seconds: Some(604800),
        max_milestones: Some(10),
        max_revisions: Some(5),
        denom: "ustake".to_string(),
    };
    let state = instantiate(&addr("admin"), msg).ok().unwrap();
    assert_eq!(state.config.provider_bond_ratio_bps, 1500);
    assert_eq!(state.config.platform_fee_rate_bps, 200);
    assert_eq!(state.config.max_milestones, 10);
    assert_eq!(state.config.denom, "ustake");
}

#[test]
fn test_instantiate_invalid_bond_ratio() {
    let msg = InstantiateMsg { provider_bond_ratio_bps: Some(100), ..default_msg() };
    let err = instantiate(&addr("admin"), msg).err().unwrap();
    assert!(matches!(err, EscrowError::BondRatioOutOfRange { .. }));
}

#[test]
fn test_propose_agreement() {
    let mut state = setup_contract();
    let id = propose_agreement(&mut state, &addr("client"), &addr("provider"));
    assert_eq!(id, 1);
    let a = agreement(&state, 1);
    assert_eq!(a.status, AgreementStatus::Proposed);
    assert_eq!(a.escrow_amount, 10000);
    assert_eq!(a.provider_bond, 1000);
    assert_eq!(a.milestones.len(), 3);
    assert_eq!(a.current_milestone, 0);
    assert!(!a.provider_accepted);
    assert!(!a.client_funded);
}

#[test]
fn test_propose_self_agreement_fails() {
    let mut state = setup_contract();
    let client = addr("client");
    let err = propose(&mut state, &client, &client, milestones_3()).unwrap_err();
    assert!(matches!(err, EscrowError::SelfAgreement));
}

#[test]
fn test_propose_too_many_milestones() {
    let mut state = setup_contract();
    let many: Vec<MilestoneInput> =
        (0..21).map(|i| MilestoneInput { description: format!("M{}", i), payment_amount: 100 }).collect();
    let err = propose(&mut state, &addr("client"), &addr("provider"), many).unwrap_err();
    assert!(matches!(err, EscrowError::InvalidMilestoneCount { max: 20, got: 21 }));
}

#[test]
fn test_propose_zero_milestones() {
    let mut state = setup_contract();
    let err = propose(&mut state, &addr("client"), &addr("provider"), vec![]).unwrap_err();
    assert!(matches!(err, EscrowError::InvalidMilestoneCount { .. }));
}

#[test]
fn test_accept_agreement() {
    let mut state = setup_contract();
    let provider = addr("provider");
    let id = propose_agreement(&mut state, &addr("client"), &provider);
    execute_accept(&mut state, &provider, NOW, &vec![coin(1000, DENOM)], id).unwrap();
    let a = agreement(&state, id);
    assert!(a.provider_accepted);
    assert_eq!(a.status, AgreementStatus::Proposed);
}

#[test]
fn test_accept_insufficient_bond() {
    let mut state = setup_contract();
    let provider = addr("provider");
    let id = propose_agreement(&mut state, &addr("client"), &provider);
    let err = execute_accept(&mut state, &provider, NOW, &vec![coin(500, DENOM)], id).unwrap_err();
    assert!(matches!(err, EscrowError::InsufficientFunds { .. }));
}

#[test]
fn test_accept_wrong_sender() {
    let mut state = setup_contract();
    let id = propose_agreement(&mut state, &addr("client"), &addr("provider"));
    let err = execute_accept(&mut state, &addr("rando"), NOW, &vec![coin(1000, DENOM)], id).unwrap_err();
    assert!(matches!(err, EscrowError::Unauthorized { .. }));
}

#[test]
fn test_fund_and_accept_transitions_to_funded() {
    let mut state = setup_contract();
    let client = addr("client");
    let provider = addr("provider");
    let id = propose_agreement(&mut state, &client, &provider);
    fund_escrow(&mut state, id, &client);
    assert_eq!(agreement(&state, id).status, AgreementStatus::Proposed);
    assert!(agreement(&state, id).client_funded);
    fund_and_accept(&mut state, id, &provider);
    assert_eq!(agreement(&state, id).status, AgreementStatus::Funded);
}

#[test]
fn test_happy_path_3_milestones() {
    let (mut state, id) = in_progress();
    let client = addr("client");
    let provider = addr("provider");
    for ms_idx in 0..3u32 {
        execute_submit_milestone(&mut state, &provider, NOW, id, ms_idx, format!("regen:iri/phase{}", ms_idx)).unwrap();
        execute_approve_milestone(&mut state, &client, NOW, id, ms_idx).unwrap();
    }
    let a = agreement(&state, id);
    assert_eq!(a.status, AgreementStatus::Completed);
    assert!(a.completed_at.is_some());
}

#[test]
fn test_cancel_proposed() {
    let mut state = setup_contract();
    let client = addr("client");
    let id = propose_agreement(&mut state, &client, &addr("provider"));
    execute_cancel(&mut state, &client, NOW, id).unwrap();
    assert_eq!(agreement(&state, id).status, AgreementStatus::Cancelled);
}

#[test]
fn test_cancel_funded_applies_fee() {
    let mut state = setup_contract();
    let client = addr("client");
    let provider = addr("provider");
    let id = propose_agreement(&mut state, &client, &provider);
    fund_and_accept(&mut state, id, &provider);
    fund_escrow(&mut state, id, &client);
    let transfers = execute_cancel(&mut state, &client, NOW, id).unwrap();
    assert_eq!(transfers.len(), 3);
    assert_eq!(agreement(&state, id).status, AgreementStatus::Cancelled);
}

#[test]
fn test_cancel_in_progress_fails() {
    let (mut state, id) = in_progress();
    let err = execute_cancel(&mut state, &addr("client"), NOW, id).unwrap_err();
    assert!(matches!(err, EscrowError::InvalidStatus { .. }));
}

#[test]
fn test_dispute_client_wins() {
    let (mut state, id) = disputed();
    assert_eq!(agreement(&state, id).status, AgreementStatus::Disputed);
    let d = find_dispute(&state.disputes, id);
    assert!(d.is_some());
    assert_eq!(state.disputes[d.unwrap()].milestone_index, 0);
    let transfers =
        execute_resolve_dispute(&mut state, &addr("arbiter_dao"), NOW, id, DisputeResolution::ClientWins).unwrap();
    assert!(!transfers.is_empty());
    assert_eq!(agreement(&state, id).status, AgreementStatus::Completed);
}

#[test]
fn test_dispute_provider_wins() {
    let (mut state, id) = disputed();
    execute_resolve_dispute(&mut state, &addr("arbiter_dao"), NOW, id, DisputeResolution::ProviderWins).unwrap();
    let a = agreement(&state, id);
    assert_eq!(a.status, AgreementStatus::InProgress);
    assert_eq!(a.current_milestone, 1);
}

#[test]
fn test_dispute_split() {
    let (mut state, id) = disputed();
    let transfers = execute_resolve_dispute(
        &mut state,
        &addr("arbiter_dao"),
        NOW,
        id,
        DisputeResolution::Split { client_percent: 60 },
    )
    .unwrap();
    assert!(!transfers.is_empty());
    assert_eq!(agreement(&state, id).status, AgreementStatus::Completed);
}

#[test]
fn test_dispute_invalid_split_percent() {
    let (mut state, id) = disputed();
    let err = execute_resolve_dispute(
        &mut state,
        &addr("arbiter_dao"),
        NOW,
        id,
        DisputeResolution::Split { client_percent: 100 },
    )
    .unwrap_err();
    assert!(matches!(err, EscrowError::InvalidSplitPercent { got: 100 }));
}

#[test]
fn test_dispute_unauthorized_resolver() {
    let (mut state, id) = disputed();
    let err = execute_resolve_dispute(&mut state, &addr("rando"), NOW, id, DisputeResolution::ClientWins).unwrap_err();
    assert!(matches!(err, EscrowError::Unauthorized { .. }));
}

#[test]
fn test_revise_milestone() {
    let (mut state, id) = in_progress();
    let provider = addr("provider");
    execute_submit_milestone(&mut state, &provider, NOW, id, 0, "regen:iri/v1".to_string()).unwrap();
    execute_revise_milestone(&mut state, &provider, NOW, id, 0, "regen:iri/v2".to_string()).unwrap();
    let a = agreement(&state, id);
    assert_eq!(a.milestones[0].revision_count, 1);
    assert_eq!(a.milestones[0].deliverable_iri, Some("regen:iri/v2".to_string()));
}

#[test]
fn test_max_revisions_exceeded() {
    let (mut state, id) = in_progress();
    let provider = addr("provider");
    execute_submit_milestone(&mut state, &provider, NOW, id, 0, "regen:iri/v1".to_string()).unwrap();
    for i in 2..=5 {
        let result = execute_revise_milestone(&mut state, &provider, NOW, id, 0, format!("regen:iri/v{}", i));
        if i <= 4 {
            result.unwrap();
        } else {
            let err = result.unwrap_err();
            assert!(matches!(err, EscrowError::MaxRevisionsExceeded { .. }));
        }
    }
}

#[test]
fn test_submit_wrong_milestone_index() {
    let (mut state, id) = in_progress();
    let err = execute_submit_milestone(&mut state, &addr("provider"), NOW, id, 1, "regen:iri/wrong".to_string())
        .unwrap_err();
    assert!(matches!(err, EscrowError::InvalidMilestoneIndex { .. }));
}

#[test]
fn test_query_escrow_balance() {
    let (state, id) = in_progress();
    let balance = query_escrow_balance(&state, id).unwrap_or_else(|| panic!("no balance"));
    assert_eq!(balance.escrow_amount, 10000);
    assert_eq!(balance.provider_bond, 1000);
    assert_eq!(balance.total_released, 0);
    assert_eq!(balance.remaining_escrow, 10000);
    assert_eq!(state.config.denom, DENOM);
}

#[test]
fn test_query_agreements_by_client() {
    let mut state = setup_contract();
    let client = addr("client");
    propose_agreement(&mut state, &client, &addr("provider1"));
    propose_agreement(&mut state, &client, &addr("provider2"));
    let ids = query_agreements_by_client(&state, Ok(client), None, None).unwrap();
    assert_eq!(ids.len(), 2);
}

#[test]
fn test_query_agreements_by_provider() {
    let mut state = setup_contract();
    let provider = addr("provider");
    propose_agreement(&mut state, &addr("client1"), &provider);
    propose_agreement(&mut state, &addr("client2"), &provider);
    let ids = query_agreements_by_provider(&state, Ok(provider), None, None).unwrap();
    assert_eq!(ids.len(), 2);
}

#[test]
fn test_query_agreements_by_status() {
    let mut state = setup_contract();
    let client = addr("client");
    let id1 = propose_agreement(&mut state, &client, &addr("provider1"));
    propose_agreement(&mut state, &client, &addr("provider2"));
    execute_cancel(&mut state, &client, NOW, id1).unwrap();
    assert_eq!(query_agreements(&state, Some(AgreementStatus::Proposed), None, None).len(), 1);
    assert_eq!(query_agreements(&state, Some(AgreementStatus::Cancelled), None, None).len(), 1);
}

#[test]
fn test_query_no_dispute() {
    let mut state = setup_contract();
    let id = propose_agreement(&mut state, &addr("client"), &addr("provider"));
    assert!(find_dispute(&state.disputes, id).is_none());
}

#[test]
fn test_query_agreement_not_found() {
    let state = setup_contract();
    assert!(load_agreement(&state, 99).is_err());
}

#[test]
fn contract_test_update_config() {
    let mut state = setup_contract();
    let update = ConfigUpdate {
        provider_bond_ratio_bps: Some(1500),
        platform_fee_rate_bps: Some(200),
        review_period_seconds: Some(604800),
        max_milestones: Some(15),
        max_revisions: Some(5),
        ..no_update()
    };
    execute_update_config(&mut state, &addr("admin"), update).unwrap();
    assert_eq!(state.config.provider_bond_ratio_bps, 1500);
    assert_eq!(state.config.platform_fee_rate_bps, 200);
    assert_eq!(state.config.review_period_seconds, 604800);
    assert_eq!(state.config.max_milestones, 15);
    assert_eq!(state.config.max_revisions, 5);
}

#[test]
fn contract_test_update_config_unauthorized() {
    let mut state = setup_contract();
    let update = ConfigUpdate { provider_bond_ratio_bps: Some(1500), ..no_update() };
    let err = execute_update_config(&mut state, &addr("rando"), update).unwrap_err();
    assert!(matches!(err, EscrowError::Unauthorized { .. }));
}

#[test]
fn test_double_dispute_fails() {
    let (mut state, id) = disputed();
    let err = execute_dispute_milestone(&mut state, &addr("client"), NOW, id, 0, "Really bad".to_string()).unwrap_err();
    assert!(matches!(err, EscrowError::InvalidStatus { .. }));
}

#[test]
fn test_escrow_balance_after_approval() {
    let (mut state, id) = in_progress();
    execute_submit_milestone(&mut state, &addr("provider"), NOW, id, 0, "regen:iri/m0".to_string()).unwrap();
    execute_approve_milestone(&mut state, &addr("client"), NOW, id, 0).unwrap();
    let balance = query_escrow_balance(&state, id).unwrap_or_else(|| panic!("no balance"));
    assert_eq!(balance.total_released, 2970);
    assert_eq!(balance.total_fees, 30);
    assert_eq!(balance.remaining_escrow, 7000);
}

#[test]
fn test_provider_can_cancel_proposed() {
    let mut state = setup_contract();
    let provider = addr("provider");
    let id = propose_agreement(&mut state, &addr("client"), &provider);
    execute_cancel(&mut state, &provider, NOW, id).unwrap();
    assert_eq!(agreement(&state, id).status, AgreementStatus::Cancelled);
}

#[test]
fn test_agreement_ids_increment() {
    let mut state = setup_contract();
    let client = addr("client");
    assert_eq!(propose_agreement(&mut state, &client, &addr("p1")), 1);
    assert_eq!(propose_agreement(&mut state, &client, &addr("p2")), 2);
    assert_eq!(propose_agreement(&mut state, &client, &addr("p3")), 3);
}

#[test]
fn test_query_agreements_pagination() {
    let mut state = setup_contract();
    let client = addr("client");
    for i in 0..5 {
        propose_agreement(&mut state, &client, &addr(&format!("provider{}", i)));
    }
    assert_eq!(query_agreements(&state, None, None, Some(2)), vec![1, 2]);
    assert_eq!(query_agreements(&state, None, Some(2), Some(2)), vec![3, 4]);
}

#[test]
fn test_fund_wrong_denom() {
    let mut state = setup_contract();
    let client = addr("client");
    let id = propose_agreement(&mut state, &client, &addr("provider"));
    let err = execute_fund(&mut state, &client, NOW, &vec![coin(10000, "uatom")], id).unwrap_err();
    assert!(matches!(err, EscrowError::WrongDenom { .. }));
}

// ── Further cases ──────────────────────────────────────────────────────

#[test]
fn bond_and_fee_ranges() {
    assert!(validate_bond_ratio(500).is_ok());
    assert!(validate_bond_ratio(2500).is_ok());
    assert_eq!(validate_bond_ratio(2501), Err(EscrowError::BondRatioOutOfRange { value: 2501, min: 500, max: 2500 }));
    assert_eq!(validate_fee_rate(600, 0, 500, "platform"), Err(EscrowError::FeeRateOutOfRange { value: 600, min: 0, max: 500 }));
}

#[test]
fn must_pay_needs_one_coin_of_the_denom() {
    let denom = DENOM.to_string();
    assert_eq!(must_pay(&vec![coin(7, DENOM)], &denom), Ok(7));
    assert_eq!(must_pay(&vec![], &denom), Err(EscrowError::CoinCount { denom: denom.clone(), count: 0 }));
    assert_eq!(
        must_pay(&vec![coin(1, DENOM), coin(2, DENOM)], &denom),
        Err(EscrowError::CoinCount { denom: denom.clone(), count: 2 })
    );
    assert_eq!(
        must_pay(&vec![coin(1, "uatom")], &denom),
        Err(EscrowError::WrongDenom { expected: denom.clone(), got: "uatom".to_string() })
    );
}

#[test]
fn approval_pays_provider_less_platform_fee() {
    let (mut state, id) = in_progress();
    execute_submit_milestone(&mut state, &addr("provider"), NOW, id, 0, "regen:iri/m0".to_string()).unwrap();
    let transfers = execute_approve_milestone(&mut state, &addr("client"), NOW, id, 0).unwrap();
    let to_provider: u128 = transfers.iter().filter(|t| t.to == addr("provider")).map(|t| t.amount).sum();
    let to_pool: u128 = transfers.iter().filter(|t| t.to == addr("community_pool")).map(|t| t.amount).sum();
    assert_eq!(to_provider, 2970);
    assert_eq!(to_pool, 30);
    assert_eq!(agreement(&state, id).milestones[0].status, MilestoneStatus::Approved);
    assert_eq!(remaining_escrow(agreement(&state, id)), 7000);
}

#[test]
fn completed_agreement_returns_the_bond() {
    let (mut state, id) = in_progress();
    let client = addr("client");
    let provider = addr("provider");
    let mut total_to_provider: u128 = 0;
    for ms_idx in 0..3u32 {
        execute_submit_milestone(&mut state, &provider, NOW, id, ms_idx, format!("iri/{}", ms_idx)).unwrap();
        let transfers = execute_approve_milestone(&mut state, &client, NOW, id, ms_idx).unwrap();
        total_to_provider += transfers.iter().filter(|t| t.to == provider).map(|t| t.amount).sum::<u128>();
    }
    // 9900 of payments net of the 1% fee, plus the 1000 bond.
    assert_eq!(total_to_provider, 9900 + 1000);
}

#[test]
fn refused_actions_name_what_was_expected() {
    let mut state = setup_contract();
    let client = addr("client");
    let id = propose_agreement(&mut state, &client, &addr("provider"));
    assert_eq!(
        execute_start(&mut state, &client, NOW, id),
        Err(EscrowError::InvalidStatus { expected: Expected::Funded, actual: AgreementStatus::Proposed })
    );
    assert_eq!(
        execute_start(&mut state, &addr("rando"), NOW, id),
        Err(EscrowError::Unauthorized { action: Action::Start })
    );
    assert_eq!(execute_fund(&mut state, &client, NOW, &vec![coin(1, DENOM)], 5), Err(EscrowError::AgreementNotFound { id: 5 }));
}

#[test]
fn invalid_addresses_are_reported() {
    let mut state = setup_contract();
    let err = execute_propose(
        &mut state,
        &addr("client"),
        NOW,
        Err("bogus".to_string()),
        "t".to_string(),
        "d".to_string(),
        milestones_3(),
    )
    .unwrap_err();
    assert_eq!(err, EscrowError::InvalidAddress { address: "bogus".to_string() });
    assert_eq!(
        query_agreements_by_client(&state, Err("x".to_string()), None, None),
        Err(EscrowError::InvalidAddress { address: "x".to_string() })
    );
}

#[test]
fn zero_payment_milestones_are_refused() {
    let mut state = setup_contract();
    let ms = vec![MilestoneInput { description: "free".to_string(), payment_amount: 0 }];
    assert_eq!(propose(&mut state, &addr("client"), &addr("provider"), ms), Err(EscrowError::ZeroEscrow));
}

#[test]
fn escrow_status_names() {
    assert_eq!(AgreementStatus::MilestoneReview.label(), "MilestoneReview");
    assert_eq!(MilestoneStatus::Revised.label(), "Revised");
}

#[test]
fn dispute_pays_out_once() {
    let (mut state, id) = disputed();
    assert_eq!(may_resolve_dispute(&state, &addr("arbiter_dao"), id, DisputeResolution::ClientWins), Ok(()));
    assert!(matches!(
        may_resolve_dispute(&state, &addr("rando"), id, DisputeResolution::ClientWins),
        Err(EscrowError::Unauthorized { .. })
    ));
    execute_resolve_dispute(&mut state, &addr("arbiter_dao"), NOW, id, DisputeResolution::ClientWins).unwrap();
    let err = execute_resolve_dispute(&mut state, &addr("arbiter_dao"), NOW, id, DisputeResolution::ProviderWins)
        .unwrap_err();
    assert_eq!(err, EscrowError::InvalidStatus { expected: Expected::Disputed, actual: AgreementStatus::Completed });
}

#[test]
fn approval_refusal_matches_approval() {
    let (state, id) = in_progress();
    let err = may_approve(&state, &addr("client"), id, 0).unwrap_err();
    assert!(matches!(err, EscrowError::InvalidStatus { .. }));
    assert!(matches!(may_approve(&state, &addr("provider"), id, 0), Err(EscrowError::Unauthorized { .. })));
}
