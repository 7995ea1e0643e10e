use cosmwasm_std::testing::MockApi;
use regen_contracts::money::Coin;
use regen_contracts::reputation_signal::{
    exec_activate_signal, exec_add_arbiter, exec_escalate_challenge, exec_invalidate_signal,
    exec_remove_arbiter, exec_resolve_challenge, exec_set_category_min_stake, exec_submit_challenge,
    exec_submit_signal, exec_update_config, exec_withdraw_signal, instantiate, load_challenge, load_signal,
    query_active_challenges, query_category_min_stake, query_score_inputs, query_signals_by_subject,
    subject_key, ConfigUpdate, Evidence, InstantiateMsg, ReputationError, ReputationScoreResponse,
    ReputationState, SignalStatus, SubjectType,
};

const NANOS: u64 = 1_000_000_000;

fn addr(label: &str) -> String {
    MockApi::default().addr_make(label).to_string()
}

fn admin() -> String {
    addr("admin")
}

fn signaler_a() -> String {
    addr("signaler_a")
}

fn signaler_b() -> String {
    addr("signaler_b")
}

fn challenger() -> String {
    addr("challenger")
}

fn arbiter() -> String {
    addr("arbiter")
}

fn at(seconds: u64) -> u64 {
    seconds * NANOS
}

fn default_instantiate_msg() -> InstantiateMsg {
    InstantiateMsg {
        admin: Ok(admin()),
        activation_delay_seconds: Some(100),
        challenge_window_seconds: Some(10_000),
        resolution_deadline_seconds: Some(1_000),
        challenge_bond_denom: Some("uregen".to_string()),
        challenge_bond_amount: Some(0),
        decay_half_life_seconds: Some(1_000_000),
        default_min_stake: Some(0),
    }
}

fn setup() -> ReputationState {
    match instantiate(default_instantiate_msg()) {
        Ok(s) => s,
        Err(e) => panic!("instantiate failed: {:?}", e),
    }
}

fn default_evidence() -> Evidence {
    Evidence {
        koi_links: vec!["koi://note/test".to_string()],
        ledger_refs: vec!["ledger://tx/1".to_string()],
        web_links: vec![],
    }
}

fn web_only_evidence() -> Evidence {
    Evidence { koi_links: vec![], ledger_refs: vec![], web_links: vec!["https://example.com".to_string()] }
}

fn submit(state: &mut ReputationState, sender: &String, level: u8, time: u64) -> Result<u64, ReputationError> {
    exec_submit_signal(
        state,
        sender,
        at(time),
        &vec![],
        SubjectType::Project,
        "P-001".to_string(),
        "quality".to_string(),
        level,
        default_evidence(),
    )
}

fn submit_signal(state: &mut ReputationState, sender: &String, level: u8, time: u64) -> u64 {
    submit(state, sender, level, time).unwrap()
}

fn activate_signal(state: &mut ReputationState, id: u64, time: u64) {
    exec_activate_signal(state, at(time), id).unwrap();
}

const RATIONALE: &str =
    "This endorsement is based on outdated information that no longer applies to the project.";

fn challenge(
    state: &mut ReputationState,
    sender: &String,
    time: u64,
    signal_id: u64,
    rationale: &str,
    funds: Vec<Coin>,
) -> Result<u64, ReputationError> {
    exec_submit_challenge(state, sender, at(time), &funds, signal_id, rationale.to_string(), default_evidence())
}

fn status_of(state: &ReputationState, id: u64) -> SignalStatus {
    let i = load_signal(state, id).unwrap();
    state.signals[i].status
}

/// The decay-weighted average of endorsement levels, scaled to 0..=1000,
/// computed from the library's score inputs.
fn score(state: &ReputationState, time: u64) -> ReputationScoreResponse {
    let inputs =
        query_score_inputs(state, SubjectType::Project, &"P-001".to_string(), &"quality".to_string());
    let lambda = (2.0_f64).ln() / state.config.decay_half_life_seconds as f64;
    let mut w_sum = 0.0_f64;
    let mut d_sum = 0.0_f64;
    for s in &inputs.contributing {
        let age = time.saturating_sub(s.submitted_at / NANOS) as f64;
        let decay = (-lambda * age).exp();
        w_sum += (s.endorsement_level as f64 / 5.0) * decay;
        d_sum += decay;
    }
    let s01 = if d_sum > 0.0 { w_sum / d_sum } else { 0.0 };
    ReputationScoreResponse {
        score: (s01 * 1000.0).round().min(1000.0) as u64,
        contributing_signals: inputs.contributing.len() as u32,
        total_signals: inputs.total_signals,
    }
}

fn no_update() -> ConfigUpdate {
    ConfigUpdate {
        activation_delay_seconds: None,
        challenge_window_seconds: None,
        resolution_deadline_seconds: None,
        challenge_bond_denom: None,
        challenge_bond_amount: None,
        decay_half_life_seconds: None,
        default_min_stake: None,
    }
}

#[test]
fn tests_test_instantiate() {
    let state = setup();
    assert_eq!(state.config.admin, admin());
    assert_eq!(state.config.activation_delay_seconds, 100);
    assert_eq!(state.config.challenge_window_seconds, 10_000);
    assert_eq!(state.config.resolution_deadline_seconds, 1_000);
}

#[test]
fn test_submit_signal() {
    let mut state = setup();
    let id = submit_signal(&mut state, &signaler_a(), 4, 1_000_000);
    assert_eq!(id, 1);
    let i = load_signal(&state, 1).unwrap();
    assert_eq!(state.signals[i].endorsement_level, 4);
    assert!(matches!(state.signals[i].status, SignalStatus::Submitted));
    assert_eq!(state.signals[i].signaler, signaler_a());
}

#[test]
fn test_invalid_endorsement_level_zero() {
    let mut state = setup();
    let err = submit(&mut state, &signaler_a(), 0, 1_000_000).unwrap_err();
    assert_eq!(err, ReputationError::InvalidEndorsementLevel { level: 0 });
}

#[test]
fn test_invalid_endorsement_level_six() {
    let mut state = setup();
    let err = submit(&mut state, &signaler_a(), 6, 1_000_000).unwrap_err();
    assert_eq!(err, ReputationError::InvalidEndorsementLevel { level: 6 });
}

#[test]
fn test_submit_signal_no_evidence() {
    let mut state = setup();
    let err = exec_submit_signal(
        &mut state,
        &signaler_a(),
        at(1_000_000),
        &vec![],
        SubjectType::Project,
        "P-001".to_string(),
        "quality".to_string(),
        3,
        web_only_evidence(),
    )
    .unwrap_err();
    assert_eq!(err, ReputationError::InsufficientEvidence);
}

#[test]
fn test_activate_signal_before_delay() {
    let mut state = setup();
    submit_signal(&mut state, &signaler_a(), 4, 1_000_000);
    let err = exec_activate_signal(&mut state, at(1_000_050), 1).unwrap_err();
    assert_eq!(err, ReputationError::SignalNotYetActive { id: 1 });
}

#[test]
fn test_activate_signal_after_delay() {
    let mut state = setup();
    submit_signal(&mut state, &signaler_a(), 4, 1_000_000);
    activate_signal(&mut state, 1, 1_000_101);
    assert!(matches!(status_of(&state, 1), SignalStatus::Active));
}

#[test]
fn test_submitted_signal_does_not_score() {
    let mut state = setup();
    submit_signal(&mut state, &signaler_a(), 5, 1_000_000);
    let res = score(&state, 1_000_000);
    assert_eq!(res.score, 0);
    assert_eq!(res.contributing_signals, 0);
    assert_eq!(res.total_signals, 1);
}

#[test]
fn test_reputation_score_single_signal() {
    let mut state = setup();
    submit_signal(&mut state, &signaler_a(), 4, 1_000_000);
    activate_signal(&mut state, 1, 1_000_101);
    let res = score(&state, 1_000_101);
    assert_eq!(res.score, 800);
    assert_eq!(res.contributing_signals, 1);
}

#[test]
fn test_reputation_score_multiple_signals() {
    let mut state = setup();
    submit_signal(&mut state, &signaler_a(), 5, 1_000_000);
    activate_signal(&mut state, 1, 1_000_101);
    submit_signal(&mut state, &signaler_b(), 3, 1_000_000);
    activate_signal(&mut state, 2, 1_000_101);
    let res = score(&state, 1_000_101);
    assert_eq!(res.score, 800);
    assert_eq!(res.contributing_signals, 2);
}

#[test]
fn test_withdraw_signal() {
    let mut state = setup();
    submit_signal(&mut state, &signaler_a(), 4, 1_000_000);
    activate_signal(&mut state, 1, 1_000_101);
    exec_withdraw_signal(&mut state, &signaler_a(), 1).unwrap();
    let res = score(&state, 1_000_200);
    assert_eq!(res.score, 0);
    assert_eq!(res.contributing_signals, 0);
}

#[test]
fn test_withdraw_not_owner() {
    let mut state = setup();
    submit_signal(&mut state, &signaler_a(), 4, 1_000_000);
    let err = exec_withdraw_signal(&mut state, &signaler_b(), 1).unwrap_err();
    assert_eq!(err, ReputationError::NotSignalOwner { id: 1 });
}

#[test]
fn test_submit_challenge() {
    let mut state = setup();
    submit_signal(&mut state, &signaler_a(), 4, 1_000_000);
    activate_signal(&mut state, 1, 1_000_101);
    challenge(&mut state, &challenger(), 1_000_200, 1, RATIONALE, vec![]).unwrap();
    assert!(matches!(status_of(&state, 1), SignalStatus::Challenged));
    assert_eq!(score(&state, 1_000_200).score, 0);
}

#[test]
fn test_challenge_self_signal() {
    let mut state = setup();
    submit_signal(&mut state, &signaler_a(), 4, 1_000_000);
    activate_signal(&mut state, 1, 1_000_101);
    let err = challenge(
        &mut state,
        &signaler_a(),
        1_000_200,
        1,
        "I am challenging my own signal for some reason that I should not be able to.",
        vec![],
    )
    .unwrap_err();
    assert_eq!(err, ReputationError::SelfChallenge);
}

#[test]
fn test_challenge_no_evidence() {
    let mut state = setup();
    submit_signal(&mut state, &signaler_a(), 4, 1_000_000);
    activate_signal(&mut state, 1, 1_000_101);
    let err = exec_submit_challenge(
        &mut state,
        &challenger(),
        at(1_000_200),
        &vec![],
        1,
        RATIONALE.to_string(),
        web_only_evidence(),
    )
    .unwrap_err();
    assert_eq!(err, ReputationError::InsufficientEvidence);
}

#[test]
fn test_challenge_rationale_too_short() {
    let mut state = setup();
    submit_signal(&mut state, &signaler_a(), 4, 1_000_000);
    activate_signal(&mut state, 1, 1_000_101);
    let err = challenge(&mut state, &challenger(), 1_000_200, 1, "Too short", vec![]).unwrap_err();
    assert_eq!(err, ReputationError::RationaleTooShort);
}

#[test]
fn test_challenge_expired_window() {
    let mut state = setup();
    submit_signal(&mut state, &signaler_a(), 4, 1_000_000);
    activate_signal(&mut state, 1, 1_000_101);
    let err = challenge(&mut state, &challenger(), 1_010_001, 1, RATIONALE, vec![]).unwrap_err();
    assert_eq!(err, ReputationError::ChallengeWindowExpired { id: 1 });
}

#[test]
fn test_challenge_withdrawn_signal() {
    let mut state = setup();
    submit_signal(&mut state, &signaler_a(), 4, 1_000_000);
    activate_signal(&mut state, 1, 1_000_101);
    exec_withdraw_signal(&mut state, &signaler_a(), 1).unwrap();
    let err = challenge(&mut state, &challenger(), 1_000_300, 1, RATIONALE, vec![]).unwrap_err();
    assert_eq!(err, ReputationError::SignalNotChallengeable { id: 1 });
}

#[test]
fn test_challenge_already_challenged() {
    let mut state = setup();
    submit_signal(&mut state, &signaler_a(), 4, 1_000_000);
    activate_signal(&mut state, 1, 1_000_101);
    challenge(&mut state, &challenger(), 1_000_200, 1, RATIONALE, vec![]).unwrap();
    let err = challenge(
        &mut state,
        &addr("another_challenger"),
        1_000_300,
        1,
        "Another challenge on the same signal which should not be allowed because one is pending.",
        vec![],
    )
    .unwrap_err();
    assert_eq!(err, ReputationError::SignalAlreadyChallenged { id: 1 });
}

#[test]
fn test_challenge_during_submitted_state() {
    let mut state = setup();
    submit_signal(&mut state, &signaler_a(), 5, 1_000_000);
    challenge(
        &mut state,
        &challenger(),
        1_000_050,
        1,
        "This signal was submitted by a known bad actor and should be challenged before activation.",
        vec![],
    )
    .unwrap();
    assert!(matches!(status_of(&state, 1), SignalStatus::Challenged));
}

#[test]
fn test_cannot_withdraw_while_challenged() {
    let mut state = setup();
    submit_signal(&mut state, &signaler_a(), 4, 1_000_000);
    activate_signal(&mut state, 1, 1_000_101);
    challenge(&mut state, &challenger(), 1_000_200, 1, RATIONALE, vec![]).unwrap();
    let err = exec_withdraw_signal(&mut state, &signaler_a(), 1).unwrap_err();
    assert_eq!(err, ReputationError::WithdrawWhileChallenged { id: 1 });
}

#[test]
fn test_resolve_challenge_valid() {
    let mut state = setup();
    submit_signal(&mut state, &signaler_a(), 4, 1_000_000);
    activate_signal(&mut state, 1, 1_000_101);
    challenge(&mut state, &challenger(), 1_000_200, 1, RATIONALE, vec![]).unwrap();
    exec_resolve_challenge(&mut state, &admin(), 1, true, "Signal verified correct.".to_string()).unwrap();
    assert!(matches!(status_of(&state, 1), SignalStatus::ResolvedValid));
    assert_eq!(score(&state, 1_000_500).score, 800);
}

#[test]
fn test_resolve_challenge_invalid() {
    let mut state = setup();
    submit_signal(&mut state, &signaler_a(), 5, 1_000_000);
    activate_signal(&mut state, 1, 1_000_101);
    challenge(
        &mut state,
        &challenger(),
        1_000_200,
        1,
        "This endorsement is based on false claims that have been conclusively disproven by audit.",
        vec![],
    )
    .unwrap();
    exec_resolve_challenge(&mut state, &admin(), 1, false, "Confirmed invalid.".to_string()).unwrap();
    assert!(matches!(status_of(&state, 1), SignalStatus::ResolvedInvalid));
    assert_eq!(score(&state, 1_000_500).score, 0);
}

#[test]
fn test_resolve_by_arbiter() {
    let mut state = setup();
    submit_signal(&mut state, &signaler_a(), 4, 1_000_000);
    activate_signal(&mut state, 1, 1_000_101);
    exec_add_arbiter(&mut state, &admin(), Ok(arbiter())).unwrap();
    challenge(&mut state, &challenger(), 1_000_200, 1, RATIONALE, vec![]).unwrap();
    exec_resolve_challenge(&mut state, &arbiter(), 1, true, "Signal verified by arbiter.".to_string()).unwrap();
    assert!(matches!(status_of(&state, 1), SignalStatus::ResolvedValid));
}

#[test]
fn test_resolve_by_unauthorized() {
    let mut state = setup();
    submit_signal(&mut state, &signaler_a(), 4, 1_000_000);
    activate_signal(&mut state, 1, 1_000_101);
    challenge(&mut state, &challenger(), 1_000_200, 1, RATIONALE, vec![]).unwrap();
    let err = exec_resolve_challenge(&mut state, &addr("random"), 1, true, "Unauthorized resolution attempt.".to_string())
        .unwrap_err();
    assert_eq!(err, ReputationError::NotResolver);
}

#[test]
fn test_escalate_after_deadline() {
    let mut state = setup();
    submit_signal(&mut state, &signaler_a(), 4, 1_000_000);
    activate_signal(&mut state, 1, 1_000_101);
    challenge(&mut state, &challenger(), 1_000_200, 1, RATIONALE, vec![]).unwrap();
    let err = exec_escalate_challenge(&mut state, at(1_001_100), 1).unwrap_err();
    assert_eq!(err, ReputationError::DeadlineNotExceeded { id: 1 });
    exec_escalate_challenge(&mut state, at(1_001_201), 1).unwrap();
    assert!(matches!(status_of(&state, 1), SignalStatus::Escalated));
    assert_eq!(score(&state, 1_001_201).score, 0);
}

#[test]
fn test_admin_invalidate() {
    let mut state = setup();
    submit_signal(&mut state, &signaler_a(), 4, 1_000_000);
    activate_signal(&mut state, 1, 1_000_101);
    exec_invalidate_signal(&mut state, &admin(), 1, "Administrative override due to policy violation.".to_string())
        .unwrap();
    assert!(matches!(status_of(&state, 1), SignalStatus::Invalidated));
    assert_eq!(score(&state, 1_000_200).score, 0);
}

#[test]
fn test_invalidate_not_admin() {
    let mut state = setup();
    submit_signal(&mut state, &signaler_a(), 4, 1_000_000);
    let err = exec_invalidate_signal(&mut state, &signaler_b(), 1, "Unauthorized invalidation attempt.".to_string())
        .unwrap_err();
    assert_eq!(err, ReputationError::Unauthorized);
}

#[test]
fn test_invalidate_no_rationale() {
    let mut state = setup();
    submit_signal(&mut state, &signaler_a(), 4, 1_000_000);
    let err = exec_invalidate_signal(&mut state, &admin(), 1, "".to_string()).unwrap_err();
    assert_eq!(err, ReputationError::InvalidationRationaleRequired);
}

#[test]
fn test_multi_signal_partial_challenge() {
    let mut state = setup();
    submit_signal(&mut state, &signaler_a(), 5, 1_000_000);
    activate_signal(&mut state, 1, 1_000_101);
    submit_signal(&mut state, &signaler_b(), 3, 1_000_000);
    activate_signal(&mut state, 2, 1_000_101);
    assert_eq!(score(&state, 1_000_101).score, 800);

    challenge(
        &mut state,
        &challenger(),
        1_000_200,
        2,
        "Signal B is based on incorrect methodology assessment and should be challenged.",
        vec![],
    )
    .unwrap();
    let res = score(&state, 1_000_200);
    assert_eq!(res.score, 1000);
    assert_eq!(res.contributing_signals, 1);

    exec_resolve_challenge(&mut state, &admin(), 1, true, "Methodology confirmed correct.".to_string()).unwrap();
    let res = score(&state, 1_000_500);
    assert_eq!(res.score, 800);
    assert_eq!(res.contributing_signals, 2);
}

#[test]
fn tests_test_update_config() {
    let mut state = setup();
    let update = ConfigUpdate { activation_delay_seconds: Some(200), challenge_bond_amount: Some(1000), ..no_update() };
    exec_update_config(&mut state, &admin(), update).unwrap();
    assert_eq!(state.config.activation_delay_seconds, 200);
    assert_eq!(state.config.challenge_bond_amount, 1000);
}

#[test]
fn test_update_config_not_admin() {
    let mut state = setup();
    let update = ConfigUpdate { activation_delay_seconds: Some(200), ..no_update() };
    let err = exec_update_config(&mut state, &signaler_a(), update).unwrap_err();
    assert_eq!(err, ReputationError::Unauthorized);
}

#[test]
fn test_set_category_min_stake() {
    let mut state = setup();
    exec_set_category_min_stake(&mut state, &admin(), "quality".to_string(), 5000).unwrap();
    assert_eq!(query_category_min_stake(&state, &"quality".to_string()), 5000);
}

#[test]
fn test_add_remove_arbiter() {
    let mut state = setup();
    exec_add_arbiter(&mut state, &admin(), Ok(arbiter())).unwrap();
    assert_eq!(state.config.arbiters.len(), 1);
    assert_eq!(state.config.arbiters[0], arbiter());
    exec_remove_arbiter(&mut state, &admin(), Ok(arbiter())).unwrap();
    assert_eq!(state.config.arbiters.len(), 0);
}

#[test]
fn test_query_active_challenges() {
    let mut state = setup();
    submit_signal(&mut state, &signaler_a(), 4, 1_000_000);
    activate_signal(&mut state, 1, 1_000_101);
    submit_signal(&mut state, &signaler_b(), 3, 1_000_000);
    activate_signal(&mut state, 2, 1_000_101);
    challenge(&mut state, &challenger(), 1_000_200, 1, RATIONALE, vec![]).unwrap();
    let ids = query_active_challenges(&state, None, None);
    assert_eq!(ids.len(), 1);
    let c = load_challenge(&state, ids[0]).unwrap();
    assert_eq!(state.challenges[c].signal_id, 1);
}

#[test]
fn test_query_signals_by_subject() {
    let mut state = setup();
    submit_signal(&mut state, &signaler_a(), 4, 1_000_000);
    submit_signal(&mut state, &signaler_b(), 3, 1_000_000);
    let ids = query_signals_by_subject(&state, SubjectType::Project, &"P-001".to_string(), &"quality".to_string());
    assert_eq!(ids.len(), 2);
}

#[test]
fn test_challenge_bond_required() {
    let mut state = setup();
    let update =
        ConfigUpdate { challenge_bond_denom: Some("uregen".to_string()), challenge_bond_amount: Some(1000), ..no_update() };
    exec_update_config(&mut state, &admin(), update).unwrap();
    submit_signal(&mut state, &signaler_a(), 4, 1_000_000);
    activate_signal(&mut state, 1, 1_000_101);
    let err = challenge(&mut state, &challenger(), 1_000_200, 1, RATIONALE, vec![]).unwrap_err();
    assert_eq!(err, ReputationError::InsufficientBond { required: 1000, sent: 0 });
    challenge(
        &mut state,
        &challenger(),
        1_000_200,
        1,
        RATIONALE,
        vec![Coin { denom: "uregen".to_string(), amount: 1000 }],
    )
    .unwrap();
}

#[test]
fn test_full_lifecycle_invalid() {
    let mut state = setup();
    let id = submit_signal(&mut state, &signaler_a(), 5, 1_000_000);
    assert_eq!(id, 1);
    activate_signal(&mut state, 1, 1_000_101);
    assert_eq!(score(&state, 1_000_101).score, 1000);
    challenge(
        &mut state,
        &challenger(),
        1_000_200,
        1,
        "This signal was submitted with fabricated evidence and should be invalidated.",
        vec![],
    )
    .unwrap();
    assert_eq!(score(&state, 1_000_200).score, 0);
    exec_resolve_challenge(&mut state, &admin(), 1, false, "Fabricated evidence confirmed.".to_string()).unwrap();
    let res = score(&state, 1_000_500);
    assert_eq!(res.score, 0);
    assert_eq!(res.contributing_signals, 0);
}

// ── Further cases ──────────────────────────────────────────────────────

#[test]
fn subject_key_joins_type_id_and_category() {
    assert_eq!(subject_key(&SubjectType::Project, "P-001", "quality"), "Project:P-001:quality");
    assert_eq!(subject_key(&SubjectType::CreditClass, "C01", "integrity"), "CreditClass:C01:integrity");
}

#[test]
fn instantiate_defaults_and_bad_admin() {
    let msg = InstantiateMsg {
        admin: Ok(admin()),
        activation_delay_seconds: None,
        challenge_window_seconds: None,
        resolution_deadline_seconds: None,
        challenge_bond_denom: None,
        challenge_bond_amount: None,
        decay_half_life_seconds: None,
        default_min_stake: None,
    };
    let state = instantiate(msg).ok().unwrap();
    assert_eq!(state.config.activation_delay_seconds, 86_400);
    assert_eq!(state.config.challenge_window_seconds, 15_552_000);
    assert_eq!(state.config.resolution_deadline_seconds, 1_209_600);
    assert_eq!(state.config.challenge_bond_denom, "uregen");
    assert_eq!(state.config.decay_half_life_seconds, 1_209_600);
    let bad = InstantiateMsg { admin: Err("bogus".to_string()), ..default_instantiate_msg() };
    assert_eq!(instantiate(bad).err().unwrap(), ReputationError::InvalidAddress { address: "bogus".to_string() });
}

#[test]
fn terminal_signal_refuses_every_transition() {
    let mut state = setup();
    submit_signal(&mut state, &signaler_a(), 4, 1_000_000);
    exec_withdraw_signal(&mut state, &signaler_a(), 1).unwrap();
    assert!(status_of(&state, 1).is_terminal());
    assert_eq!(exec_withdraw_signal(&mut state, &signaler_a(), 1).unwrap_err(), ReputationError::SignalTerminal { id: 1 });
    assert_eq!(
        exec_invalidate_signal(&mut state, &admin(), 1, "policy".to_string()).unwrap_err(),
        ReputationError::SignalTerminal { id: 1 }
    );
    assert_eq!(exec_activate_signal(&mut state, at(2_000_000), 1).unwrap_err(), ReputationError::SignalNotYetActive { id: 1 });
    assert!(matches!(status_of(&state, 1), SignalStatus::Withdrawn));
}

#[test]
fn unknown_ids_are_reported() {
    let mut state = setup();
    assert_eq!(exec_activate_signal(&mut state, at(1), 7).unwrap_err(), ReputationError::SignalNotFound { id: 7 });
    assert_eq!(
        exec_resolve_challenge(&mut state, &admin(), 3, true, "x".to_string()).unwrap_err(),
        ReputationError::ChallengeNotFound { id: 3 }
    );
    assert_eq!(exec_escalate_challenge(&mut state, at(1), 3).unwrap_err(), ReputationError::ChallengeNotFound { id: 3 });
}

#[test]
fn settled_challenge_is_not_pending() {
    let mut state = setup();
    submit_signal(&mut state, &signaler_a(), 4, 1_000_000);
    challenge(&mut state, &challenger(), 1_000_010, 1, RATIONALE, vec![]).unwrap();
    exec_resolve_challenge(&mut state, &admin(), 1, true, "ok".to_string()).unwrap();
    assert_eq!(
        exec_resolve_challenge(&mut state, &admin(), 1, false, "again".to_string()).unwrap_err(),
        ReputationError::ChallengeNotPending { id: 1 }
    );
    assert_eq!(exec_escalate_challenge(&mut state, at(2_000_000), 1).unwrap_err(), ReputationError::ChallengeNotPending { id: 1 });
}

#[test]
fn rejected_signal_returns_bond_to_challenger() {
    let mut state = setup();
    let update = ConfigUpdate { challenge_bond_amount: Some(1000), ..no_update() };
    exec_update_config(&mut state, &admin(), update).unwrap();
    submit_signal(&mut state, &signaler_a(), 4, 1_000_000);
    challenge(&mut state, &challenger(), 1_000_010, 1, RATIONALE, vec![Coin { denom: "uregen".to_string(), amount: 1500 }])
        .unwrap();
    let transfers = exec_resolve_challenge(&mut state, &admin(), 1, false, "bad".to_string()).unwrap();
    assert_eq!(transfers.len(), 1);
    assert_eq!(transfers[0].to, challenger());
    assert_eq!(transfers[0].denom, "uregen");
    assert_eq!(transfers[0].amount, 1000);
}

#[test]
fn arbiter_changes_need_admin_and_valid_address() {
    let mut state = setup();
    assert_eq!(exec_add_arbiter(&mut state, &signaler_a(), Ok(arbiter())).unwrap_err(), ReputationError::Unauthorized);
    assert_eq!(
        exec_add_arbiter(&mut state, &admin(), Err("nope".to_string())).unwrap_err(),
        ReputationError::InvalidAddress { address: "nope".to_string() }
    );
    assert_eq!(
        exec_set_category_min_stake(&mut state, &signaler_a(), "quality".to_string(), 1).unwrap_err(),
        ReputationError::Unauthorized
    );
    assert_eq!(query_category_min_stake(&state, &"other".to_string()), 0);
}

#[test]
fn signals_of_other_subjects_are_not_counted() {
    let mut state = setup();
    submit_signal(&mut state, &signaler_a(), 4, 1_000_000);
    exec_submit_signal(
        &mut state,
        &signaler_b(),
        at(1_000_000),
        &vec![],
        SubjectType::Project,
        "P-002".to_string(),
        "quality".to_string(),
        2,
        default_evidence(),
    )
    .unwrap();
    assert_eq!(query_signals_by_subject(&state, SubjectType::Project, &"P-002".to_string(), &"quality".to_string()), vec![2]);
    assert_eq!(query_signals_by_subject(&state, SubjectType::Verifier, &"P-001".to_string(), &"quality".to_string()).len(), 0);
}

#[test]
fn submit_requires_minimum_stake() {
    let mut state = setup();
    exec_set_category_min_stake(&mut state, &admin(), "quality".to_string(), 5000).unwrap();
    assert_eq!(
        submit(&mut state, &signaler_a(), 4, 1_000_000),
        Err(ReputationError::InsufficientBond { required: 5000, sent: 0 })
    );
    assert!(state.signals.is_empty());
    let short = vec![Coin { denom: "uregen".to_string(), amount: 4999 }];
    let staked = vec![Coin { denom: "uregen".to_string(), amount: 5000 }];
    let other_denom = vec![Coin { denom: "uatom".to_string(), amount: 9000 }];
    let submit_with = |state: &mut ReputationState, funds: &Vec<Coin>| {
        exec_submit_signal(
            state,
            &signaler_a(),
            at(1_000_000),
            funds,
            SubjectType::Project,
            "P-001".to_string(),
            "quality".to_string(),
            4,
            default_evidence(),
        )
    };
    assert_eq!(submit_with(&mut state, &short), Err(ReputationError::InsufficientBond { required: 5000, sent: 4999 }));
    assert_eq!(
        submit_with(&mut state, &other_denom),
        Err(ReputationError::InsufficientBond { required: 5000, sent: 0 })
    );
    assert_eq!(submit_with(&mut state, &staked), Ok(1));
}

#[test]
fn default_minimum_stake_applies_to_other_categories() {
    let mut msg = default_instantiate_msg();
    msg.default_min_stake = Some(100);
    let mut state = instantiate(msg).unwrap();
    assert_eq!(
        submit(&mut state, &signaler_a(), 4, 1_000_000),
        Err(ReputationError::InsufficientBond { required: 100, sent: 0 })
    );
    exec_set_category_min_stake(&mut state, &admin(), "quality".to_string(), 0).unwrap();
    assert_eq!(submit(&mut state, &signaler_a(), 4, 1_000_000), Ok(1));
}

#[test]
fn invalidated_signal_stays_invalidated_when_challenge_settles() {
    let mut state = setup();
    submit_signal(&mut state, &signaler_a(), 4, 1_000_000);
    activate_signal(&mut state, 1, 1_000_101);
    challenge(&mut state, &challenger(), 1_000_200, 1, RATIONALE, vec![]).unwrap();
    exec_invalidate_signal(&mut state, &admin(), 1, "Administrative override due to policy violation.".to_string())
        .unwrap();
    assert_eq!(exec_escalate_challenge(&mut state, at(1_001_201), 1), Err(ReputationError::SignalTerminal { id: 1 }));
    assert!(matches!(status_of(&state, 1), SignalStatus::Invalidated));
    exec_resolve_challenge(&mut state, &admin(), 1, true, "Signal upheld after review.".to_string()).unwrap();
    assert!(matches!(status_of(&state, 1), SignalStatus::Invalidated));
    assert_eq!(score(&state, 1_001_300).score, 0);
    assert!(query_active_challenges(&state, None, None).is_empty());
}

#[test]
fn challenged_exactly_while_pending() {
    let mut state = setup();
    submit_signal(&mut state, &signaler_a(), 4, 1_000_000);
    activate_signal(&mut state, 1, 1_000_101);
    assert!(query_active_challenges(&state, None, None).is_empty());
    challenge(&mut state, &challenger(), 1_000_200, 1, RATIONALE, vec![]).unwrap();
    assert!(matches!(status_of(&state, 1), SignalStatus::Challenged));
    assert_eq!(query_active_challenges(&state, None, None), vec![1]);
    exec_escalate_challenge(&mut state, at(1_001_201), 1).unwrap();
    assert!(matches!(status_of(&state, 1), SignalStatus::Escalated));
    assert_eq!(query_active_challenges(&state, None, None), vec![1]);
    exec_resolve_challenge(&mut state, &admin(), 1, false, "Signal found invalid after review.".to_string()).unwrap();
    assert!(matches!(status_of(&state, 1), SignalStatus::ResolvedInvalid));
    assert!(query_active_challenges(&state, None, None).is_empty());
}
