use cosmwasm_std::testing::{mock_env, MockApi};
use regen_contracts::credit_class_voting::{
    execute_cast_vote, execute_finalize_proposal, execute_override_agent_reject, execute_submit_agent_score,
    execute_submit_proposal, execute_update_config, instantiate, load_proposal, query_proposals,
    query_proposals_by_admin, Action, AgentRecommendation, ConfigUpdate, Expected, InstantiateMsg, Proposal,
    ProposalStatus, ScoreOutcome, VotingError, VotingState,
};
use regen_contracts::money::Coin;

const DENOM: &str = "uregen";
const DEPOSIT: u128 = 1_000_000_000;
const NANOS: u64 = 1_000_000_000;
const IRI: &str = "regen:13toVfvC2YxrrfSXWB5h2BGHiC9iJ8j7kp9KXcPoPMKH3p4TvG3r8Fh";

fn addr(input: &str) -> String {
    MockApi::default().addr_make(input).to_string()
}

fn now() -> u64 {
    mock_env().block.time.nanos()
}

fn base_time() -> u64 {
    mock_env().block.time.seconds()
}

fn at(seconds: u64) -> u64 {
    seconds * NANOS
}

fn setup_contract() -> VotingState {
    let msg = InstantiateMsg {
        registry_agent: Ok(addr("agent")),
        deposit_amount: Some(DEPOSIT),
        denom: Some(DENOM.to_string()),
        voting_period_seconds: Some(604_800),
        agent_review_timeout_seconds: Some(86_400),
        override_window_seconds: Some(21_600),
    };
    instantiate(&addr("admin"), msg).ok().unwrap()
}

fn submit(state: &mut VotingState, proposer: &String, funds: Vec<Coin>) -> Result<u64, VotingError> {
    execute_submit_proposal(state, proposer, now(), &funds, Ok(proposer.clone()), "C".to_string(), IRI.to_string())
}

fn submit_proposal(state: &mut VotingState, proposer: &String) -> u64 {
    submit(state, proposer, vec![Coin { denom: DENOM.to_string(), amount: DEPOSIT }]).unwrap()
}

fn agent_score(
    state: &mut VotingState,
    id: u64,
    score: u32,
    confidence: u32,
    recommendation: AgentRecommendation,
) -> ScoreOutcome {
    execute_submit_agent_score(state, &addr("agent"), now(), id, score, confidence, recommendation).unwrap()
}

fn proposal<'a>(state: &'a VotingState, id: u64) -> &'a Proposal {
    let i = load_proposal(state, id).unwrap();
    &state.proposals[i]
}

#[test]
fn voting_test_instantiate() {
    let state = setup_contract();
    let config = &state.config;
    assert_eq!(config.admin, addr("admin"));
    assert_eq!(config.registry_agent, addr("agent"));
    assert_eq!(config.deposit_amount, DEPOSIT);
    assert_eq!(config.denom, DENOM);
    assert_eq!(config.voting_period_seconds, 604_800);
    assert_eq!(config.agent_review_timeout_seconds, 86_400);
    assert_eq!(config.override_window_seconds, 21_600);
}

#[test]
fn test_submit_proposal() {
    let mut state = setup_contract();
    let proposer = addr("proposer");
    let id = submit_proposal(&mut state, &proposer);
    assert_eq!(id, 1);
    let p = proposal(&state, 1);
    assert_eq!(p.status, ProposalStatus::AgentReview);
    assert_eq!(p.proposer, proposer);
    assert_eq!(p.credit_type, "C");
    assert_eq!(p.deposit_amount, DEPOSIT);
    assert_eq!(p.yes_votes, 0);
    assert_eq!(p.no_votes, 0);
}

#[test]
fn test_agent_score_auto_advance() {
    let mut state = setup_contract();
    let id = submit_proposal(&mut state, &addr("proposer"));
    let outcome = agent_score(&mut state, id, 800, 950, AgentRecommendation::Approve);
    assert_eq!(outcome, ScoreOutcome::AutoAdvanceHighScore);
    let p = proposal(&state, id);
    assert_eq!(p.status, ProposalStatus::Voting);
    assert_eq!(p.agent_score, Some(800));
    assert_eq!(p.agent_confidence, Some(950));
    assert_eq!(p.agent_recommendation, Some(AgentRecommendation::Approve));
    assert!(p.voting_ends_at.is_some());
}

#[test]
fn test_agent_auto_reject_and_override() {
    let mut state = setup_contract();
    let id = submit_proposal(&mut state, &addr("proposer"));
    let base = base_time();
    execute_submit_agent_score(&mut state, &addr("agent"), at(base), id, 150, 950, AgentRecommendation::Reject)
        .unwrap();
    assert_eq!(proposal(&state, id).status, ProposalStatus::AutoRejected);

    let err = execute_override_agent_reject(&mut state, &addr("rando"), at(base + 100), id).unwrap_err();
    assert!(matches!(err, VotingError::Unauthorized { .. }));

    execute_override_agent_reject(&mut state, &addr("admin"), at(base + 100), id).unwrap();
    let p = proposal(&state, id);
    assert_eq!(p.status, ProposalStatus::Voting);
    assert!(p.voting_ends_at.is_some());
}

#[test]
fn test_voting_and_finalize_approve() {
    let mut state = setup_contract();
    let id = submit_proposal(&mut state, &addr("proposer"));
    agent_score(&mut state, id, 750, 900, AgentRecommendation::Approve);
    let base = base_time();

    execute_cast_vote(&mut state, &addr("voter1"), at(base + 100), id, true).unwrap();
    execute_cast_vote(&mut state, &addr("voter2"), at(base + 200), id, true).unwrap();
    execute_cast_vote(&mut state, &addr("voter3"), at(base + 300), id, false).unwrap();

    let err = execute_cast_vote(&mut state, &addr("voter1"), at(base + 400), id, false).unwrap_err();
    assert!(matches!(err, VotingError::AlreadyVoted { .. }));

    let err = execute_finalize_proposal(&mut state, at(base + 500), id).unwrap_err();
    assert!(matches!(err, VotingError::VotingPeriodNotEnded));

    let transfers = execute_finalize_proposal(&mut state, at(base + 604_800 + 1), id).unwrap();
    assert_eq!(transfers.len(), 1);
    let p = proposal(&state, id);
    assert_eq!(p.status, ProposalStatus::Approved);
    assert_eq!(p.yes_votes, 2);
    assert_eq!(p.no_votes, 1);
    assert!(p.completed_at.is_some());
}

#[test]
fn test_voting_and_finalize_reject() {
    let mut state = setup_contract();
    let id = submit_proposal(&mut state, &addr("proposer"));
    agent_score(&mut state, id, 500, 700, AgentRecommendation::Conditional);
    let base = base_time();

    execute_cast_vote(&mut state, &addr("v1"), at(base + 100), id, true).unwrap();
    execute_cast_vote(&mut state, &addr("v2"), at(base + 200), id, false).unwrap();
    execute_cast_vote(&mut state, &addr("v3"), at(base + 300), id, false).unwrap();

    let transfers = execute_finalize_proposal(&mut state, at(base + 604_800 + 1), id).unwrap();
    assert_eq!(proposal(&state, id).status, ProposalStatus::Rejected);
    assert_eq!(transfers.len(), 1);
}

#[test]
fn test_override_window_expired() {
    let mut state = setup_contract();
    let id = submit_proposal(&mut state, &addr("proposer"));
    let base = base_time();
    execute_submit_agent_score(&mut state, &addr("agent"), at(base), id, 100, 950, AgentRecommendation::Reject)
        .unwrap();
    let err = execute_override_agent_reject(&mut state, &addr("admin"), at(base + 21_601), id).unwrap_err();
    assert!(matches!(err, VotingError::OverrideWindowExpired));
}

#[test]
fn test_agent_score_unauthorized() {
    let mut state = setup_contract();
    let id = submit_proposal(&mut state, &addr("proposer"));
    let err = execute_submit_agent_score(&mut state, &addr("rando"), now(), id, 800, 900, AgentRecommendation::Approve)
        .unwrap_err();
    assert!(matches!(err, VotingError::Unauthorized { .. }));
}

#[test]
fn test_submit_proposal_insufficient_funds() {
    let mut state = setup_contract();
    let err = submit(&mut state, &addr("proposer"), vec![Coin { denom: DENOM.to_string(), amount: 100 }]).unwrap_err();
    assert!(matches!(err, VotingError::InsufficientFunds { .. }));
}

#[test]
fn test_middle_score_advances_to_voting() {
    let mut state = setup_contract();
    let id = submit_proposal(&mut state, &addr("proposer"));
    let outcome = agent_score(&mut state, id, 450, 600, AgentRecommendation::Conditional);
    assert_eq!(outcome, ScoreOutcome::AdvanceToVoting);
    assert_eq!(proposal(&state, id).status, ProposalStatus::Voting);
}

#[test]
fn test_update_config() {
    let mut state = setup_contract();
    let update = ConfigUpdate {
        registry_agent: Some(Ok(addr("new_agent"))),
        deposit_amount: Some(500_000_000),
        voting_period_seconds: Some(300_000),
        agent_review_timeout_seconds: None,
        override_window_seconds: None,
    };
    execute_update_config(&mut state, &addr("admin"), update).unwrap();
    assert_eq!(state.config.registry_agent, addr("new_agent"));
    assert_eq!(state.config.deposit_amount, 500_000_000);
    assert_eq!(state.config.voting_period_seconds, 300_000);
    assert_eq!(state.config.agent_review_timeout_seconds, 86_400);
    assert_eq!(state.config.override_window_seconds, 21_600);
}

#[test]
fn test_update_config_unauthorized() {
    let mut state = setup_contract();
    let update = ConfigUpdate {
        registry_agent: None,
        deposit_amount: None,
        voting_period_seconds: None,
        agent_review_timeout_seconds: None,
        override_window_seconds: None,
    };
    let err = execute_update_config(&mut state, &addr("rando"), update).unwrap_err();
    assert!(matches!(err, VotingError::Unauthorized { .. }));
}

#[test]
fn test_query_proposals_by_status() {
    let mut state = setup_contract();
    submit_proposal(&mut state, &addr("p1"));
    let id2 = submit_proposal(&mut state, &addr("p2"));
    agent_score(&mut state, id2, 800, 900, AgentRecommendation::Approve);
    assert_eq!(query_proposals(&state, Some(ProposalStatus::AgentReview), None, None), vec![1]);
    assert_eq!(query_proposals(&state, Some(ProposalStatus::Voting), None, None), vec![2]);
}

#[test]
fn test_proposal_ids_increment() {
    let mut state = setup_contract();
    assert_eq!(submit_proposal(&mut state, &addr("p1")), 1);
    assert_eq!(submit_proposal(&mut state, &addr("p2")), 2);
    assert_eq!(submit_proposal(&mut state, &addr("p3")), 3);
}

#[test]
fn test_finalize_expired_no_votes() {
    let mut state = setup_contract();
    let id = submit_proposal(&mut state, &addr("proposer"));
    agent_score(&mut state, id, 600, 700, AgentRecommendation::Conditional);
    execute_finalize_proposal(&mut state, at(base_time() + 604_800 + 1), id).unwrap();
    assert_eq!(proposal(&state, id).status, ProposalStatus::Expired);
}

// ── Further cases ──────────────────────────────────────────────────────

#[test]
fn finalize_refunds_deposit_less_slash() {
    // Approved: the whole deposit back; rejected: 80%; expired: 95%.
    for (votes, expected) in [(vec![true], DEPOSIT), (vec![false], DEPOSIT * 8 / 10), (vec![], DEPOSIT * 95 / 100)] {
        let mut state = setup_contract();
        let proposer = addr("proposer");
        let id = submit_proposal(&mut state, &proposer);
        agent_score(&mut state, id, 600, 700, AgentRecommendation::Conditional);
        for (k, yes) in votes.iter().enumerate() {
            execute_cast_vote(&mut state, &addr(&format!("voter{}", k)), at(base_time() + 10), id, *yes).unwrap();
        }
        let transfers = execute_finalize_proposal(&mut state, at(base_time() + 604_801), id).unwrap();
        assert_eq!(transfers.len(), 1);
        assert_eq!(transfers[0].to, proposer);
        assert_eq!(transfers[0].denom, DENOM);
        assert_eq!(transfers[0].amount, expected);
    }
}

#[test]
fn low_score_with_high_confidence_auto_rejects() {
    let mut state = setup_contract();
    let id = submit_proposal(&mut state, &addr("proposer"));
    let outcome = agent_score(&mut state, id, 299, 901, AgentRecommendation::Reject);
    assert_eq!(outcome, ScoreOutcome::AutoRejectLowScoreHighConfidence);
    assert_eq!(proposal(&state, id).status, ProposalStatus::AutoRejected);
}

#[test]
fn score_and_confidence_bounds() {
    let mut state = setup_contract();
    let id = submit_proposal(&mut state, &addr("proposer"));
    assert_eq!(
        execute_submit_agent_score(&mut state, &addr("agent"), now(), id, 1001, 500, AgentRecommendation::Approve),
        Err(VotingError::InvalidAgentScore { score: 1001 })
    );
    assert_eq!(
        execute_submit_agent_score(&mut state, &addr("agent"), now(), id, 500, 1001, AgentRecommendation::Approve),
        Err(VotingError::InvalidAgentConfidence { confidence: 1001 })
    );
    assert_eq!(
        execute_submit_agent_score(&mut state, &addr("agent"), now(), 9, 500, 500, AgentRecommendation::Approve),
        Err(VotingError::ProposalNotFound { id: 9 })
    );
}

#[test]
fn submission_errors() {
    let mut state = setup_contract();
    let p = addr("p");
    let deposit = vec![Coin { denom: DENOM.to_string(), amount: DEPOSIT }];
    assert_eq!(
        execute_submit_proposal(&mut state, &p, now(), &deposit, Ok(p.clone()), "".to_string(), IRI.to_string()),
        Err(VotingError::EmptyCreditType)
    );
    assert_eq!(
        execute_submit_proposal(&mut state, &p, now(), &deposit, Ok(p.clone()), "C".to_string(), "".to_string()),
        Err(VotingError::EmptyMethodologyIri)
    );
    assert_eq!(
        execute_submit_proposal(&mut state, &p, now(), &deposit, Err("bad".to_string()), "C".to_string(), IRI.to_string()),
        Err(VotingError::InvalidAddress { address: "bad".to_string() })
    );
    let wrong = vec![Coin { denom: DENOM.to_string(), amount: DEPOSIT }, Coin { denom: "uatom".to_string(), amount: 1 }];
    assert!(matches!(submit(&mut state, &p, wrong), Err(VotingError::WrongDenom { .. })));
}

#[test]
fn voting_closes_at_period_end() {
    let mut state = setup_contract();
    let id = submit_proposal(&mut state, &addr("proposer"));
    agent_score(&mut state, id, 800, 900, AgentRecommendation::Approve);
    assert_eq!(
        execute_cast_vote(&mut state, &addr("late"), at(base_time() + 604_801), id, true),
        Err(VotingError::VotingPeriodEnded)
    );
    let id2 = submit_proposal(&mut state, &addr("other"));
    assert_eq!(
        execute_cast_vote(&mut state, &addr("v"), now(), id2, true),
        Err(VotingError::InvalidStatus { expected: Expected::Voting, actual: ProposalStatus::AgentReview })
    );
    assert_eq!(
        execute_override_agent_reject(&mut state, &addr("admin"), now(), id2),
        Err(VotingError::InvalidStatus { expected: Expected::AutoRejected, actual: ProposalStatus::AgentReview })
    );
    let _ = Action::SubmitScore;
}

#[test]
fn proposals_by_admin_address() {
    let mut state = setup_contract();
    submit_proposal(&mut state, &addr("p1"));
    submit_proposal(&mut state, &addr("p2"));
    assert_eq!(query_proposals_by_admin(&state, Ok(addr("p2")), None, None), Ok(vec![2]));
    assert_eq!(
        query_proposals_by_admin(&state, Err("x".to_string()), None, None),
        Err(VotingError::InvalidAddress { address: "x".to_string() })
    );
}

#[test]
fn voting_names() {
    assert_eq!(ProposalStatus::AutoRejected.label(), "AutoRejected");
    assert_eq!(AgentRecommendation::Conditional.label(), "Conditional");
}

#[test]
fn voting_end_follows_status() {
    let mut state = setup_contract();
    let id = submit_proposal(&mut state, &addr("proposer"));
    assert_eq!(proposal(&state, id).status, ProposalStatus::AgentReview);
    assert!(proposal(&state, id).voting_ends_at.is_none());
    let base = base_time();
    execute_submit_agent_score(&mut state, &addr("agent"), at(base), id, 150, 950, AgentRecommendation::Reject)
        .unwrap();
    let p = proposal(&state, id);
    assert_eq!(p.status, ProposalStatus::AutoRejected);
    assert!(p.voting_ends_at.is_none());
    assert!(p.agent_scored_at.is_some());
}
