use cosmwasm_std::testing::{mock_env, MockApi};
use regen_contracts::attestation_bonding as ab;
use regen_contracts::credit_class_voting as ccv;
use regen_contracts::marketplace_curation as mc;
use regen_contracts::money::{Coin, Transfer};
use regen_contracts::service_escrow as se;

const DENOM: &str = "uregen";
const NANOS: u64 = 1_000_000_000;

fn addr(label: &str) -> String {
    MockApi::default().addr_make(label).to_string()
}

fn coins(amount: u128) -> Vec<Coin> {
    vec![Coin { denom: DENOM.to_string(), amount }]
}

/// A block clock that starts at the mock environment's time.
struct Clock {
    nanos: u64,
}

impl Clock {
    fn new() -> Clock {
        Clock { nanos: mock_env().block.time.nanos() }
    }
    fn advance(&mut self, seconds: u64) {
        self.nanos += seconds * NANOS;
    }
}

fn received(transfers: &[Transfer], who: &String) -> u128 {
    transfers.iter().filter(|t| t.to == *who && t.denom == DENOM).map(|t| t.amount).sum()
}

#[test]
fn test_attestation_quality_score_curation_flow() {
    let admin = addr("admin");
    let attester = addr("attester");
    let curator = addr("curator");
    let challenger = addr("challenger");
    let mut clock = Clock::new();

    let mut attestations = ab::instantiate(
        &admin,
        ab::InstantiateMsg {
            arbiter_dao: Ok(addr("arbiter")),
            community_pool: Ok(addr("community")),
            denom: DENOM.to_string(),
            challenge_deposit_ratio_bps: Some(1000),
            arbiter_fee_ratio_bps: Some(500),
            activation_delay_seconds: Some(100),
        },
    )
    .ok()
    .unwrap();

    let mut curation = mc::instantiate(
        &admin,
        mc::InstantiateMsg {
            community_pool: Ok(addr("community")),
            min_curation_bond: Some(1_000_000_000),
            curation_fee_rate_bps: Some(50),
            challenge_deposit: Some(100_000_000),
            slash_percentage_bps: Some(2000),
            activation_delay_seconds: Some(100),
            unbonding_period_seconds: Some(200),
            bond_top_up_window_seconds: Some(100),
            min_quality_score: Some(300),
            max_collections_per_curator: Some(5),
            denom: DENOM.to_string(),
        },
    )
    .ok()
    .unwrap();

    // Step 1: an attestation with a bond.
    ab::execute_create(
        &mut attestations,
        &attester,
        clock.nanos,
        &coins(500_000_000),
        ab::AttestationType::ProjectBoundary,
        "regen:attestation/boundary/1".to_string(),
        None,
    )
    .unwrap();
    assert_eq!(attestations.attestations[ab::load_attestation(&attestations, 1).unwrap()].status, ab::AttestationStatus::Bonded);

    // Step 2: activate after the delay.
    clock.advance(101);
    ab::execute_activate(&mut attestations, clock.nanos, 1).unwrap();
    assert_eq!(attestations.attestations[ab::load_attestation(&attestations, 1).unwrap()].status, ab::AttestationStatus::Active);

    // Step 3: a quality score for a batch.
    let batch_denom = "regen:batch/C01-001-20250101-20251231-001";
    mc::execute_submit_quality_score(&mut curation, &admin, clock.nanos, batch_denom.to_string(), 750, 900).unwrap();
    let k = mc::query_quality_score(&curation, &batch_denom.to_string()).unwrap();
    assert_eq!(curation.quality_scores[k].score, 750);

    // Step 4: a curated collection, activated after its delay.
    mc::execute_create_collection(
        &mut curation,
        &curator,
        clock.nanos,
        &coins(1_000_000_000),
        "Verified Carbon Credits".to_string(),
        "Score >= 700, active attestation required".to_string(),
    )
    .unwrap();
    clock.advance(101);
    mc::execute_activate_collection(&mut curation, &curator, clock.nanos, 1).unwrap();

    // Step 5: the batch passes the quality check.
    mc::execute_add_to_collection(&mut curation, &curator, 1, batch_denom.to_string()).unwrap();
    let c = mc::load_collection(&curation, 1).unwrap();
    assert!(curation.collections[c].batches.contains(&batch_denom.to_string()));

    // Step 6: the inclusion is challenged.
    mc::execute_challenge_batch(
        &mut curation,
        &challenger,
        clock.nanos,
        &coins(100_000_000),
        1,
        batch_denom.to_string(),
        "The boundary attestation has not been independently verified".to_string(),
    )
    .unwrap();
    assert_eq!(curation.collections[c].status, mc::CollectionStatus::UnderReview);

    // Step 7: the curator wins.
    mc::execute_resolve_challenge(&mut curation, &admin, clock.nanos, 1, mc::ChallengeResolution::CuratorWins).unwrap();
    assert_eq!(curation.collections[c].status, mc::CollectionStatus::Active);
    let ch = mc::load_challenge(&curation, 1).unwrap();
    assert_eq!(curation.challenges[ch].resolution, Some(mc::ChallengeResolution::CuratorWins));
}

#[test]
fn test_credit_class_approval_flow() {
    let admin = addr("admin");
    let agent = addr("registry_agent");
    let proposer = addr("proposer");
    let mut clock = Clock::new();

    let mut voting = ccv::instantiate(
        &admin,
        ccv::InstantiateMsg {
            registry_agent: Ok(agent.clone()),
            deposit_amount: Some(1_000_000_000),
            denom: Some(DENOM.to_string()),
            voting_period_seconds: Some(200),
            agent_review_timeout_seconds: Some(100),
            override_window_seconds: Some(50),
        },
    )
    .ok()
    .unwrap();

    // Step 1: a proposal with its deposit.
    ccv::execute_submit_proposal(
        &mut voting,
        &proposer,
        clock.nanos,
        &coins(1_000_000_000),
        Ok(admin.clone()),
        "C".to_string(),
        "regen:methodology/carbon-v1".to_string(),
    )
    .unwrap();
    let p = ccv::load_proposal(&voting, 1).unwrap();
    assert_eq!(voting.proposals[p].status, ccv::ProposalStatus::AgentReview);

    // Step 2: a score over 700 opens the vote.
    ccv::execute_submit_agent_score(&mut voting, &agent, clock.nanos, 1, 800, 900, ccv::AgentRecommendation::Approve)
        .unwrap();
    assert_eq!(voting.proposals[p].status, ccv::ProposalStatus::Voting);
    assert_eq!(voting.proposals[p].agent_score, Some(800));

    // Step 3: a yes majority.
    ccv::execute_cast_vote(&mut voting, &addr("voter1"), clock.nanos, 1, true).unwrap();
    ccv::execute_cast_vote(&mut voting, &addr("voter2"), clock.nanos, 1, true).unwrap();
    ccv::execute_cast_vote(&mut voting, &addr("voter3"), clock.nanos, 1, false).unwrap();
    assert_eq!(voting.proposals[p].yes_votes, 2);
    assert_eq!(voting.proposals[p].no_votes, 1);

    // Step 4: finalized after the period; the deposit comes back.
    clock.advance(201);
    let transfers = ccv::execute_finalize_proposal(&mut voting, clock.nanos, 1).unwrap();
    assert_eq!(voting.proposals[p].status, ccv::ProposalStatus::Approved);
    assert_eq!(received(&transfers, &proposer), 1_000_000_000, "Deposit should be refunded on approval");
}

#[test]
fn test_service_escrow_lifecycle() {
    let admin = addr("admin");
    let client = addr("client");
    let provider = addr("provider");
    let clock = Clock::new();

    let mut escrow = se::instantiate(
        &admin,
        se::InstantiateMsg {
            arbiter_dao: Ok(addr("arbiter")),
            community_pool: Ok(addr("community")),
            provider_bond_ratio_bps: Some(1000),
            platform_fee_rate_bps: Some(100),
            cancellation_fee_rate_bps: Some(200),
            arbiter_fee_rate_bps: Some(500),
            review_period_seconds: Some(200),
            max_milestones: Some(10),
            max_revisions: Some(3),
            denom: DENOM.to_string(),
        },
    )
    .ok()
    .unwrap();

    // Step 1: the client proposes two milestones.
    let milestone1_payment: u128 = 600_000_000;
    let milestone2_payment: u128 = 400_000_000;
    let total_escrow = milestone1_payment + milestone2_payment;
    se::execute_propose(
        &mut escrow,
        &client,
        clock.nanos,
        Ok(provider.clone()),
        "Ecological monitoring".to_string(),
        "6-month soil carbon measurement program".to_string(),
        vec![
            se::MilestoneInput {
                description: "Install sensors and baseline measurement".to_string(),
                payment_amount: milestone1_payment,
            },
            se::MilestoneInput { description: "Final report and data delivery".to_string(), payment_amount: milestone2_payment },
        ],
    )
    .unwrap();
    let a = se::load_agreement(&escrow, 1).unwrap();
    assert_eq!(escrow.agreements[a].status, se::AgreementStatus::Proposed);
    assert_eq!(escrow.agreements[a].milestones.len(), 2);

    // Step 2: the provider bonds 10%.
    let bond_amount = total_escrow * 1000 / 10_000;
    se::execute_accept(&mut escrow, &provider, clock.nanos, &coins(bond_amount), 1).unwrap();

    // Step 3: the client funds the escrow and the completion fee.
    let completion_fee = total_escrow * 100 / 10_000;
    se::execute_fund(&mut escrow, &client, clock.nanos, &coins(total_escrow + completion_fee), 1).unwrap();

    // Step 4: start.
    se::execute_start(&mut escrow, &client, clock.nanos, 1).unwrap();
    assert_eq!(escrow.agreements[a].status, se::AgreementStatus::InProgress);

    // Steps 5 and 6: the first milestone, paid less the 1% fee.
    se::execute_submit_milestone(&mut escrow, &provider, clock.nanos, 1, 0, "regen:deliverable/sensors-installed".to_string())
        .unwrap();
    let transfers = se::execute_approve_milestone(&mut escrow, &client, clock.nanos, 1, 0).unwrap();
    assert_eq!(received(&transfers, &provider), 594_000_000);

    // Step 7: the second milestone completes the agreement.
    se::execute_submit_milestone(&mut escrow, &provider, clock.nanos, 1, 1, "regen:deliverable/final-report".to_string())
        .unwrap();
    se::execute_approve_milestone(&mut escrow, &client, clock.nanos, 1, 1).unwrap();
    assert_eq!(escrow.agreements[a].status, se::AgreementStatus::Completed);
    let balance = se::query_escrow_balance(&escrow, 1).unwrap_or_else(|| panic!("no agreement"));
    assert_eq!(balance.remaining_escrow, 0);
}
