use cosmwasm_std::testing::{mock_env, MockApi};
use regen_contracts::attestation_bonding::{
    active_challenge_of, execute_activate, execute_challenge, execute_create, execute_release, execute_resolve,
    execute_update_config, instantiate, load_attestation, may_resolve, must_pay, query_attestations, query_challenges, Action,
    Attestation, AttestationError, AttestationState, AttestationStatus, AttestationType, ChallengeResolution,
    ConfigUpdate, Expected, InstantiateMsg,
};
use regen_contracts::money::Coin;

const DENOM: &str = "uregen";
const NANOS: u64 = 1_000_000_000;

fn addr(input: &str) -> String {
    MockApi::default().addr_make(input).to_string()
}

fn now() -> u64 {
    mock_env().block.time.nanos()
}

fn after(seconds: u64) -> u64 {
    (mock_env().block.time.seconds() + seconds) * NANOS
}

fn coins(amount: u128) -> Vec<Coin> {
    vec![Coin { denom: DENOM.to_string(), amount }]
}

fn setup_contract() -> AttestationState {
    let msg = InstantiateMsg {
        arbiter_dao: Ok(addr("arbiter")),
        community_pool: Ok(addr("community")),
        denom: DENOM.to_string(),
        challenge_deposit_ratio_bps: None,
        arbiter_fee_ratio_bps: None,
        activation_delay_seconds: Some(100),
    };
    instantiate(&addr("admin"), msg).ok().unwrap()
}

fn create(state: &mut AttestationState, amount: u128) -> Result<u64, AttestationError> {
    execute_create(
        state,
        &addr("attester"),
        now(),
        &coins(amount),
        AttestationType::ProjectBoundary,
        "regen:attestation/1".to_string(),
        None,
    )
}

fn create_attestation(state: &mut AttestationState) -> u64 {
    create(state, 500_000_000).unwrap()
}

fn attestation<'a>(state: &'a AttestationState, id: u64) -> &'a Attestation {
    let i = load_attestation(state, id).unwrap();
    &state.attestations[i]
}

fn challenge(state: &mut AttestationState) {
    execute_challenge(state, &addr("challenger"), now(), &coins(50_000_000), 1, "regen:evidence/1".to_string())
        .unwrap();
}

#[test]
fn test_instantiate() {
    let state = setup_contract();
    assert_eq!(state.config.denom, DENOM);
    assert_eq!(state.config.activation_delay_seconds, 100);
}

#[test]
fn test_create_attestation() {
    let mut state = setup_contract();
    let id = create_attestation(&mut state);
    assert_eq!(id, 1);
    let a = attestation(&state, 1);
    assert_eq!(a.status, AttestationStatus::Bonded);
    assert_eq!(a.bond_amount, 500_000_000);
}

#[test]
fn test_bond_below_minimum() {
    let mut state = setup_contract();
    let err = create(&mut state, 100).unwrap_err();
    assert!(matches!(err, AttestationError::BondBelowMinimum { .. }));
}

#[test]
fn test_activate_attestation() {
    let mut state = setup_contract();
    create_attestation(&mut state);
    // Too early: the activation delay has not passed.
    let err = execute_activate(&mut state, now(), 1).unwrap_err();
    assert!(matches!(err, AttestationError::ActivationDelayNotPassed));
    execute_activate(&mut state, after(101), 1).unwrap();
    assert_eq!(attestation(&state, 1).status, AttestationStatus::Active);
}

#[test]
fn test_challenge_and_resolve_valid() {
    let mut state = setup_contract();
    create_attestation(&mut state);
    challenge(&mut state);
    assert_eq!(attestation(&state, 1).status, AttestationStatus::Challenged);
    let out = execute_resolve(&mut state, &addr("arbiter"), now(), 1, ChallengeResolution::Valid).ok().unwrap();
    assert!(out.transfers.len() >= 1);
    assert_eq!(attestation(&state, 1).status, AttestationStatus::ResolvedValid);
}

#[test]
fn test_challenge_and_resolve_invalid() {
    let mut state = setup_contract();
    create_attestation(&mut state);
    challenge(&mut state);
    let out = execute_resolve(&mut state, &addr("arbiter"), now(), 1, ChallengeResolution::Invalid).ok().unwrap();
    assert!(out.transfers.len() >= 2);
    assert_eq!(attestation(&state, 1).status, AttestationStatus::Slashed);
}

#[test]
fn test_release_bond() {
    let mut state = setup_contract();
    create_attestation(&mut state);
    execute_activate(&mut state, after(101), 1).unwrap();
    let err = execute_release(&mut state, &addr("attester"), after(101), 1).unwrap_err();
    assert!(matches!(err, AttestationError::LockPeriodNotExpired));
    execute_release(&mut state, &addr("attester"), after(101 + 90 * 86_400 + 1), 1).unwrap();
    assert_eq!(attestation(&state, 1).status, AttestationStatus::Released);
}

// ── Further cases ──────────────────────────────────────────────────────

#[test]
fn resolution_amounts() {
    // Valid: the attester gets the 500_000_000 bond and the 50_000_000
    // deposit less the arbiter fee (5% of the bond), which goes to the pool.
    let mut state = setup_contract();
    create_attestation(&mut state);
    challenge(&mut state);
    let out = execute_resolve(&mut state, &addr("arbiter"), now(), 1, ChallengeResolution::Valid).ok().unwrap();
    assert_eq!(out.challenge_id, 1);
    assert_eq!(out.arbiter_fee, 25_000_000);
    let to = |who: &str| -> u128 { out.transfers.iter().filter(|t| t.to == addr(who)).map(|t| t.amount).sum() };
    assert_eq!(to("attester"), 525_000_000);
    assert_eq!(to("community"), 25_000_000);
    assert_eq!(active_challenge_of(&state, 1), None);

    // Invalid: the challenger gets half the bond and the deposit less the
    // fee; the pool the other half and the fee.
    let mut state = setup_contract();
    create_attestation(&mut state);
    challenge(&mut state);
    assert_eq!(active_challenge_of(&state, 1), Some(1));
    let out = execute_resolve(&mut state, &addr("arbiter"), now(), 1, ChallengeResolution::Invalid).ok().unwrap();
    let to = |who: &str| -> u128 { out.transfers.iter().filter(|t| t.to == addr(who)).map(|t| t.amount).sum() };
    assert_eq!(to("challenger"), 275_000_000);
    assert_eq!(to("community"), 275_000_000);
    assert_eq!(state.pool.total_bonded, 0);
    assert_eq!(state.pool.total_challenge_deposits, 0);
}

#[test]
fn challenge_errors() {
    let mut state = setup_contract();
    create_attestation(&mut state);
    assert_eq!(
        execute_challenge(&mut state, &addr("c"), now(), &coins(1), 1, "e".to_string()),
        Err(AttestationError::ChallengeDepositBelowMinimum { sent: 1, required: 50_000_000 })
    );
    assert_eq!(
        execute_challenge(&mut state, &addr("c"), now(), &coins(50_000_000), 1, "".to_string()),
        Err(AttestationError::EmptyIri)
    );
    challenge(&mut state);
    assert_eq!(
        execute_challenge(&mut state, &addr("c2"), now(), &coins(50_000_000), 1, "e".to_string()),
        Err(AttestationError::InvalidStatus { expected: Expected::BondedOrActive, actual: AttestationStatus::Challenged })
    );
    assert_eq!(
        execute_resolve(&mut state, &addr("rando"), now(), 1, ChallengeResolution::Valid).err().unwrap(),
        AttestationError::Unauthorized { action: Action::ResolveChallenge }
    );
}

#[test]
fn attestation_must_pay() {
    let denom = DENOM.to_string();
    assert_eq!(must_pay(&coins(3), &denom), Ok(3));
    assert_eq!(must_pay(&coins(0), &denom), Err(AttestationError::ZeroPayment));
    assert_eq!(must_pay(&vec![], &denom), Err(AttestationError::CoinCount { denom: denom.clone(), count: 0 }));
}

#[test]
fn listing_and_config() {
    let mut state = setup_contract();
    create_attestation(&mut state);
    create_attestation(&mut state);
    challenge(&mut state);
    assert_eq!(query_attestations(&state, None, None, None, None), Ok(vec![1, 2]));
    assert_eq!(query_attestations(&state, Some(AttestationStatus::Bonded), None, None, None), Ok(vec![2]));
    assert_eq!(query_challenges(&state, Some(1), None, None).len(), 1);
    let update = ConfigUpdate {
        arbiter_dao: None,
        community_pool: None,
        challenge_deposit_ratio_bps: None,
        arbiter_fee_ratio_bps: None,
        activation_delay_seconds: Some(5),
    };
    assert_eq!(
        execute_update_config(&mut state, &addr("rando"), update),
        Err(AttestationError::Unauthorized { action: Action::UpdateConfig })
    );
}

#[test]
fn status_and_type_names() {
    assert_eq!(AttestationStatus::ResolvedValid.label(), "ResolvedValid");
    assert_eq!(AttestationStatus::Slashed.label(), "Slashed");
    assert_eq!(AttestationType::CreditIssuanceClaim.label(), "CreditIssuanceClaim");
}

#[test]
fn resolution_refusal_matches_resolution() {
    let mut state = setup_contract();
    create_attestation(&mut state);
    assert_eq!(
        may_resolve(&state, &addr("arbiter"), 1),
        Err(AttestationError::InvalidStatus { expected: Expected::Challenged, actual: attestation(&state, 1).status })
    );
    challenge(&mut state);
    assert_eq!(may_resolve(&state, &addr("arbiter"), 1), Ok(()));
    assert_eq!(
        may_resolve(&state, &addr("rando"), 1),
        Err(AttestationError::Unauthorized { action: Action::ResolveChallenge })
    );
}
