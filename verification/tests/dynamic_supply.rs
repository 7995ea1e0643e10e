use cosmwasm_std::Decimal;
use regen_contracts::dynamic_supply::{
    clamp_decimal, compute_ecological_multiplier, compute_stability_multiplier, compute_staking_multiplier,
    execute_period, execute_set_ecological_multiplier, execute_update_equilibrium_params, execute_update_m014_phase,
    execute_update_regrowth_rate, instantiate, query_period_history, query_simulate_period, query_supply_state,
    validate_regrowth_rate, DynamicSupply, InstantiateMsg, M014Phase, SupplyError, SupplyPhase, MAX_REGROWTH_RATE,
};

fn dec(d: Decimal) -> u128 {
    d.atomics().u128()
}

fn whole(n: u128) -> u128 {
    dec(Decimal::from_atomics(n, 0).unwrap())
}

fn admin() -> String {
    "admin".to_string()
}

fn default_instantiate_msg() -> InstantiateMsg {
    InstantiateMsg {
        hard_cap: 221_000_000_000_000,
        initial_supply: 200_000_000_000_000,
        base_regrowth_rate: dec(Decimal::percent(2)),
        ecological_multiplier_enabled: false,
        ecological_reference_value: whole(50),
        m014_phase: M014Phase::Inactive,
        equilibrium_threshold: 1_000_000_000,
        equilibrium_periods_required: 12,
    }
}

fn setup_contract() -> DynamicSupply {
    instantiate(&admin(), default_instantiate_msg()).unwrap()
}

fn period(c: &mut DynamicSupply, burn: u128, staked: u128, stability: u128, delta: Option<u128>) {
    execute_period(c, &admin(), 12_345, burn, staked, stability, delta).unwrap();
}

#[test]
fn test_basic_mint_burn() {
    let mut c = setup_contract();
    period(&mut c, 500_000_000_000, 100_000_000_000_000, 0, None);
    let state = query_supply_state(&c);
    assert_eq!(state.current_supply, 200_130_000_000_000);
    assert_eq!(state.total_minted, 630_000_000_000);
    assert_eq!(state.total_burned, 500_000_000_000);
    assert_eq!(state.period_count, 1);
    let record = query_period_history(&c, 1).unwrap();
    assert_eq!(record.minted, 630_000_000_000);
    assert_eq!(record.burned, 500_000_000_000);
    assert_eq!(record.supply_before, 200_000_000_000_000);
    assert_eq!(record.supply_after, 200_130_000_000_000);
}

#[test]
fn test_cap_enforcement() {
    let msg = InstantiateMsg {
        hard_cap: 221_000_000_000_000,
        initial_supply: 220_900_000_000_000,
        base_regrowth_rate: dec(Decimal::percent(10)),
        ..default_instantiate_msg()
    };
    let mut c = instantiate(&admin(), msg).unwrap();
    period(&mut c, 0, 220_900_000_000_000, 0, None);
    assert!(query_supply_state(&c).current_supply <= 221_000_000_000_000);
}

#[test]
fn test_non_negative_supply() {
    let msg = InstantiateMsg { initial_supply: 1_000_000, ..default_instantiate_msg() };
    let mut c = instantiate(&admin(), msg).unwrap();
    period(&mut c, 999_999_999_999_999, 0, 0, None);
    assert_eq!(query_supply_state(&c).current_supply, 0);
}

#[test]
fn test_staking_multiplier_range() {
    let c = setup_contract();
    let resp = query_simulate_period(&c, 0, 0, 0, None);
    assert_eq!(resp.effective_multiplier, dec(Decimal::one()));
    assert_eq!(resp.mint_amount, 420_000_000_000);
    let resp = query_simulate_period(&c, 0, 100_000_000_000_000, 0, None);
    assert_eq!(resp.effective_multiplier, dec(Decimal::percent(150)));
    assert_eq!(resp.mint_amount, 630_000_000_000);
    let resp = query_simulate_period(&c, 0, 200_000_000_000_000, 0, None);
    assert_eq!(resp.effective_multiplier, dec(Decimal::percent(200)));
    assert_eq!(resp.mint_amount, 840_000_000_000);
}

#[test]
fn test_near_cap_deceleration() {
    let msg = InstantiateMsg { initial_supply: 218_790_000_000_000, ..default_instantiate_msg() };
    let c = instantiate(&admin(), msg).unwrap();
    let resp = query_simulate_period(&c, 0, 0, 0, None);
    assert_eq!(resp.mint_amount, 44_200_000_000);
    assert!(resp.mint_amount < 420_000_000_000);
}

#[test]
fn test_phase_inactive_uses_staking_only() {
    let c = setup_contract();
    let resp = query_simulate_period(&c, 0, 100_000_000_000_000, 180_000_000_000_000, None);
    assert_eq!(resp.effective_multiplier, dec(Decimal::percent(150)));
}

#[test]
fn test_phase_transition_uses_max() {
    let msg = InstantiateMsg { m014_phase: M014Phase::Transition, ..default_instantiate_msg() };
    let c = instantiate(&admin(), msg).unwrap();
    let resp = query_simulate_period(&c, 0, 100_000_000_000_000, 160_000_000_000_000, None);
    assert_eq!(resp.effective_multiplier, dec(Decimal::percent(180)));
    let resp = query_simulate_period(&c, 0, 180_000_000_000_000, 60_000_000_000_000, None);
    assert_eq!(resp.effective_multiplier, dec(Decimal::percent(190)));
}

#[test]
fn test_phase_active_uses_stability_only() {
    let msg = InstantiateMsg { m014_phase: M014Phase::Active, ..default_instantiate_msg() };
    let c = instantiate(&admin(), msg).unwrap();
    let resp = query_simulate_period(&c, 0, 180_000_000_000_000, 80_000_000_000_000, None);
    assert_eq!(resp.effective_multiplier, dec(Decimal::percent(140)));
}

#[test]
fn test_ecological_multiplier_disabled() {
    let c = setup_contract();
    let resp = query_simulate_period(&c, 0, 0, 0, Some(whole(25)));
    assert_eq!(resp.ecological_multiplier, dec(Decimal::one()));
}

#[test]
fn test_ecological_multiplier_enabled() {
    let msg = InstantiateMsg { ecological_multiplier_enabled: true, ..default_instantiate_msg() };
    let c = instantiate(&admin(), msg).unwrap();
    let resp = query_simulate_period(&c, 0, 0, 0, Some(whole(25)));
    assert_eq!(resp.ecological_multiplier, dec(Decimal::percent(50)));
    assert_eq!(resp.mint_amount, 210_000_000_000);
}

#[test]
fn test_ecological_multiplier_floor() {
    let msg = InstantiateMsg { ecological_multiplier_enabled: true, ..default_instantiate_msg() };
    let c = instantiate(&admin(), msg).unwrap();
    let resp = query_simulate_period(&c, 0, 0, 0, Some(whole(100)));
    assert_eq!(resp.ecological_multiplier, 0);
    assert_eq!(resp.mint_amount, 0);
}

#[test]
fn test_phase_transition_to_dynamic() {
    let mut c = setup_contract();
    assert_eq!(query_supply_state(&c).phase, SupplyPhase::Transition);
    period(&mut c, 0, 0, 0, None);
    assert_eq!(query_supply_state(&c).phase, SupplyPhase::Transition);
    period(&mut c, 1_000_000, 0, 0, None);
    assert_eq!(query_supply_state(&c).phase, SupplyPhase::Dynamic);
}

#[test]
fn test_phase_dynamic_to_equilibrium() {
    let msg = InstantiateMsg {
        equilibrium_threshold: 1_000_000_000,
        equilibrium_periods_required: 3,
        ..default_instantiate_msg()
    };
    let mut c = instantiate(&admin(), msg).unwrap();
    period(&mut c, 420_000_000_000, 0, 0, None);
    assert_eq!(query_supply_state(&c).phase, SupplyPhase::Dynamic);
    for _ in 0..3 {
        let sim = query_simulate_period(&c, 0, 0, 0, None);
        period(&mut c, sim.mint_amount, 0, 0, None);
    }
    assert_eq!(query_supply_state(&c).phase, SupplyPhase::Equilibrium);
}

#[test]
fn test_phase_equilibrium_to_dynamic_on_shock() {
    let msg = InstantiateMsg {
        equilibrium_threshold: 1_000_000_000,
        equilibrium_periods_required: 2,
        ..default_instantiate_msg()
    };
    let mut c = instantiate(&admin(), msg).unwrap();
    period(&mut c, 420_000_000_000, 0, 0, None);
    for _ in 0..2 {
        let sim = query_simulate_period(&c, 0, 0, 0, None);
        period(&mut c, sim.mint_amount, 0, 0, None);
    }
    assert_eq!(query_supply_state(&c).phase, SupplyPhase::Equilibrium);
    period(&mut c, 10_000_000_000_000, 0, 0, None);
    let state = query_supply_state(&c);
    assert_eq!(state.phase, SupplyPhase::Dynamic);
    assert_eq!(state.consecutive_equilibrium_periods, 0);
}

#[test]
fn test_cap_inviolability_invariant() {
    let msg = InstantiateMsg {
        hard_cap: 100_000_000,
        initial_supply: 99_000_000,
        base_regrowth_rate: dec(Decimal::percent(10)),
        equilibrium_threshold: 1_000,
        ..default_instantiate_msg()
    };
    let mut c = instantiate(&admin(), msg).unwrap();
    for _ in 0..20 {
        period(&mut c, 0, 99_000_000, 0, None);
        assert!(query_supply_state(&c).current_supply <= 100_000_000);
    }
}

#[test]
fn test_non_negative_supply_invariant() {
    let mut c = setup_contract();
    period(&mut c, 999_000_000_000_000_000, 0, 0, None);
    assert_eq!(query_supply_state(&c).current_supply, 0);
}

#[test]
fn test_regrowth_rate_bound_safety() {
    let mut c = setup_contract();
    let err = execute_update_regrowth_rate(&mut c, &admin(), dec(Decimal::percent(11))).unwrap_err();
    assert!(matches!(err, SupplyError::RegrowthRateExceedsBound { .. }));
    execute_update_regrowth_rate(&mut c, &admin(), dec(Decimal::percent(10))).unwrap();
    execute_update_regrowth_rate(&mut c, &admin(), 0).unwrap();
}

#[test]
fn test_unauthorized_execute_period() {
    let mut c = setup_contract();
    let err = execute_period(&mut c, &"other".to_string(), 1, 0, 0, 0, None).unwrap_err();
    assert_eq!(err, SupplyError::Unauthorized);
}

#[test]
fn test_unauthorized_update_regrowth_rate() {
    let mut c = setup_contract();
    let err = execute_update_regrowth_rate(&mut c, &"other".to_string(), dec(Decimal::percent(5))).unwrap_err();
    assert_eq!(err, SupplyError::Unauthorized);
}

#[test]
fn test_unauthorized_update_m014_phase() {
    let mut c = setup_contract();
    let err = execute_update_m014_phase(&mut c, &"other".to_string(), M014Phase::Active).unwrap_err();
    assert_eq!(err, SupplyError::Unauthorized);
}

#[test]
fn test_instantiation_fails_zero_cap() {
    let msg = InstantiateMsg { hard_cap: 0, ..default_instantiate_msg() };
    assert!(matches!(instantiate(&admin(), msg), Err(SupplyError::ZeroCap)));
}

#[test]
fn test_instantiation_fails_supply_exceeds_cap() {
    let msg = InstantiateMsg { initial_supply: 300_000_000_000_000, ..default_instantiate_msg() };
    assert!(matches!(instantiate(&admin(), msg), Err(SupplyError::SupplyExceedsCap { .. })));
}

#[test]
fn test_instantiation_fails_rate_too_high() {
    let msg = InstantiateMsg { base_regrowth_rate: dec(Decimal::percent(15)), ..default_instantiate_msg() };
    assert!(matches!(instantiate(&admin(), msg), Err(SupplyError::RegrowthRateExceedsBound { .. })));
}

#[test]
fn test_query_supply_params() {
    let c = setup_contract();
    assert_eq!(c.params.admin, "admin");
    assert_eq!(c.params.hard_cap, 221_000_000_000_000);
    assert_eq!(c.params.base_regrowth_rate, dec(Decimal::percent(2)));
    assert!(!c.params.ecological_multiplier_enabled);
    assert_eq!(c.params.m014_phase, M014Phase::Inactive);
    assert_eq!(c.params.equilibrium_periods_required, 12);
}

#[test]
fn test_query_cap_headroom() {
    let c = setup_contract();
    assert_eq!(query_supply_state(&c).cap_headroom, 21_000_000_000_000);
}

#[test]
fn test_supply_converges_toward_cap() {
    let mut c = setup_contract();
    let cap = 221_000_000_000_000u128;
    let mut prev_headroom = 21_000_000_000_000u128;
    for _ in 0..10 {
        period(&mut c, 0, 0, 0, None);
        let state = query_supply_state(&c);
        assert!(state.cap_headroom < prev_headroom);
        assert!(state.current_supply <= cap);
        prev_headroom = state.cap_headroom;
    }
}

#[test]
fn test_update_m014_phase() {
    let mut c = setup_contract();
    execute_update_m014_phase(&mut c, &admin(), M014Phase::Active).unwrap();
    assert_eq!(c.params.m014_phase, M014Phase::Active);
}

#[test]
fn test_set_ecological_multiplier() {
    let mut c = setup_contract();
    execute_set_ecological_multiplier(&mut c, &admin(), true, Some(whole(100))).unwrap();
    assert!(c.params.ecological_multiplier_enabled);
    assert_eq!(c.params.ecological_reference_value, whole(100));
    execute_set_ecological_multiplier(&mut c, &admin(), false, None).unwrap();
    assert!(!c.params.ecological_multiplier_enabled);
}

#[test]
fn test_set_ecological_multiplier_fails_zero_ref() {
    let mut c = setup_contract();
    let err = execute_set_ecological_multiplier(&mut c, &admin(), true, Some(0)).unwrap_err();
    assert_eq!(err, SupplyError::ZeroReferenceValue);
}

// ── Further cases ──────────────────────────────────────────────────────

#[test]
fn supply_conservation_over_periods() {
    let mut c = setup_contract();
    let start = query_supply_state(&c).current_supply;
    period(&mut c, 100_000_000_000, 50_000_000_000_000, 0, None);
    period(&mut c, 900_000_000_000, 0, 0, None);
    period(&mut c, 0, 200_000_000_000_000, 0, None);
    let s = query_supply_state(&c);
    assert_eq!(s.current_supply + s.total_burned, start + s.total_minted);
    for id in 1..=3u64 {
        let r = query_period_history(&c, id).unwrap();
        assert_eq!(r.period_id, id);
        assert_eq!(r.supply_after + r.burned, r.supply_before + r.minted);
    }
    assert!(query_period_history(&c, 0).is_none());
    assert!(query_period_history(&c, 4).is_none());
}

#[test]
fn multipliers_and_clamp() {
    assert_eq!(clamp_decimal(5, 1, 3), 3);
    assert_eq!(clamp_decimal(0, 1, 3), 1);
    assert_eq!(clamp_decimal(2, 1, 3), 2);
    assert_eq!(compute_staking_multiplier(10, 0), dec(Decimal::one()));
    assert_eq!(compute_staking_multiplier(1_000, 1_000), dec(Decimal::percent(200)));
    assert_eq!(compute_staking_multiplier(5_000, 1_000), dec(Decimal::percent(200)));
    assert_eq!(compute_stability_multiplier(250, 1_000), dec(Decimal::percent(125)));
    assert_eq!(compute_ecological_multiplier(None, whole(50)), dec(Decimal::one()));
    assert_eq!(compute_ecological_multiplier(Some(whole(10)), 0), dec(Decimal::one()));
    assert_eq!(compute_ecological_multiplier(Some(whole(10)), whole(40)), dec(Decimal::percent(75)));
    assert!(validate_regrowth_rate(MAX_REGROWTH_RATE).is_ok());
    assert_eq!(
        validate_regrowth_rate(MAX_REGROWTH_RATE + 1),
        Err(SupplyError::RegrowthRateExceedsBound { rate: MAX_REGROWTH_RATE + 1 })
    );
}

#[test]
fn set_ecological_multiplier_needs_reference_to_enable() {
    let msg = InstantiateMsg { ecological_reference_value: 0, ..default_instantiate_msg() };
    let mut c = instantiate(&admin(), msg).unwrap();
    assert_eq!(
        execute_set_ecological_multiplier(&mut c, &admin(), true, None),
        Err(SupplyError::ZeroReferenceValue)
    );
    assert!(execute_set_ecological_multiplier(&mut c, &admin(), false, None).is_ok());
    assert_eq!(
        execute_set_ecological_multiplier(&mut c, &"other".to_string(), false, None),
        Err(SupplyError::Unauthorized)
    );
}

#[test]
fn equilibrium_params_update() {
    let mut c = setup_contract();
    execute_update_equilibrium_params(&mut c, &admin(), Some(5), None).unwrap();
    assert_eq!(c.params.equilibrium_threshold, 5);
    assert_eq!(c.params.equilibrium_periods_required, 12);
    assert_eq!(
        execute_update_equilibrium_params(&mut c, &"other".to_string(), None, Some(1)),
        Err(SupplyError::Unauthorized)
    );
}

#[test]
fn records_account_for_the_supply() {
    let mut c = setup_contract();
    let initial = query_supply_state(&c).current_supply;
    period(&mut c, 500_000_000_000, 100_000_000_000_000, 0, None);
    period(&mut c, 0, 150_000_000_000_000, 0, None);
    period(&mut c, 900_000_000_000, 50_000_000_000_000, 0, None);
    let state = query_supply_state(&c);
    let records: Vec<_> = (1..=3).map(|id| query_period_history(&c, id).unwrap()).collect();
    assert_eq!(records[0].supply_before, initial);
    for k in 1..3 {
        assert_eq!(records[k].supply_before, records[k - 1].supply_after);
    }
    for r in &records {
        assert_eq!(r.supply_after + r.burned, r.supply_before + r.minted);
    }
    assert_eq!(records[2].supply_after, state.current_supply);
    assert_eq!(state.total_minted, records.iter().map(|r| r.minted).sum::<u128>());
    assert_eq!(state.total_burned, records.iter().map(|r| r.burned).sum::<u128>());
    assert_eq!(initial + state.total_minted, state.current_supply + state.total_burned);
}
