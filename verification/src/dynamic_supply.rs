//! Algorithmic supply: each period mints a share of the headroom under a
//! hard cap and burns what the fee router collected,
//! `S[t+1] = S[t] + M[t] - B[t]` with `M[t] = r * (C - S[t])`, where the
//! regrowth rate `r` scales a base rate by a staking or stability
//! multiplier and an ecological one. Decimals are `u128` atomics with 18
//! fractional digits.

use vstd::prelude::*;
use crate::money::{DECIMAL_ONE, decimal_div, decimal_from_ratio, decimal_mul, lemma_ratio_le, lemma_ratio_monotonic, mul_floor, ratio};

verus! {

/// Highest base regrowth rate: 0.10.
pub const MAX_REGROWTH_RATE: u128 = 100_000_000_000_000_000u128;

/// Highest staking or stability multiplier: 2.0.
pub const MAX_MULTIPLIER: u128 = 2_000_000_000_000_000_000u128;

/// Lowest staking or stability multiplier: 1.0.
pub const MIN_MULTIPLIER: u128 = 1_000_000_000_000_000_000u128;

/// Which multiplier scales regrowth: the staking one before proof of
/// authority, the larger of both during the transition, the stability one
/// after.
#[derive(Clone, Copy, Debug, PartialEq, Eq, Structural)]
pub enum M014Phase {
    Inactive,
    Transition,
    Active,
    Equilibrium,
}

/// The supply mechanism's phase:
/// `Inflationary -> Transition -> Dynamic -> Equilibrium (-> Dynamic on shock)`.
#[derive(Clone, Copy, Debug, PartialEq, Eq, Structural)]
pub enum SupplyPhase {
    Inflationary,
    Transition,
    Dynamic,
    Equilibrium,
}

#[derive(Clone, Copy, Debug, PartialEq, Eq, Structural)]
pub struct SupplyState {
    pub current_supply: u128,
    pub total_minted: u128,
    pub total_burned: u128,
    pub period_count: u64,
    pub phase: SupplyPhase,
    pub consecutive_equilibrium_periods: u64,
}

#[derive(Clone)]
pub struct SupplyParams {
    pub admin: String,
    pub hard_cap: u128,
    pub base_regrowth_rate: u128,
    pub ecological_multiplier_enabled: bool,
    pub ecological_reference_value: u128,
    pub m014_phase: M014Phase,
    pub equilibrium_threshold: u128,
    pub equilibrium_periods_required: u64,
}

/// What one period did.
#[derive(Clone, Copy, Debug, PartialEq, Eq, Structural)]
pub struct MintBurnRecord {
    pub period_id: u64,
    pub block_height: u64,
    pub minted: u128,
    pub burned: u128,
    pub supply_before: u128,
    pub supply_after: u128,
    pub regrowth_rate: u128,
    pub effective_multiplier: u128,
    pub ecological_multiplier: u128,
}

pub struct InstantiateMsg {
    pub hard_cap: u128,
    pub initial_supply: u128,
    pub base_regrowth_rate: u128,
    pub ecological_multiplier_enabled: bool,
    pub ecological_reference_value: u128,
    pub m014_phase: M014Phase,
    pub equilibrium_threshold: u128,
    pub equilibrium_periods_required: u64,
}

/// The contract's store: parameters, supply state, and the record of
/// period `i + 1` at index `i`.
#[derive(Clone)]
pub struct DynamicSupply {
    pub params: SupplyParams,
    pub state: SupplyState,
    pub history: Vec<MintBurnRecord>,
}

#[derive(Debug, PartialEq, Eq)]
pub enum SupplyError {
    Unauthorized,
    ZeroCap,
    SupplyExceedsCap { current: u128, cap: u128 },
    RegrowthRateExceedsBound { rate: u128 },
    ZeroBurnAmount,
    ZeroMintAmount,
    ZeroReferenceValue,
    InvalidPhase { phase: M014Phase },
    MintExceedsCap { supply: u128, mint: u128, cap: u128 },
    BurnExceedsSupply { burn: u128, supply: u128 },
}

/// What the recorded periods minted in all.
pub open spec fn minted_total(h: Seq<MintBurnRecord>) -> int
    decreases h.len(),
{
    if h.len() == 0 { 0 } else { minted_total(h.drop_last()) + h.last().minted }
}

/// What the recorded periods burned in all.
pub open spec fn burned_total(h: Seq<MintBurnRecord>) -> int
    decreases h.len(),
{
    if h.len() == 0 { 0 } else { burned_total(h.drop_last()) + h.last().burned }
}

/// The records account for the supply: each moves the supply by what it
/// minted and burned, each starts where the one before ended, the last
/// ends at the current supply, and the totals are the records' sums.
pub open spec fn history_consistent(s: SupplyState, h: Seq<MintBurnRecord>) -> bool {
    &&& s.total_minted == minted_total(h)
    &&& s.total_burned == burned_total(h)
    &&& forall|i: int| 0 <= i < h.len()
        ==> #[trigger] h[i].supply_after + h[i].burned == h[i].supply_before + h[i].minted
    &&& forall|i: int, j: int| 0 <= i && j == i + 1 && j < h.len()
        ==> #[trigger] h[j].supply_before == #[trigger] h[i].supply_after
    &&& h.len() > 0 ==> h[h.len() - 1].supply_after == s.current_supply
}

impl DynamicSupply {
    pub open spec fn wf(self) -> bool {
        &&& history_consistent(self.state, self.history@)
        &&& self.params.hard_cap > 0
        &&& self.state.current_supply <= self.params.hard_cap
        &&& self.params.base_regrowth_rate <= MAX_REGROWTH_RATE
        &&& self.params.ecological_multiplier_enabled ==> self.params.ecological_reference_value != 0
        &&& self.history.len() == self.state.period_count
        &&& forall|i: int| 0 <= i < self.history.len() ==> #[trigger] self.history[i].period_id == i + 1
    }
}

// ── Multipliers ────────────────────────────────────────────────────────

/// `v` held within `[lo, hi]`: `lo` below it, `hi` above it.
pub open spec fn clamp(v: int, lo: int, hi: int) -> int {
    if v < lo { lo } else if v > hi { hi } else { v }
}

/// Clamp a decimal to `[min, max]`.
pub fn clamp_decimal(val: u128, min: u128, max: u128) -> (r: u128)
    ensures
        r == clamp(val as int, min as int, max as int),
{
    if val < min {
        min
    } else if val > max {
        max
    } else {
        val
    }
}

/// `clamp(1 + amount / supply, 1, 2)`, or 1 without supply.
pub open spec fn multiplier(amount: u128, supply: u128) -> int {
    if supply == 0 {
        MIN_MULTIPLIER as int
    } else {
        clamp(DECIMAL_ONE + ratio(amount as int, DECIMAL_ONE as int, supply as int), MIN_MULTIPLIER as int, MAX_MULTIPLIER as int)
    }
}

/// Whether `1 + amount / supply` fits a decimal.
pub open spec fn multiplier_fits(amount: u128, supply: u128) -> bool {
    supply == 0 || DECIMAL_ONE + ratio(amount as int, DECIMAL_ONE as int, supply as int) <= u128::MAX
}

fn ratio_multiplier(amount: u128, supply: u128) -> (r: u128)
    requires
        multiplier_fits(amount, supply),
    ensures
        r == multiplier(amount, supply),
{
    if supply == 0 {
        return MIN_MULTIPLIER;
    }
    proof {
        assert(ratio(amount as int, DECIMAL_ONE as int, supply as int) >= 0) by (nonlinear_arith)
            requires supply > 0;
    }
    let share = decimal_from_ratio(amount, supply);
    clamp_decimal(DECIMAL_ONE + share, MIN_MULTIPLIER, MAX_MULTIPLIER)
}

/// Staking multiplier: `clamp(1 + staked / supply, 1, 2)`, or 1 without
/// supply.
pub fn compute_staking_multiplier(staked: u128, current_supply: u128) -> (r: u128)
    requires
        multiplier_fits(staked, current_supply),
    ensures
        r == multiplier(staked, current_supply),
{
    ratio_multiplier(staked, current_supply)
}

/// Stability multiplier: `clamp(1 + committed / supply, 1, 2)`, or 1
/// without supply.
pub fn compute_stability_multiplier(stability_committed: u128, current_supply: u128) -> (r: u128)
    requires
        multiplier_fits(stability_committed, current_supply),
    ensures
        r == multiplier(stability_committed, current_supply),
{
    ratio_multiplier(stability_committed, current_supply)
}

/// Ecological multiplier: `max(0, 1 - delta / reference)`; 1 without a
/// measurement or without a reference.
pub open spec fn eco_multiplier(delta_co2: Option<u128>, reference: u128) -> int {
    match delta_co2 {
        None => DECIMAL_ONE as int,
        Some(delta) => if reference == 0 {
            DECIMAL_ONE as int
        } else if ratio(delta as int, DECIMAL_ONE as int, reference as int) >= DECIMAL_ONE {
            0
        } else {
            DECIMAL_ONE - ratio(delta as int, DECIMAL_ONE as int, reference as int)
        },
    }
}

/// Whether `delta / reference` fits a decimal.
pub open spec fn eco_fits(delta_co2: Option<u128>, reference: u128) -> bool {
    match delta_co2 {
        None => true,
        Some(delta) => reference == 0 || ratio(delta as int, DECIMAL_ONE as int, reference as int) <= u128::MAX,
    }
}

pub fn compute_ecological_multiplier(delta_co2: Option<u128>, reference_value: u128) -> (r: u128)
    requires
        eco_fits(delta_co2, reference_value),
    ensures
        r == eco_multiplier(delta_co2, reference_value),
{
    match delta_co2 {
        None => DECIMAL_ONE,
        Some(delta) => {
            if reference_value == 0 {
                return DECIMAL_ONE;
            }
            let q = decimal_div(delta, reference_value);
            if q >= DECIMAL_ONE {
                0
            } else {
                DECIMAL_ONE - q
            }
        },
    }
}

/// The multiplier the M014 phase selects.
pub open spec fn phase_multiplier(phase: M014Phase, staking: int, stability: int) -> int {
    match phase {
        M014Phase::Inactive => staking,
        M014Phase::Transition => if staking > stability { staking } else { stability },
        _ => stability,
    }
}

// ── Mint ───────────────────────────────────────────────────────────────

/// The headroom under the cap, or zero.
pub open spec fn headroom(p: SupplyParams, s: SupplyState) -> int {
    if p.hard_cap > s.current_supply { p.hard_cap - s.current_supply } else { 0 }
}

/// `(mint, effective multiplier, ecological multiplier, regrowth rate)` of
/// a period: `r = r_base * m_eff * m_eco` and `M = floor(r * headroom)`;
/// nothing is minted at or above the cap.
pub open spec fn mint_values(
    p: SupplyParams,
    s: SupplyState,
    staked: u128,
    stability: u128,
    delta_co2: Option<u128>,
) -> (int, int, int, int) {
    if p.hard_cap <= s.current_supply {
        (0, DECIMAL_ONE as int, DECIMAL_ONE as int, 0)
    } else {
        let m_eff = phase_multiplier(p.m014_phase, multiplier(staked, s.current_supply), multiplier(stability, s.current_supply));
        let m_eco = if p.ecological_multiplier_enabled {
            eco_multiplier(delta_co2, p.ecological_reference_value)
        } else {
            DECIMAL_ONE as int
        };
        let rate = ratio(ratio(p.base_regrowth_rate as int, m_eff, DECIMAL_ONE as int), m_eco, DECIMAL_ONE as int);
        (ratio(headroom(p, s), rate, DECIMAL_ONE as int), m_eff, m_eco, rate)
    }
}

/// Whether the period's decimals fit: each multiplier that is computed.
pub open spec fn mint_fits(p: SupplyParams, s: SupplyState, staked: u128, stability: u128, delta_co2: Option<u128>) -> bool {
    p.hard_cap <= s.current_supply || {
        &&& multiplier_fits(staked, s.current_supply)
        &&& multiplier_fits(stability, s.current_supply)
        &&& p.ecological_multiplier_enabled ==> eco_fits(delta_co2, p.ecological_reference_value)
    }
}

/// The regrowth rate is at most `0.2` and the mint at most a fifth of the
/// headroom.
pub proof fn lemma_mint_bounded(p: SupplyParams, s: SupplyState, staked: u128, stability: u128, delta_co2: Option<u128>)
    requires
        p.base_regrowth_rate <= MAX_REGROWTH_RATE,
    ensures
        ({
            let (mint, m_eff, m_eco, rate) = mint_values(p, s, staked, stability, delta_co2);
            &&& MIN_MULTIPLIER <= m_eff <= MAX_MULTIPLIER
            &&& 0 <= m_eco <= DECIMAL_ONE
            &&& 0 <= ratio(p.base_regrowth_rate as int, m_eff, DECIMAL_ONE as int) <= 2 * MAX_REGROWTH_RATE
            &&& 0 <= rate <= 2 * MAX_REGROWTH_RATE
            &&& 0 <= mint <= headroom(p, s)
            &&& 5 * mint <= headroom(p, s)
        }),
{
    let (mint, m_eff, m_eco, rate) = mint_values(p, s, staked, stability, delta_co2);
    if p.hard_cap > s.current_supply {
        let base = p.base_regrowth_rate as int;
        let one = DECIMAL_ONE as int;
        assert(MIN_MULTIPLIER <= m_eff <= MAX_MULTIPLIER);
        assert(0 <= m_eco <= one) by {
            match delta_co2 {
                Some(delta) => {
                    if p.ecological_reference_value != 0 {
                        assert(ratio(delta as int, one, p.ecological_reference_value as int) >= 0) by (nonlinear_arith)
                            requires p.ecological_reference_value > 0, delta >= 0, one > 0;
                    }
                },
                None => {},
            }
        }
        let r1 = ratio(base, m_eff, one);
        assert(0 <= r1 <= 2 * MAX_REGROWTH_RATE) by (nonlinear_arith)
            requires
                r1 == (base * m_eff) / one,
                0 <= base <= MAX_REGROWTH_RATE,
                MIN_MULTIPLIER <= m_eff <= MAX_MULTIPLIER,
                one == 1_000_000_000_000_000_000int,
                MAX_REGROWTH_RATE == 100_000_000_000_000_000int,
                MAX_MULTIPLIER == 2_000_000_000_000_000_000int,
                MIN_MULTIPLIER == 1_000_000_000_000_000_000int;
        lemma_ratio_le(r1, m_eco, one);
        let h = headroom(p, s);
        assert(0 <= mint && 5 * mint <= h) by (nonlinear_arith)
            requires
                mint == (h * rate) / one,
                0 <= h,
                0 <= rate <= 2 * MAX_REGROWTH_RATE,
                one == 1_000_000_000_000_000_000int,
                MAX_REGROWTH_RATE == 100_000_000_000_000_000int;
    }
}

/// `(mint, effective multiplier, ecological multiplier, regrowth rate)` of
/// a period: `M = floor(r_base * m_eff * m_eco * (C - S))`, where `m_eff`
/// is the staking or stability multiplier the M014 phase selects and
/// `m_eco` is 1 unless the ecological multiplier is enabled.
pub fn compute_mint(
    params: &SupplyParams,
    state: &SupplyState,
    staked_amount: u128,
    stability_committed: u128,
    delta_co2: Option<u128>,
) -> (r: (u128, u128, u128, u128))
    requires
        params.base_regrowth_rate <= MAX_REGROWTH_RATE,
        mint_fits(*params, *state, staked_amount, stability_committed, delta_co2),
    ensures
        (r.0 as int, r.1 as int, r.2 as int, r.3 as int) == mint_values(*params, *state, staked_amount, stability_committed, delta_co2),
{
    if params.hard_cap <= state.current_supply {
        return (0, DECIMAL_ONE, DECIMAL_ONE, 0);
    }
    let room = params.hard_cap - state.current_supply;
    let staking = compute_staking_multiplier(staked_amount, state.current_supply);
    let stability = compute_stability_multiplier(stability_committed, state.current_supply);
    let effective = match params.m014_phase {
        M014Phase::Inactive => staking,
        M014Phase::Transition => if staking > stability { staking } else { stability },
        M014Phase::Active | M014Phase::Equilibrium => stability,
    };
    let ecological = if params.ecological_multiplier_enabled {
        compute_ecological_multiplier(delta_co2, params.ecological_reference_value)
    } else {
        DECIMAL_ONE
    };
    proof {
        lemma_mint_bounded(*params, *state, staked_amount, stability_committed, delta_co2);
        lemma_ratio_le(room as int, mint_values(*params, *state, staked_amount, stability_committed, delta_co2).3, DECIMAL_ONE as int);
    }
    let scaled = decimal_mul(params.base_regrowth_rate, effective);
    let rate = decimal_mul(scaled, ecological);
    let mint = mul_floor(room, rate);
    (mint, effective, ecological, rate)
}

// ── Instantiate ────────────────────────────────────────────────────────

pub open spec fn valid_regrowth_rate(rate: u128) -> bool {
    rate <= MAX_REGROWTH_RATE
}

/// A base regrowth rate must lie in `[0, 0.10]`.
pub fn validate_regrowth_rate(rate: u128) -> (r: Result<(), SupplyError>)
    ensures
        r is Ok <==> valid_regrowth_rate(rate),
        r is Err ==> r == Err::<(), SupplyError>(SupplyError::RegrowthRateExceedsBound { rate }),
{
    if rate > MAX_REGROWTH_RATE {
        return Err(SupplyError::RegrowthRateExceedsBound { rate });
    }
    Ok(())
}

pub open spec fn instantiate_check(msg: InstantiateMsg) -> Result<(), SupplyError> {
    if msg.hard_cap == 0 {
        Err(SupplyError::ZeroCap)
    } else if msg.initial_supply > msg.hard_cap {
        Err(SupplyError::SupplyExceedsCap { current: msg.initial_supply, cap: msg.hard_cap })
    } else if !valid_regrowth_rate(msg.base_regrowth_rate) {
        Err(SupplyError::RegrowthRateExceedsBound { rate: msg.base_regrowth_rate })
    } else if msg.ecological_multiplier_enabled && msg.ecological_reference_value == 0 {
        Err(SupplyError::ZeroReferenceValue)
    } else {
        Ok(())
    }
}

/// Creates the store: a positive cap, a supply within it, a base rate
/// within bounds; the sender administers it; phase Transition, no periods.
pub fn instantiate(sender: &String, msg: InstantiateMsg) -> (r: Result<DynamicSupply, SupplyError>)
    ensures
        r is Ok <==> instantiate_check(msg) is Ok,
        r is Err ==> r->Err_0 == instantiate_check(msg)->Err_0,
        r matches Ok(c) ==> {
            &&& c.wf()
            &&& c.params == SupplyParams {
                admin: *sender,
                hard_cap: msg.hard_cap,
                base_regrowth_rate: msg.base_regrowth_rate,
                ecological_multiplier_enabled: msg.ecological_multiplier_enabled,
                ecological_reference_value: msg.ecological_reference_value,
                m014_phase: msg.m014_phase,
                equilibrium_threshold: msg.equilibrium_threshold,
                equilibrium_periods_required: msg.equilibrium_periods_required,
            }
            &&& c.state == SupplyState {
                current_supply: msg.initial_supply,
                total_minted: 0,
                total_burned: 0,
                period_count: 0,
                phase: SupplyPhase::Transition,
                consecutive_equilibrium_periods: 0,
            }
            &&& c.history@.len() == 0
        },
{
    if msg.hard_cap == 0 {
        return Err(SupplyError::ZeroCap);
    }
    if msg.initial_supply > msg.hard_cap {
        return Err(SupplyError::SupplyExceedsCap { current: msg.initial_supply, cap: msg.hard_cap });
    }
    validate_regrowth_rate(msg.base_regrowth_rate)?;
    if msg.ecological_multiplier_enabled && msg.ecological_reference_value == 0 {
        return Err(SupplyError::ZeroReferenceValue);
    }
    let params = SupplyParams {
        admin: sender.clone(),
        hard_cap: msg.hard_cap,
        base_regrowth_rate: msg.base_regrowth_rate,
        ecological_multiplier_enabled: msg.ecological_multiplier_enabled,
        ecological_reference_value: msg.ecological_reference_value,
        m014_phase: msg.m014_phase,
        equilibrium_threshold: msg.equilibrium_threshold,
        equilibrium_periods_required: msg.equilibrium_periods_required,
    };
    let state = SupplyState {
        current_supply: msg.initial_supply,
        total_minted: 0,
        total_burned: 0,
        period_count: 0,
        phase: SupplyPhase::Transition,
        consecutive_equilibrium_periods: 0,
    };
    Ok(DynamicSupply { params, state, history: Vec::new() })
}


// ── Periods ────────────────────────────────────────────────────────────

/// `(effective mint, effective burn, supply after)` of a period: the mint is
/// cut at the cap and the burn at what the supply holds, which never goes
/// below zero.
pub open spec fn period_values(
    p: SupplyParams,
    s: SupplyState,
    burn: u128,
    staked: u128,
    stability: u128,
    delta_co2: Option<u128>,
) -> (int, int, int) {
    let mint = mint_values(p, s, staked, stability, delta_co2).0;
    let after_mint = s.current_supply + mint;
    let capped = if after_mint > p.hard_cap { p.hard_cap as int } else { after_mint };
    let supply_after = if burn >= capped { 0 } else { capped - burn };
    let effective_mint = if capped > s.current_supply { capped - s.current_supply } else { 0 };
    let effective_burn = if burn >= capped { capped } else { burn as int };
    (effective_mint, effective_burn, supply_after)
}

/// `|a - b|`.
pub open spec fn abs_diff(a: int, b: int) -> int {
    if a > b { a - b } else { b - a }
}

/// The phase and near-equilibrium streak after a period. The first period
/// that burns moves Transition to Dynamic; in Dynamic or Equilibrium a
/// period whose mint and burn differ by less than the threshold extends
/// the streak, and a long enough streak reaches Equilibrium; any other
/// period resets the streak and leaves Equilibrium for Dynamic.
pub open spec fn next_phase(p: SupplyParams, s: SupplyState, effective_mint: int, effective_burn: int) -> (SupplyPhase, int) {
    let (phase, streak) = if s.phase == SupplyPhase::Transition && effective_burn > 0 {
        (SupplyPhase::Dynamic, 0int)
    } else {
        (s.phase, s.consecutive_equilibrium_periods as int)
    };
    if phase == SupplyPhase::Dynamic || phase == SupplyPhase::Equilibrium {
        if abs_diff(effective_mint, effective_burn) < p.equilibrium_threshold {
            if streak + 1 >= p.equilibrium_periods_required {
                (SupplyPhase::Equilibrium, streak + 1)
            } else {
                (phase, streak + 1)
            }
        } else {
            (if phase == SupplyPhase::Equilibrium { SupplyPhase::Dynamic } else { phase }, 0int)
        }
    } else {
        (phase, streak)
    }
}

/// Whether a period's counters fit: the cumulative totals in `u128`, the
/// period count and the streak in `u64`.
pub open spec fn period_fits(c: DynamicSupply, burn: u128, staked: u128, stability: u128, delta_co2: Option<u128>) -> bool {
    let (effective_mint, effective_burn, supply_after) = period_values(c.params, c.state, burn, staked, stability, delta_co2);
    &&& mint_fits(c.params, c.state, staked, stability, delta_co2)
    &&& c.state.total_minted + effective_mint <= u128::MAX
    &&& c.state.total_burned + effective_burn <= u128::MAX
    &&& c.state.period_count + 1 <= u64::MAX
    &&& next_phase(c.params, c.state, effective_mint, effective_burn).1 <= u64::MAX
}

/// The admin runs a mint/burn period: it mints the regrowth share of the
/// headroom (never past the cap), burns the given amount (never below
/// zero), moves the phase, and records the period. Returns the record.
pub fn execute_period(
    c: &mut DynamicSupply,
    sender: &String,
    block_height: u64,
    burn_amount: u128,
    staked_amount: u128,
    stability_committed: u128,
    delta_co2: Option<u128>,
) -> (r: Result<MintBurnRecord, SupplyError>)
    requires
        old(c).wf(),
        sender@ == old(c).params.admin@ ==> period_fits(*old(c), burn_amount, staked_amount, stability_committed, delta_co2),
    ensures
        r is Ok <==> sender@ == old(c).params.admin@,
        r is Err ==> r == Err::<MintBurnRecord, SupplyError>(SupplyError::Unauthorized) && *final(c) == *old(c),
        r matches Ok(rec) ==> {
            let s = old(c).state;
            let (mint, m_eff, m_eco, rate) = mint_values(old(c).params, s, staked_amount, stability_committed, delta_co2);
            let (effective_mint, effective_burn, supply_after) =
                period_values(old(c).params, s, burn_amount, staked_amount, stability_committed, delta_co2);
            let (phase, streak) = next_phase(old(c).params, s, effective_mint, effective_burn);
            &&& final(c).wf()
            &&& final(c).params == old(c).params
            &&& final(c).state == SupplyState {
                current_supply: supply_after as u128,
                total_minted: (s.total_minted + effective_mint) as u128,
                total_burned: (s.total_burned + effective_burn) as u128,
                period_count: (s.period_count + 1) as u64,
                phase,
                consecutive_equilibrium_periods: streak as u64,
            }
            &&& rec == MintBurnRecord {
                period_id: (s.period_count + 1) as u64,
                block_height,
                minted: effective_mint as u128,
                burned: effective_burn as u128,
                supply_before: s.current_supply,
                supply_after: supply_after as u128,
                regrowth_rate: rate as u128,
                effective_multiplier: m_eff as u128,
                ecological_multiplier: m_eco as u128,
            }
            &&& final(c).history@ == old(c).history@.push(rec)
        },
{
    if *sender != c.params.admin {
        return Err(SupplyError::Unauthorized);
    }
    let (mint, effective_mult, eco_mult, rate) = compute_mint(&c.params, &c.state, staked_amount, stability_committed, delta_co2);
    proof {
        lemma_mint_bounded(c.params, c.state, staked_amount, stability_committed, delta_co2);
    }
    let supply_before = c.state.current_supply;
    let after_mint = supply_before + mint;
    let capped = if after_mint > c.params.hard_cap { c.params.hard_cap } else { after_mint };
    let supply_after = if burn_amount >= capped { 0 } else { capped - burn_amount };
    let effective_mint = if capped > supply_before { capped - supply_before } else { 0 };
    let effective_burn = if burn_amount >= capped { capped } else { burn_amount };
    let ghost old_c = *c;
    c.state.current_supply = supply_after;
    c.state.total_minted = c.state.total_minted + effective_mint;
    c.state.total_burned = c.state.total_burned + effective_burn;
    c.state.period_count = c.state.period_count + 1;
    let diff = if effective_mint > effective_burn { effective_mint - effective_burn } else { effective_burn - effective_mint };
    if c.state.phase == SupplyPhase::Transition && effective_burn > 0 {
        c.state.phase = SupplyPhase::Dynamic;
        c.state.consecutive_equilibrium_periods = 0;
    }
    if c.state.phase == SupplyPhase::Dynamic || c.state.phase == SupplyPhase::Equilibrium {
        if diff < c.params.equilibrium_threshold {
            c.state.consecutive_equilibrium_periods = c.state.consecutive_equilibrium_periods + 1;
            if c.state.consecutive_equilibrium_periods >= c.params.equilibrium_periods_required {
                c.state.phase = SupplyPhase::Equilibrium;
            }
        } else {
            c.state.consecutive_equilibrium_periods = 0;
            if c.state.phase == SupplyPhase::Equilibrium {
                c.state.phase = SupplyPhase::Dynamic;
            }
        }
    }
    let record = MintBurnRecord {
        period_id: c.state.period_count,
        block_height,
        minted: effective_mint,
        burned: effective_burn,
        supply_before,
        supply_after,
        regrowth_rate: rate,
        effective_multiplier: effective_mult,
        ecological_multiplier: eco_mult,
    };
    c.history.push(record);
    proof {
        assert forall|i: int| 0 <= i < c.history.len() implies #[trigger] c.history[i].period_id == i + 1 by {
            if i < old_c.history.len() {
                assert(c.history[i] == old_c.history[i]);
            }
        }
        lemma_push_keeps_history(old_c.state, c.state, old_c.history@, record);
    }
    Ok(record)
}

/// Recording a period that starts at the current supply and moves it by
/// what it minted and burned keeps the records accounting for the supply.
proof fn lemma_push_keeps_history(old_s: SupplyState, s: SupplyState, h: Seq<MintBurnRecord>, rec: MintBurnRecord)
    requires
        history_consistent(old_s, h),
        rec.supply_before == old_s.current_supply,
        rec.supply_after + rec.burned == rec.supply_before + rec.minted,
        s.current_supply == rec.supply_after,
        s.total_minted == old_s.total_minted + rec.minted,
        s.total_burned == old_s.total_burned + rec.burned,
    ensures
        history_consistent(s, h.push(rec)),
{
    let g = h.push(rec);
    assert(g.drop_last() =~= h);
    assert forall|i: int| 0 <= i < g.len()
        implies #[trigger] g[i].supply_after + g[i].burned == g[i].supply_before + g[i].minted by {
        if i < h.len() {
            assert(g[i] == h[i]);
        }
    }
    assert forall|i: int, j: int| 0 <= i && j == i + 1 && j < g.len()
        implies #[trigger] g[j].supply_before == #[trigger] g[i].supply_after by {
        assert(g[i] == h[i]);
        if j < h.len() {
            assert(g[j] == h[j]);
        }
    }
}

/// What a recorded prefix of periods did: the supply at its start, plus
/// what it minted, is the supply at its end plus what it burned.
proof fn lemma_history_conserves(h: Seq<MintBurnRecord>, k: int)
    requires
        1 <= k <= h.len(),
        forall|i: int| 0 <= i < h.len()
            ==> #[trigger] h[i].supply_after + h[i].burned == h[i].supply_before + h[i].minted,
        forall|i: int, j: int| 0 <= i && j == i + 1 && j < h.len()
            ==> #[trigger] h[j].supply_before == #[trigger] h[i].supply_after,
    ensures
        h[0].supply_before + minted_total(h.take(k)) == h[k - 1].supply_after + burned_total(h.take(k)),
    decreases k,
{
    let t = h.take(k);
    if k == 1 {
        assert(t.drop_last() =~= Seq::<MintBurnRecord>::empty());
        assert(t.last() == h[0]);
        assert(minted_total(t.drop_last()) == 0);
        assert(burned_total(t.drop_last()) == 0);
        assert(minted_total(t) == h[0].minted);
        assert(burned_total(t) == h[0].burned);
        assert(h[0].supply_after + h[0].burned == h[0].supply_before + h[0].minted);
    } else {
        lemma_history_conserves(h, k - 1);
        assert(t.drop_last() =~= h.take(k - 1));
        assert(t.last() == h[k - 1]);
        assert(minted_total(t) == minted_total(h.take(k - 1)) + h[k - 1].minted);
        assert(burned_total(t) == burned_total(h.take(k - 1)) + h[k - 1].burned);
        assert(h[k - 1].supply_after + h[k - 1].burned == h[k - 1].supply_before + h[k - 1].minted);
        assert(h[k - 1].supply_before == h[k - 2].supply_after);
    }
}

/// What a period would do now, without doing it.
#[derive(Clone, Copy, Debug, PartialEq, Eq, Structural)]
pub struct SimulatePeriodResponse {
    pub mint_amount: u128,
    pub burn_amount: u128,
    pub supply_before: u128,
    pub supply_after: u128,
    pub regrowth_rate: u128,
    pub effective_multiplier: u128,
    pub ecological_multiplier: u128,
    pub would_reach_equilibrium: bool,
}

/// A dry run of a period: the uncut mint, the given burn, the supply
/// before and after, the rate and multipliers, and whether this period's
/// balance would complete the streak that equilibrium needs.
pub fn query_simulate_period(
    c: &DynamicSupply,
    burn_amount: u128,
    staked_amount: u128,
    stability_committed: u128,
    delta_co2: Option<u128>,
) -> (r: SimulatePeriodResponse)
    requires
        c.wf(),
        mint_fits(c.params, c.state, staked_amount, stability_committed, delta_co2),
        c.state.consecutive_equilibrium_periods < u64::MAX,
    ensures
        ({
            let s = c.state;
            let (mint, m_eff, m_eco, rate) = mint_values(c.params, s, staked_amount, stability_committed, delta_co2);
            let (effective_mint, effective_burn, supply_after) =
                period_values(c.params, s, burn_amount, staked_amount, stability_committed, delta_co2);
            r == SimulatePeriodResponse {
                mint_amount: mint as u128,
                burn_amount,
                supply_before: s.current_supply,
                supply_after: supply_after as u128,
                regrowth_rate: rate as u128,
                effective_multiplier: m_eff as u128,
                ecological_multiplier: m_eco as u128,
                would_reach_equilibrium: abs_diff(effective_mint, effective_burn) < c.params.equilibrium_threshold
                    && s.consecutive_equilibrium_periods + 1 >= c.params.equilibrium_periods_required,
            }
        }),
{
    let (mint, effective_mult, eco_mult, rate) = compute_mint(&c.params, &c.state, staked_amount, stability_committed, delta_co2);
    proof {
        lemma_mint_bounded(c.params, c.state, staked_amount, stability_committed, delta_co2);
    }
    let supply_before = c.state.current_supply;
    let after_mint = supply_before + mint;
    let capped = if after_mint > c.params.hard_cap { c.params.hard_cap } else { after_mint };
    let supply_after = if burn_amount >= capped { 0 } else { capped - burn_amount };
    let effective_mint = if capped > supply_before { capped - supply_before } else { 0 };
    let effective_burn = if burn_amount >= capped { capped } else { burn_amount };
    let diff = if effective_mint > effective_burn { effective_mint - effective_burn } else { effective_burn - effective_mint };
    let would_reach_equilibrium = diff < c.params.equilibrium_threshold
        && c.state.consecutive_equilibrium_periods + 1 >= c.params.equilibrium_periods_required;
    SimulatePeriodResponse {
        mint_amount: mint,
        burn_amount,
        supply_before,
        supply_after,
        regrowth_rate: rate,
        effective_multiplier: effective_mult,
        ecological_multiplier: eco_mult,
        would_reach_equilibrium,
    }
}


// ── Governance ─────────────────────────────────────────────────────────

/// The admin sets the base regrowth rate, within `[0, 0.10]`.
pub fn execute_update_regrowth_rate(c: &mut DynamicSupply, sender: &String, rate: u128) -> (r: Result<(), SupplyError>)
    requires
        old(c).wf(),
    ensures
        sender@ != old(c).params.admin@ ==> r == Err::<(), SupplyError>(SupplyError::Unauthorized),
        sender@ == old(c).params.admin@ && !valid_regrowth_rate(rate)
            ==> r == Err::<(), SupplyError>(SupplyError::RegrowthRateExceedsBound { rate }),
        r is Ok <==> sender@ == old(c).params.admin@ && valid_regrowth_rate(rate),
        r is Err ==> *final(c) == *old(c),
        r is Ok ==> final(c).wf() && final(c).state == old(c).state && final(c).history == old(c).history
            && final(c).params == (SupplyParams { base_regrowth_rate: rate, ..old(c).params }),
{
    if *sender != c.params.admin {
        return Err(SupplyError::Unauthorized);
    }
    validate_regrowth_rate(rate)?;
    c.params.base_regrowth_rate = rate;
    Ok(())
}

/// The admin sets the M014 phase.
pub fn execute_update_m014_phase(c: &mut DynamicSupply, sender: &String, phase: M014Phase) -> (r: Result<(), SupplyError>)
    requires
        old(c).wf(),
    ensures
        r is Ok <==> sender@ == old(c).params.admin@,
        r is Err ==> r == Err::<(), SupplyError>(SupplyError::Unauthorized) && *final(c) == *old(c),
        r is Ok ==> final(c).wf() && final(c).state == old(c).state && final(c).history == old(c).history
            && final(c).params == (SupplyParams { m014_phase: phase, ..old(c).params }),
{
    if *sender != c.params.admin {
        return Err(SupplyError::Unauthorized);
    }
    c.params.m014_phase = phase;
    Ok(())
}

pub open spec fn set_ecological_check(c: DynamicSupply, sender: String, enabled: bool, reference_value: Option<u128>)
    -> Result<(), SupplyError> {
    if sender@ != c.params.admin@ {
        Err(SupplyError::Unauthorized)
    } else if reference_value == Some(0u128) {
        Err(SupplyError::ZeroReferenceValue)
    } else if enabled && reference_value is None && c.params.ecological_reference_value == 0 {
        Err(SupplyError::ZeroReferenceValue)
    } else {
        Ok(())
    }
}

/// The admin turns the ecological multiplier on or off, optionally with a
/// new (non-zero) reference value; it cannot be on without a reference.
pub fn execute_set_ecological_multiplier(
    c: &mut DynamicSupply,
    sender: &String,
    enabled: bool,
    reference_value: Option<u128>,
) -> (r: Result<(), SupplyError>)
    requires
        old(c).wf(),
    ensures
        r is Ok <==> set_ecological_check(*old(c), *sender, enabled, reference_value) is Ok,
        r is Err ==> r->Err_0 == set_ecological_check(*old(c), *sender, enabled, reference_value)->Err_0
            && *final(c) == *old(c),
        r is Ok ==> final(c).wf() && final(c).state == old(c).state && final(c).history == old(c).history
            && final(c).params == (SupplyParams {
                ecological_multiplier_enabled: enabled,
                ecological_reference_value: match reference_value {
                    Some(v) => v,
                    None => old(c).params.ecological_reference_value,
                },
                ..old(c).params
            }),
{
    if *sender != c.params.admin {
        return Err(SupplyError::Unauthorized);
    }
    let mut reference = c.params.ecological_reference_value;
    if let Some(v) = reference_value {
        if v == 0 {
            return Err(SupplyError::ZeroReferenceValue);
        }
        reference = v;
    }
    if enabled && reference == 0 {
        return Err(SupplyError::ZeroReferenceValue);
    }
    c.params.ecological_reference_value = reference;
    c.params.ecological_multiplier_enabled = enabled;
    Ok(())
}

/// The admin sets the equilibrium threshold and the streak it needs.
pub fn execute_update_equilibrium_params(
    c: &mut DynamicSupply,
    sender: &String,
    threshold: Option<u128>,
    periods_required: Option<u64>,
) -> (r: Result<(), SupplyError>)
    requires
        old(c).wf(),
    ensures
        r is Ok <==> sender@ == old(c).params.admin@,
        r is Err ==> r == Err::<(), SupplyError>(SupplyError::Unauthorized) && *final(c) == *old(c),
        r is Ok ==> final(c).wf() && final(c).state == old(c).state && final(c).history == old(c).history
            && final(c).params == (SupplyParams {
                equilibrium_threshold: match threshold { Some(v) => v, None => old(c).params.equilibrium_threshold },
                equilibrium_periods_required: match periods_required {
                    Some(v) => v,
                    None => old(c).params.equilibrium_periods_required,
                },
                ..old(c).params
            }),
{
    if *sender != c.params.admin {
        return Err(SupplyError::Unauthorized);
    }
    if let Some(t) = threshold {
        c.params.equilibrium_threshold = t;
    }
    if let Some(p) = periods_required {
        c.params.equilibrium_periods_required = p;
    }
    Ok(())
}

// ── Queries ────────────────────────────────────────────────────────────

#[derive(Clone, Copy, Debug, PartialEq, Eq, Structural)]
pub struct SupplyStateResponse {
    pub current_supply: u128,
    pub hard_cap: u128,
    pub total_minted: u128,
    pub total_burned: u128,
    pub period_count: u64,
    pub phase: SupplyPhase,
    pub cap_headroom: u128,
    pub consecutive_equilibrium_periods: u64,
}

/// The supply state with the cap and the headroom under it.
pub fn query_supply_state(c: &DynamicSupply) -> (r: SupplyStateResponse)
    ensures
        r == (SupplyStateResponse {
            current_supply: c.state.current_supply,
            hard_cap: c.params.hard_cap,
            total_minted: c.state.total_minted,
            total_burned: c.state.total_burned,
            period_count: c.state.period_count,
            phase: c.state.phase,
            cap_headroom: headroom(c.params, c.state) as u128,
            consecutive_equilibrium_periods: c.state.consecutive_equilibrium_periods,
        }),
{
    let room = if c.params.hard_cap > c.state.current_supply { c.params.hard_cap - c.state.current_supply } else { 0 };
    SupplyStateResponse {
        current_supply: c.state.current_supply,
        hard_cap: c.params.hard_cap,
        total_minted: c.state.total_minted,
        total_burned: c.state.total_burned,
        period_count: c.state.period_count,
        phase: c.state.phase,
        cap_headroom: room,
        consecutive_equilibrium_periods: c.state.consecutive_equilibrium_periods,
    }
}

/// The record of a period, if that period ran.
pub fn query_period_history(c: &DynamicSupply, period_id: u64) -> (r: Option<MintBurnRecord>)
    requires
        c.wf(),
    ensures
        r is Some <==> 1 <= period_id <= c.history.len(),
        r matches Some(rec) ==> rec == c.history@[period_id - 1] && rec.period_id == period_id,
{
    if period_id == 0 || period_id > c.history.len() as u64 {
        return None;
    }
    Some(c.history[(period_id - 1) as usize])
}

// ── Laws ───────────────────────────────────────────────────────────────

/// Every period conserves supply, `S[t+1] = S[t] + M[t] - B[t]` with the
/// effective mint and burn, keeps the supply within `[0, cap]`, and mints
/// no more than the computed regrowth.
pub proof fn law_period_conserves_supply(
    c: DynamicSupply,
    burn: u128,
    staked: u128,
    stability: u128,
    delta_co2: Option<u128>,
)
    requires
        c.wf(),
    ensures
        ({
            let (effective_mint, effective_burn, supply_after) = period_values(c.params, c.state, burn, staked, stability, delta_co2);
            let mint = mint_values(c.params, c.state, staked, stability, delta_co2).0;
            &&& supply_after == c.state.current_supply + effective_mint - effective_burn
            &&& 0 <= supply_after <= c.params.hard_cap
            &&& 0 <= effective_mint <= mint
            &&& 0 <= effective_burn <= burn
        }),
{
    lemma_mint_bounded(c.params, c.state, staked, stability, delta_co2);
}

/// Without a burn, a period that mints brings the supply strictly closer
/// to the cap and never past it.
pub proof fn law_supply_approaches_cap(c: DynamicSupply, staked: u128, stability: u128, delta_co2: Option<u128>)
    requires
        c.wf(),
        mint_values(c.params, c.state, staked, stability, delta_co2).0 > 0,
    ensures
        ({
            let supply_after = period_values(c.params, c.state, 0, staked, stability, delta_co2).2;
            c.state.current_supply < supply_after <= c.params.hard_cap
        }),
{
    lemma_mint_bounded(c.params, c.state, staked, stability, delta_co2);
}

/// The supply phase only moves forward: a period never returns to
/// Inflationary or Transition once past them; Dynamic and Equilibrium only
/// alternate.
pub proof fn law_phase_moves_forward(p: SupplyParams, s: SupplyState, effective_mint: int, effective_burn: int)
    ensures
        ({
            let phase = next_phase(p, s, effective_mint, effective_burn).0;
            &&& s.phase == SupplyPhase::Inflationary ==> phase == SupplyPhase::Inflationary
            &&& s.phase == SupplyPhase::Transition ==> phase != SupplyPhase::Inflationary
            &&& (s.phase == SupplyPhase::Dynamic || s.phase == SupplyPhase::Equilibrium)
                ==> (phase == SupplyPhase::Dynamic || phase == SupplyPhase::Equilibrium)
        }),
{
}

/// Over all recorded periods the supply is conserved: the supply before
/// the first period plus everything minted equals the current supply plus
/// everything burned; with no period recorded, nothing was minted or
/// burned.
pub proof fn law_supply_conserved_over_history(c: DynamicSupply)
    requires
        c.wf(),
    ensures
        c.history@.len() == 0 ==> c.state.total_minted == 0 && c.state.total_burned == 0,
        c.history@.len() > 0 ==> c.history@[0].supply_before + c.state.total_minted
            == c.state.current_supply + c.state.total_burned,
{
    let h = c.history@;
    if h.len() > 0 {
        lemma_history_conserves(h, h.len() as int);
        assert(h.take(h.len() as int) =~= h);
    }
}

} // verus!
