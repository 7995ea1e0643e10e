//! Bonded attestations: an attester locks a bond behind a claim, anyone may
//! challenge it with a deposit within a window, and the arbiter DAO settles
//! the challenge; unchallenged bonds are released after a lock period.

use vstd::prelude::*;
use crate::money::{
    CheckedAddr, Coin, Transfer, TransferView, from_seconds, lemma_ratio_le, lemma_ratio_monotonic,
    multiply_ratio, ratio, seconds, seconds_fit, send, send_if, send_nonzero, spec_seconds, tv,
};
use crate::paging::{cap_limit, capped_limit, first_n, kept_ids, page};

verus! {

pub const DEFAULT_QUERY_LIMIT: u32 = 10;
pub const MAX_QUERY_LIMIT: u32 = 30;
pub const SECONDS_PER_DAY: u64 = 86_400;
/// Highest challenge deposit ratio, in basis points.
pub const MAX_CHALLENGE_RATIO: u64 = 5000;
/// Highest arbiter fee ratio, in basis points.
pub const MAX_ARBITER_FEE: u64 = 2000;

#[derive(Clone, Copy, Debug, PartialEq, Eq, Structural)]
pub enum AttestationType {
    ProjectBoundary,
    BaselineMeasurement,
    CreditIssuanceClaim,
    MethodologyValidation,
}

#[derive(Clone, Copy, Debug, PartialEq, Eq, Structural)]
pub enum AttestationStatus {
    Bonded,
    Active,
    Challenged,
    ResolvedValid,
    Slashed,
    Released,
}

#[derive(Clone)]
pub struct Config {
    pub admin: String,
    pub arbiter_dao: String,
    pub community_pool: String,
    pub challenge_deposit_ratio_bps: u64,
    pub arbiter_fee_ratio_bps: u64,
    pub activation_delay_seconds: u64,
    pub denom: String,
    pub min_bond_project_boundary: u128,
    pub min_bond_baseline_measurement: u128,
    pub min_bond_credit_issuance: u128,
    pub min_bond_methodology_validation: u128,
    pub lock_period_project_boundary: u64,
    pub lock_period_baseline_measurement: u64,
    pub lock_period_credit_issuance: u64,
    pub lock_period_methodology_validation: u64,
    pub challenge_window_project_boundary: u64,
    pub challenge_window_baseline_measurement: u64,
    pub challenge_window_credit_issuance: u64,
    pub challenge_window_methodology_validation: u64,
}

impl Config {
    pub open spec fn spec_min_bond(self, t: AttestationType) -> u128 {
        match t {
            AttestationType::ProjectBoundary => self.min_bond_project_boundary,
            AttestationType::BaselineMeasurement => self.min_bond_baseline_measurement,
            AttestationType::CreditIssuanceClaim => self.min_bond_credit_issuance,
            AttestationType::MethodologyValidation => self.min_bond_methodology_validation,
        }
    }

    pub open spec fn spec_lock_period(self, t: AttestationType) -> u64 {
        match t {
            AttestationType::ProjectBoundary => self.lock_period_project_boundary,
            AttestationType::BaselineMeasurement => self.lock_period_baseline_measurement,
            AttestationType::CreditIssuanceClaim => self.lock_period_credit_issuance,
            AttestationType::MethodologyValidation => self.lock_period_methodology_validation,
        }
    }

    pub open spec fn spec_challenge_window(self, t: AttestationType) -> u64 {
        match t {
            AttestationType::ProjectBoundary => self.challenge_window_project_boundary,
            AttestationType::BaselineMeasurement => self.challenge_window_baseline_measurement,
            AttestationType::CreditIssuanceClaim => self.challenge_window_credit_issuance,
            AttestationType::MethodologyValidation => self.challenge_window_methodology_validation,
        }
    }

    /// The minimum bond for an attestation type.
    pub fn min_bond_for(&self, atype: &AttestationType) -> (r: u128)
        ensures
            r == self.spec_min_bond(*atype),
    {
        match atype {
            AttestationType::ProjectBoundary => self.min_bond_project_boundary,
            AttestationType::BaselineMeasurement => self.min_bond_baseline_measurement,
            AttestationType::CreditIssuanceClaim => self.min_bond_credit_issuance,
            AttestationType::MethodologyValidation => self.min_bond_methodology_validation,
        }
    }

    /// The lock period, in seconds, for an attestation type.
    pub fn lock_period_for(&self, atype: &AttestationType) -> (r: u64)
        ensures
            r == self.spec_lock_period(*atype),
    {
        match atype {
            AttestationType::ProjectBoundary => self.lock_period_project_boundary,
            AttestationType::BaselineMeasurement => self.lock_period_baseline_measurement,
            AttestationType::CreditIssuanceClaim => self.lock_period_credit_issuance,
            AttestationType::MethodologyValidation => self.lock_period_methodology_validation,
        }
    }

    /// The challenge window, in seconds, for an attestation type.
    pub fn challenge_window_for(&self, atype: &AttestationType) -> (r: u64)
        ensures
            r == self.spec_challenge_window(*atype),
    {
        match atype {
            AttestationType::ProjectBoundary => self.challenge_window_project_boundary,
            AttestationType::BaselineMeasurement => self.challenge_window_baseline_measurement,
            AttestationType::CreditIssuanceClaim => self.challenge_window_credit_issuance,
            AttestationType::MethodologyValidation => self.challenge_window_methodology_validation,
        }
    }
}

#[derive(Clone)]
pub struct Attestation {
    pub id: u64,
    pub attester: String,
    pub attestation_type: AttestationType,
    pub status: AttestationStatus,
    pub iri: String,
    pub bond_amount: u128,
    pub bonded_at: u64,
    pub activates_at: u64,
    pub lock_expires_at: u64,
    pub challenge_window_closes_at: u64,
    pub beneficiary: Option<String>,
}

#[derive(Clone, Copy, Debug, PartialEq, Eq, Structural)]
pub enum ChallengeResolution {
    Valid,
    Invalid,
}

#[derive(Clone)]
pub struct Challenge {
    pub id: u64,
    pub attestation_id: u64,
    pub challenger: String,
    pub evidence_iri: String,
    pub deposit: u128,
    pub deposited_at: u64,
    pub resolution: Option<ChallengeResolution>,
    pub resolved_at: Option<u64>,
}

#[derive(Clone, Copy, Debug, PartialEq, Eq, Structural)]
pub struct BondPoolState {
    pub total_bonded: u128,
    pub total_challenge_deposits: u128,
    pub total_disbursed: u128,
}

/// The open challenge of an attestation.
#[derive(Clone, Copy, Debug, PartialEq, Eq, Structural)]
pub struct ActiveChallenge {
    pub attestation_id: u64,
    pub challenge_id: u64,
}

pub struct InstantiateMsg {
    pub arbiter_dao: CheckedAddr,
    pub community_pool: CheckedAddr,
    pub denom: String,
    pub challenge_deposit_ratio_bps: Option<u64>,
    pub arbiter_fee_ratio_bps: Option<u64>,
    pub activation_delay_seconds: Option<u64>,
}

/// Everything the contract stores: configuration, attestations and
/// challenges by id (id `i + 1` at index `i`), the open challenge of each
/// challenged attestation, and the bond pool totals.
#[derive(Clone)]
pub struct AttestationState {
    pub config: Config,
    pub attestations: Vec<Attestation>,
    pub challenges: Vec<Challenge>,
    pub active: Vec<ActiveChallenge>,
    pub pool: BondPoolState,
}

#[derive(Clone, Copy, Debug, PartialEq, Eq, Structural)]
pub enum Expected {
    Bonded,
    BondedOrActive,
    Challenged,
    ActiveOrResolvedValid,
}

#[derive(Clone, Copy, Debug, PartialEq, Eq, Structural)]
pub enum Action {
    ResolveChallenge,
    ReleaseBond,
    UpdateConfig,
}

#[derive(Debug, PartialEq, Eq)]
pub enum AttestationError {
    Unauthorized { action: Action },
    AttestationNotFound { id: u64 },
    InvalidStatus { expected: Expected, actual: AttestationStatus },
    /// The activation delay has not passed yet.
    ActivationDelayNotPassed,
    BondBelowMinimum { sent: u128, required: u128, attestation_type: AttestationType },
    ChallengeDepositBelowMinimum { sent: u128, required: u128 },
    ChallengeWindowClosed,
    ActiveChallengePending { attestation_id: u64 },
    NoActiveChallenge { attestation_id: u64 },
    LockPeriodNotExpired,
    EmptyIri,
    /// Not exactly one coin was attached.
    CoinCount { denom: String, count: usize },
    /// The attached coin has amount zero.
    ZeroPayment,
    WrongDenom { expected: String, got: String },
    ResolverIsAttester,
    ResolverIsChallenger,
    FeeRateOutOfRange { value: u64, min: u64, max: u64 },
    InvalidAddress { address: String },
}

// ── Model ──────────────────────────────────────────────────────────────

/// Whether an attestation's bond is still held by the pool.
pub open spec fn bond_held(a: Attestation) -> bool {
    a.status == AttestationStatus::Bonded || a.status == AttestationStatus::Active
        || a.status == AttestationStatus::Challenged
}

/// Sum of the bonds the pool still holds.
pub open spec fn held_bonds(s: Seq<Attestation>) -> int
    decreases s.len(),
{
    if s.len() == 0 {
        0
    } else {
        held_bonds(s.drop_last()) + if bond_held(s.last()) { s.last().bond_amount as int } else { 0 }
    }
}

/// Sum of the deposits of unresolved challenges.
pub open spec fn held_deposits(s: Seq<Challenge>) -> int
    decreases s.len(),
{
    if s.len() == 0 {
        0
    } else {
        held_deposits(s.drop_last()) + if s.last().resolution is None { s.last().deposit as int } else { 0 }
    }
}

pub proof fn lemma_held_bonds_update(s: Seq<Attestation>, i: int, x: Attestation)
    requires
        0 <= i < s.len(),
    ensures
        held_bonds(s.update(i, x)) == held_bonds(s)
            - (if bond_held(s[i]) { s[i].bond_amount as int } else { 0 })
            + (if bond_held(x) { x.bond_amount as int } else { 0 }),
        bond_held(s[i]) ==> s[i].bond_amount <= held_bonds(s),
        held_bonds(s) >= 0,
    decreases s.len(),
{
    if i == s.len() - 1 {
        assert(s.update(i, x).drop_last() =~= s.drop_last());
        lemma_held_bonds_nonneg(s.drop_last());
    } else {
        lemma_held_bonds_update(s.drop_last(), i, x);
        assert(s.update(i, x).drop_last() =~= s.drop_last().update(i, x));
    }
}

pub proof fn lemma_held_bonds_nonneg(s: Seq<Attestation>)
    ensures
        held_bonds(s) >= 0,
    decreases s.len(),
{
    if s.len() > 0 {
        lemma_held_bonds_nonneg(s.drop_last());
    }
}

pub proof fn lemma_held_deposits_update(s: Seq<Challenge>, i: int, x: Challenge)
    requires
        0 <= i < s.len(),
    ensures
        held_deposits(s.update(i, x)) == held_deposits(s)
            - (if s[i].resolution is None { s[i].deposit as int } else { 0 })
            + (if x.resolution is None { x.deposit as int } else { 0 }),
        s[i].resolution is None ==> s[i].deposit <= held_deposits(s),
        held_deposits(s) >= 0,
    decreases s.len(),
{
    if i == s.len() - 1 {
        assert(s.update(i, x).drop_last() =~= s.drop_last());
        lemma_held_deposits_nonneg(s.drop_last());
    } else {
        lemma_held_deposits_update(s.drop_last(), i, x);
        assert(s.update(i, x).drop_last() =~= s.drop_last().update(i, x));
    }
}

pub proof fn lemma_held_deposits_nonneg(s: Seq<Challenge>)
    ensures
        held_deposits(s) >= 0,
    decreases s.len(),
{
    if s.len() > 0 {
        lemma_held_deposits_nonneg(s.drop_last());
    }
}

/// Whether attestation `aid` has an open challenge recorded.
pub open spec fn has_active(active: Seq<ActiveChallenge>, aid: u64) -> bool {
    exists|k: int| 0 <= k < active.len() && #[trigger] active[k].attestation_id == aid
}

impl AttestationState {
    pub open spec fn wf(self) -> bool {
        &&& self.config.challenge_deposit_ratio_bps <= MAX_CHALLENGE_RATIO
        &&& self.config.arbiter_fee_ratio_bps <= MAX_ARBITER_FEE
        &&& self.attestations.len() < u64::MAX
        &&& self.challenges.len() < u64::MAX
        &&& forall|i: int| 0 <= i < self.attestations.len() ==> #[trigger] self.attestations[i].id == i + 1
        &&& forall|i: int|
            0 <= i < self.challenges.len() ==> {
                &&& #[trigger] self.challenges[i].id == i + 1
                &&& 1 <= self.challenges[i].attestation_id <= self.attestations.len()
            }
        // Each open challenge names an existing attestation in the
        // Challenged status and an unresolved challenge of it; each
        // challenged attestation has exactly one.
        &&& forall|k: int|
            0 <= k < self.active.len() ==> {
                let e = #[trigger] self.active[k];
                &&& 1 <= e.attestation_id <= self.attestations.len()
                &&& 1 <= e.challenge_id <= self.challenges.len()
                &&& self.challenges[e.challenge_id - 1].attestation_id == e.attestation_id
                &&& self.challenges[e.challenge_id - 1].resolution is None
                &&& self.attestations[e.attestation_id - 1].status == AttestationStatus::Challenged
            }
        &&& forall|k1: int, k2: int|
            0 <= k1 < self.active.len() && 0 <= k2 < self.active.len() && k1 != k2
                ==> #[trigger] self.active[k1].attestation_id != #[trigger] self.active[k2].attestation_id
        &&& forall|i: int|
            0 <= i < self.attestations.len() && #[trigger] self.attestations[i].status == AttestationStatus::Challenged
                ==> has_active(self.active@, (i + 1) as u64)
        // Every unresolved challenge is the open challenge of its attestation.
        &&& forall|c: int|
            0 <= c < self.challenges.len() && #[trigger] self.challenges[c].resolution is None
                ==> exists|k: int| 0 <= k < self.active.len() && #[trigger] self.active[k].challenge_id == c + 1
    }

    /// The pool holds exactly the bonds of bonded, active and challenged
    /// attestations and the deposits of unresolved challenges.
    pub open spec fn pool_balanced(self) -> bool {
        &&& self.pool.total_bonded == held_bonds(self.attestations@)
        &&& self.pool.total_challenge_deposits == held_deposits(self.challenges@)
    }

    pub open spec fn has_attestation(self, id: u64) -> bool {
        1 <= id <= self.attestations.len()
    }

    pub open spec fn attestation(self, id: u64) -> Attestation {
        self.attestations[id - 1]
    }
}

impl Attestation {
    pub open spec fn same_claim(self, a: Attestation) -> bool {
        &&& self.id == a.id
        &&& self.attester == a.attester
        &&& self.attestation_type == a.attestation_type
        &&& self.iri == a.iri
        &&& self.bond_amount == a.bond_amount
        &&& self.bonded_at == a.bonded_at
        &&& self.activates_at == a.activates_at
        &&& self.lock_expires_at == a.lock_expires_at
        &&& self.challenge_window_closes_at == a.challenge_window_closes_at
        &&& self.beneficiary == a.beneficiary
    }
}

fn checked_addr(a: &CheckedAddr) -> (r: Result<String, AttestationError>)
    ensures
        match *a {
            Ok(s) => r == Ok::<String, AttestationError>(s),
            Err(s) => r == Err::<String, AttestationError>(AttestationError::InvalidAddress { address: s }),
        },
{
    match a {
        Ok(s) => Ok(s.clone()),
        Err(s) => Err(AttestationError::InvalidAddress { address: s.clone() }),
    }
}

pub open spec fn opt_or<T>(o: Option<T>, d: T) -> T {
    match o {
        Some(v) => v,
        None => d,
    }
}

pub open spec fn must_pay_spec(funds: Seq<Coin>, denom: String) -> Result<u128, AttestationError> {
    if funds.len() != 1 {
        Err(AttestationError::CoinCount { denom, count: funds.len() as usize })
    } else if funds[0].denom@ != denom@ {
        Err(AttestationError::WrongDenom { expected: denom, got: funds[0].denom })
    } else if funds[0].amount == 0 {
        Err(AttestationError::ZeroPayment)
    } else {
        Ok(funds[0].amount)
    }
}

/// Exactly one non-zero coin of `denom`: its amount.
pub fn must_pay(funds: &Vec<Coin>, denom: &String) -> (r: Result<u128, AttestationError>)
    ensures
        r == must_pay_spec(funds@, *denom),
{
    if funds.len() != 1 {
        return Err(AttestationError::CoinCount { denom: denom.clone(), count: funds.len() });
    }
    if funds[0].denom != *denom {
        return Err(AttestationError::WrongDenom { expected: denom.clone(), got: funds[0].denom.clone() });
    }
    if funds[0].amount == 0 {
        return Err(AttestationError::ZeroPayment);
    }
    Ok(funds[0].amount)
}

// ── Instantiate ────────────────────────────────────────────────────────

pub open spec fn instantiate_check(msg: InstantiateMsg) -> Result<(), AttestationError> {
    let ratio = opt_or(msg.challenge_deposit_ratio_bps, 1000u64);
    let fee = opt_or(msg.arbiter_fee_ratio_bps, 500u64);
    if ratio > MAX_CHALLENGE_RATIO {
        Err(AttestationError::FeeRateOutOfRange { value: ratio, min: 0, max: MAX_CHALLENGE_RATIO })
    } else if fee > MAX_ARBITER_FEE {
        Err(AttestationError::FeeRateOutOfRange { value: fee, min: 0, max: MAX_ARBITER_FEE })
    } else if msg.arbiter_dao is Err {
        Err(AttestationError::InvalidAddress { address: msg.arbiter_dao->Err_0 })
    } else if msg.community_pool is Err {
        Err(AttestationError::InvalidAddress { address: msg.community_pool->Err_0 })
    } else {
        Ok(())
    }
}

/// Creates the contract state: the deposit ratio (default 10%, at most
/// 50%) and arbiter fee (default 5%, at most 20%), a 48h default
/// activation delay, and the fixed minimum bonds, lock periods and
/// challenge windows of the four attestation types; an empty pool.
pub fn instantiate(sender: &String, msg: InstantiateMsg) -> (r: Result<AttestationState, AttestationError>)
    ensures
        r is Ok <==> instantiate_check(msg) is Ok,
        r is Err ==> r->Err_0 == instantiate_check(msg)->Err_0,
        r matches Ok(s) ==> {
            &&& s.wf() && s.pool_balanced()
            &&& s.attestations.len() == 0 && s.challenges.len() == 0 && s.active.len() == 0
            &&& s.pool == BondPoolState { total_bonded: 0, total_challenge_deposits: 0, total_disbursed: 0 }
            &&& s.config.admin == *sender
            &&& s.config.arbiter_dao == msg.arbiter_dao->Ok_0
            &&& s.config.community_pool == msg.community_pool->Ok_0
            &&& s.config.challenge_deposit_ratio_bps == opt_or(msg.challenge_deposit_ratio_bps, 1000u64)
            &&& s.config.arbiter_fee_ratio_bps == opt_or(msg.arbiter_fee_ratio_bps, 500u64)
            &&& s.config.activation_delay_seconds == opt_or(msg.activation_delay_seconds, 172_800u64)
            &&& s.config.denom == msg.denom
            &&& s.config.min_bond_project_boundary == 500_000_000
            &&& s.config.min_bond_baseline_measurement == 1_000_000_000
            &&& s.config.min_bond_credit_issuance == 2_000_000_000
            &&& s.config.min_bond_methodology_validation == 5_000_000_000
            &&& s.config.lock_period_project_boundary == 90 * SECONDS_PER_DAY
            &&& s.config.lock_period_baseline_measurement == 180 * SECONDS_PER_DAY
            &&& s.config.lock_period_credit_issuance == 365 * SECONDS_PER_DAY
            &&& s.config.lock_period_methodology_validation == 730 * SECONDS_PER_DAY
            &&& s.config.challenge_window_project_boundary == 60 * SECONDS_PER_DAY
            &&& s.config.challenge_window_baseline_measurement == 120 * SECONDS_PER_DAY
            &&& s.config.challenge_window_credit_issuance == 300 * SECONDS_PER_DAY
            &&& s.config.challenge_window_methodology_validation == 600 * SECONDS_PER_DAY
        },
{
    let challenge_ratio = match msg.challenge_deposit_ratio_bps { Some(v) => v, None => 1000 };
    let arbiter_fee = match msg.arbiter_fee_ratio_bps { Some(v) => v, None => 500 };
    if challenge_ratio > MAX_CHALLENGE_RATIO {
        return Err(AttestationError::FeeRateOutOfRange { value: challenge_ratio, min: 0, max: MAX_CHALLENGE_RATIO });
    }
    if arbiter_fee > MAX_ARBITER_FEE {
        return Err(AttestationError::FeeRateOutOfRange { value: arbiter_fee, min: 0, max: MAX_ARBITER_FEE });
    }
    let arbiter_dao = checked_addr(&msg.arbiter_dao)?;
    let community_pool = checked_addr(&msg.community_pool)?;
    let config = Config {
        admin: sender.clone(),
        arbiter_dao,
        community_pool,
        challenge_deposit_ratio_bps: challenge_ratio,
        arbiter_fee_ratio_bps: arbiter_fee,
        activation_delay_seconds: match msg.activation_delay_seconds { Some(v) => v, None => 172_800 },
        denom: msg.denom,
        min_bond_project_boundary: 500_000_000,
        min_bond_baseline_measurement: 1_000_000_000,
        min_bond_credit_issuance: 2_000_000_000,
        min_bond_methodology_validation: 5_000_000_000,
        lock_period_project_boundary: 90 * SECONDS_PER_DAY,
        lock_period_baseline_measurement: 180 * SECONDS_PER_DAY,
        lock_period_credit_issuance: 365 * SECONDS_PER_DAY,
        lock_period_methodology_validation: 730 * SECONDS_PER_DAY,
        challenge_window_project_boundary: 60 * SECONDS_PER_DAY,
        challenge_window_baseline_measurement: 120 * SECONDS_PER_DAY,
        challenge_window_credit_issuance: 300 * SECONDS_PER_DAY,
        challenge_window_methodology_validation: 600 * SECONDS_PER_DAY,
    };
    let s = AttestationState {
        config,
        attestations: Vec::new(),
        challenges: Vec::new(),
        active: Vec::new(),
        pool: BondPoolState { total_bonded: 0, total_challenge_deposits: 0, total_disbursed: 0 },
    };
    assert(s.attestations@ =~= Seq::<Attestation>::empty());
    assert(s.challenges@ =~= Seq::<Challenge>::empty());
    Ok(s)
}


// ── Create and activate ────────────────────────────────────────────────

pub open spec fn create_check(
    s: AttestationState,
    funds: Seq<Coin>,
    attestation_type: AttestationType,
    iri: String,
    beneficiary: Option<CheckedAddr>,
) -> Result<u128, AttestationError> {
    if iri@.len() == 0 {
        Err(AttestationError::EmptyIri)
    } else {
        match must_pay_spec(funds, s.config.denom) {
            Err(e) => Err(e),
            Ok(bond) => if bond < s.config.spec_min_bond(attestation_type) {
                Err(AttestationError::BondBelowMinimum {
                    sent: bond,
                    required: s.config.spec_min_bond(attestation_type),
                    attestation_type,
                })
            } else if beneficiary is Some && beneficiary->Some_0 is Err {
                Err(AttestationError::InvalidAddress { address: beneficiary->Some_0->Err_0 })
            } else {
                Ok(bond)
            },
        }
    }
}

/// `from_seconds(seconds(now) + offset)`.
pub open spec fn at_offset(now: u64, offset: u64) -> int {
    (spec_seconds(now) + offset) * 1_000_000_000
}

/// An attester bonds an attestation with exactly one coin of at least the
/// minimum bond of its type; the bond joins the pool. Returns the new id.
#[verifier::spinoff_prover]
#[verifier::rlimit(30)]
pub fn execute_create(
    state: &mut AttestationState,
    sender: &String,
    now: u64,
    funds: &Vec<Coin>,
    attestation_type: AttestationType,
    iri: String,
    beneficiary: Option<CheckedAddr>,
) -> (r: Result<u64, AttestationError>)
    requires
        old(state).wf(),
        old(state).attestations.len() + 1 < u64::MAX,
        create_check(*old(state), funds@, attestation_type, iri, beneficiary) matches Ok(bond) ==> {
            &&& old(state).pool.total_bonded + bond <= u128::MAX
            &&& seconds_fit(spec_seconds(now) + old(state).config.activation_delay_seconds)
            &&& seconds_fit(spec_seconds(now) + old(state).config.spec_lock_period(attestation_type))
            &&& seconds_fit(spec_seconds(now) + old(state).config.spec_challenge_window(attestation_type))
        },
    ensures
        r is Ok <==> create_check(*old(state), funds@, attestation_type, iri, beneficiary) is Ok,
        r is Err ==> r->Err_0 == create_check(*old(state), funds@, attestation_type, iri, beneficiary)->Err_0
            && *final(state) == *old(state),
        r matches Ok(id) ==> {
            let bond = create_check(*old(state), funds@, attestation_type, iri, beneficiary)->Ok_0;
            let n = old(state).attestations.len() as int;
            let a = final(state).attestations@[n];
            let cfg = old(state).config;
            &&& final(state).wf()
            &&& old(state).pool_balanced() ==> final(state).pool_balanced()
            &&& final(state).config == old(state).config
            &&& final(state).challenges == old(state).challenges
            &&& final(state).active == old(state).active
            &&& final(state).attestations@.len() == n + 1
            &&& final(state).attestations@.take(n) == old(state).attestations@
            &&& final(state).pool == BondPoolState { total_bonded: (old(state).pool.total_bonded + bond) as u128, ..old(state).pool }
            &&& id == n + 1
            &&& a.id == id
            &&& a.attester == *sender
            &&& a.attestation_type == attestation_type
            &&& a.status == AttestationStatus::Bonded
            &&& a.iri == iri
            &&& a.bond_amount == bond
            &&& a.bonded_at == now
            &&& a.activates_at == at_offset(now, cfg.activation_delay_seconds)
            &&& a.lock_expires_at == at_offset(now, cfg.spec_lock_period(attestation_type))
            &&& a.challenge_window_closes_at == at_offset(now, cfg.spec_challenge_window(attestation_type))
            &&& a.beneficiary == (match beneficiary { Some(Ok(b)) => Some(b), _ => None::<String> })
        },
{
    if iri.as_str().is_empty() {
        return Err(AttestationError::EmptyIri);
    }
    let min_bond = state.config.min_bond_for(&attestation_type);
    let bond_amount = must_pay(funds, &state.config.denom)?;
    if bond_amount < min_bond {
        return Err(AttestationError::BondBelowMinimum { sent: bond_amount, required: min_bond, attestation_type });
    }
    let beneficiary_addr = match &beneficiary {
        Some(b) => Some(checked_addr(b)?),
        None => None,
    };
    let lock_period = state.config.lock_period_for(&attestation_type);
    let challenge_window = state.config.challenge_window_for(&attestation_type);
    let now_s = seconds(now);
    let id = state.attestations.len() as u64 + 1;
    let attestation = Attestation {
        id,
        attester: sender.clone(),
        attestation_type,
        status: AttestationStatus::Bonded,
        iri,
        bond_amount,
        bonded_at: now,
        activates_at: from_seconds(now_s + state.config.activation_delay_seconds),
        lock_expires_at: from_seconds(now_s + lock_period),
        challenge_window_closes_at: from_seconds(now_s + challenge_window),
        beneficiary: beneficiary_addr,
    };
    let ghost old_atts = state.attestations@;
    state.attestations.push(attestation);
    state.pool.total_bonded = state.pool.total_bonded + bond_amount;
    proof {
        assert(state.attestations@.take(old_atts.len() as int) =~= old_atts);
        assert(state.attestations@.drop_last() =~= old_atts);
        assert forall|k: int| 0 <= k < state.active.len() implies {
            let e = #[trigger] state.active[k];
            &&& 1 <= e.attestation_id <= state.attestations.len()
            &&& 1 <= e.challenge_id <= state.challenges.len()
            &&& state.challenges[e.challenge_id - 1].attestation_id == e.attestation_id
            &&& state.challenges[e.challenge_id - 1].resolution is None
            &&& state.attestations[e.attestation_id - 1].status == AttestationStatus::Challenged
        } by {
            assert(state.attestations[state.active[k].attestation_id - 1] == old_atts[state.active[k].attestation_id - 1]);
        }
        assert forall|i: int|
            0 <= i < state.attestations.len() && #[trigger] state.attestations[i].status == AttestationStatus::Challenged
            implies has_active(state.active@, (i + 1) as u64) by {
            assert(state.attestations[i] == old_atts[i]);
        }
        assert forall|i: int| 0 <= i < state.challenges.len() implies {
            &&& #[trigger] state.challenges[i].id == i + 1
            &&& 1 <= state.challenges[i].attestation_id <= state.attestations.len()
        } by {
            assert(state.challenges[i] == old(state).challenges[i]);
            assert(old(state).challenges[i].id == i + 1);
        }
        assert(state.wf());
        lemma_held_bonds_nonneg(old_atts);
    }
    Ok(id)
}

/// The index of attestation `id`, or the not-found error.
pub fn load_attestation(state: &AttestationState, id: u64) -> (r: Result<usize, AttestationError>)
    ensures
        r is Ok <==> state.has_attestation(id),
        r matches Ok(i) ==> i == id - 1,
        r is Err ==> r == Err::<usize, AttestationError>(AttestationError::AttestationNotFound { id }),
{
    if id == 0 || id > state.attestations.len() as u64 {
        return Err(AttestationError::AttestationNotFound { id });
    }
    Ok((id - 1) as usize)
}

pub open spec fn activate_check(s: AttestationState, now: u64, id: u64) -> Result<(), AttestationError> {
    if !s.has_attestation(id) {
        Err(AttestationError::AttestationNotFound { id })
    } else if s.attestation(id).status != AttestationStatus::Bonded {
        Err(AttestationError::InvalidStatus { expected: Expected::Bonded, actual: s.attestation(id).status })
    } else if now < s.attestation(id).activates_at {
        Err(AttestationError::ActivationDelayNotPassed)
    } else {
        Ok(())
    }
}

/// Anyone activates a bonded attestation once its activation delay passed.
pub fn execute_activate(state: &mut AttestationState, now: u64, attestation_id: u64) -> (r: Result<(), AttestationError>)
    requires
        old(state).wf(),
    ensures
        r == activate_check(*old(state), now, attestation_id),
        r is Err ==> *final(state) == *old(state),
        r is Ok ==> {
            let a = old(state).attestation(attestation_id);
            let b = final(state).attestation(attestation_id);
            &&& final(state).wf()
            &&& old(state).pool_balanced() ==> final(state).pool_balanced()
            &&& final(state).config == old(state).config
            &&& final(state).challenges == old(state).challenges
            &&& final(state).active == old(state).active
            &&& final(state).pool == old(state).pool
            &&& final(state).attestations@ == old(state).attestations@.update(attestation_id - 1, b)
            &&& b.same_claim(a)
            &&& b.status == AttestationStatus::Active
        },
{
    let i = load_attestation(state, attestation_id)?;
    if state.attestations[i].status != AttestationStatus::Bonded {
        return Err(AttestationError::InvalidStatus { expected: Expected::Bonded, actual: state.attestations[i].status });
    }
    if now < state.attestations[i].activates_at {
        return Err(AttestationError::ActivationDelayNotPassed);
    }
    let ghost old_state = *state;
    state.attestations[i].status = AttestationStatus::Active;
    proof {
        let b = state.attestations@[i as int];
        assert(state.attestations@ =~= old_state.attestations@.update(i as int, b));
        lemma_held_bonds_update(old_state.attestations@, i as int, b);
        assert forall|k: int| 0 <= k < state.active.len() implies {
            let e = #[trigger] state.active[k];
            &&& 1 <= e.attestation_id <= state.attestations.len()
            &&& 1 <= e.challenge_id <= state.challenges.len()
            &&& state.challenges[e.challenge_id - 1].attestation_id == e.attestation_id
            &&& state.challenges[e.challenge_id - 1].resolution is None
            &&& state.attestations[e.attestation_id - 1].status == AttestationStatus::Challenged
        } by {
            let e = state.active[k];
            assert(old_state.attestations[e.attestation_id - 1].status == AttestationStatus::Challenged);
        }
        assert forall|j: int|
            0 <= j < state.attestations.len() && #[trigger] state.attestations[j].status == AttestationStatus::Challenged
            implies has_active(state.active@, (j + 1) as u64) by {
            assert(state.attestations[j] == old_state.attestations[j]);
        }
        assert forall|j: int| 0 <= j < state.attestations.len() implies #[trigger] state.attestations[j].id == j + 1 by {
            assert(old_state.attestations[j].id == j + 1);
        }
    }
    Ok(())
}


// ── Challenge ──────────────────────────────────────────────────────────

/// The position of the open challenge of attestation `aid`, if any.
pub fn find_active(active: &Vec<ActiveChallenge>, aid: u64) -> (r: Option<usize>)
    ensures
        r matches Some(k) ==> k < active.len() && active@[k as int].attestation_id == aid,
        r is None <==> !has_active(active@, aid),
{
    let mut k: usize = 0;
    while k < active.len()
        invariant
            k <= active.len(),
            forall|j: int| 0 <= j < k ==> #[trigger] active@[j].attestation_id != aid,
        decreases active.len() - k,
    {
        if active[k].attestation_id == aid {
            return Some(k);
        }
        k += 1;
    }
    None
}

/// The open challenge of an attestation, if it has one.
pub fn active_challenge_of(state: &AttestationState, attestation_id: u64) -> (r: Option<u64>)
    ensures
        r is None <==> !has_active(state.active@, attestation_id),
        r matches Some(c) ==> exists|k: int| 0 <= k < state.active.len()
            && #[trigger] state.active[k].attestation_id == attestation_id && state.active[k].challenge_id == c,
{
    match find_active(&state.active, attestation_id) {
        Some(k) => Some(state.active[k].challenge_id),
        None => None,
    }
}

pub open spec fn min_deposit(s: AttestationState, id: u64) -> int {
    ratio(s.attestation(id).bond_amount as int, s.config.challenge_deposit_ratio_bps as int, 10_000)
}

pub open spec fn challenge_check(
    s: AttestationState,
    now: u64,
    funds: Seq<Coin>,
    id: u64,
    evidence_iri: String,
) -> Result<u128, AttestationError> {
    if evidence_iri@.len() == 0 {
        Err(AttestationError::EmptyIri)
    } else if !s.has_attestation(id) {
        Err(AttestationError::AttestationNotFound { id })
    } else {
        let a = s.attestation(id);
        if a.status != AttestationStatus::Bonded && a.status != AttestationStatus::Active {
            Err(AttestationError::InvalidStatus { expected: Expected::BondedOrActive, actual: a.status })
        } else if now > a.challenge_window_closes_at {
            Err(AttestationError::ChallengeWindowClosed)
        } else if has_active(s.active@, id) {
            Err(AttestationError::ActiveChallengePending { attestation_id: id })
        } else {
            match must_pay_spec(funds, s.config.denom) {
                Err(e) => Err(e),
                Ok(deposit) => if deposit < min_deposit(s, id) {
                    Err(AttestationError::ChallengeDepositBelowMinimum {
                        sent: deposit,
                        required: min_deposit(s, id) as u128,
                    })
                } else {
                    Ok(deposit)
                },
            }
        }
    }
}

/// Anyone challenges a bonded or active attestation within its window, with
/// exactly one coin of at least the deposit ratio of the bond; the deposit
/// joins the pool and the attestation is challenged. Returns the challenge id.
pub fn execute_challenge(
    state: &mut AttestationState,
    sender: &String,
    now: u64,
    funds: &Vec<Coin>,
    attestation_id: u64,
    evidence_iri: String,
) -> (r: Result<u64, AttestationError>)
    requires
        old(state).wf(),
        old(state).challenges.len() + 1 < u64::MAX,
        challenge_check(*old(state), now, funds@, attestation_id, evidence_iri) matches Ok(deposit)
            ==> old(state).pool.total_challenge_deposits + deposit <= u128::MAX,
    ensures
        r is Ok <==> challenge_check(*old(state), now, funds@, attestation_id, evidence_iri) is Ok,
        r is Err ==> r->Err_0 == challenge_check(*old(state), now, funds@, attestation_id, evidence_iri)->Err_0
            && *final(state) == *old(state),
        r matches Ok(cid) ==> {
            let deposit = challenge_check(*old(state), now, funds@, attestation_id, evidence_iri)->Ok_0;
            let a = old(state).attestation(attestation_id);
            let b = final(state).attestation(attestation_id);
            let n = old(state).challenges.len() as int;
            let c = final(state).challenges@[n];
            &&& final(state).wf()
            &&& old(state).pool_balanced() ==> final(state).pool_balanced()
            &&& final(state).config == old(state).config
            &&& final(state).attestations@ == old(state).attestations@.update(attestation_id - 1, b)
            &&& b.same_claim(a)
            &&& b.status == AttestationStatus::Challenged
            &&& final(state).challenges@.len() == n + 1
            &&& final(state).challenges@.take(n) == old(state).challenges@
            &&& cid == n + 1
            &&& c.id == cid && c.attestation_id == attestation_id && c.challenger == *sender
            &&& c.evidence_iri == evidence_iri && c.deposit == deposit && c.deposited_at == now
            &&& c.resolution is None && c.resolved_at is None
            &&& final(state).active@ == old(state).active@.push(ActiveChallenge { attestation_id, challenge_id: cid })
            &&& final(state).pool == BondPoolState {
                total_challenge_deposits: (old(state).pool.total_challenge_deposits + deposit) as u128,
                ..old(state).pool
            }
        },
{
    if evidence_iri.as_str().is_empty() {
        return Err(AttestationError::EmptyIri);
    }
    let i = load_attestation(state, attestation_id)?;
    let status = state.attestations[i].status;
    if status != AttestationStatus::Bonded && status != AttestationStatus::Active {
        return Err(AttestationError::InvalidStatus { expected: Expected::BondedOrActive, actual: status });
    }
    if now > state.attestations[i].challenge_window_closes_at {
        return Err(AttestationError::ChallengeWindowClosed);
    }
    if find_active(&state.active, attestation_id).is_some() {
        return Err(AttestationError::ActiveChallengePending { attestation_id });
    }
    proof {
        lemma_ratio_le(state.attestations[i as int].bond_amount as int, state.config.challenge_deposit_ratio_bps as int, 10_000);
    }
    let min_dep = multiply_ratio(
        state.attestations[i].bond_amount,
        state.config.challenge_deposit_ratio_bps as u128,
        10_000,
    );
    let deposit = must_pay(funds, &state.config.denom)?;
    if deposit < min_dep {
        return Err(AttestationError::ChallengeDepositBelowMinimum { sent: deposit, required: min_dep });
    }
    let ghost old_state = *state;
    let cid = state.challenges.len() as u64 + 1;
    state.challenges.push(Challenge {
        id: cid,
        attestation_id,
        challenger: sender.clone(),
        evidence_iri,
        deposit,
        deposited_at: now,
        resolution: None,
        resolved_at: None,
    });
    state.active.push(ActiveChallenge { attestation_id, challenge_id: cid });
    state.attestations[i].status = AttestationStatus::Challenged;
    state.pool.total_challenge_deposits = state.pool.total_challenge_deposits + deposit;
    proof {
        let b = state.attestations@[i as int];
        let nc = old_state.challenges.len() as int;
        let na = old_state.active.len() as int;
        assert(state.attestations@ =~= old_state.attestations@.update(i as int, b));
        lemma_held_bonds_update(old_state.attestations@, i as int, b);
        assert(state.challenges@.take(nc) =~= old_state.challenges@);
        assert(state.challenges@.drop_last() =~= old_state.challenges@);
        assert forall|j: int| 0 <= j < state.attestations.len() implies #[trigger] state.attestations[j].id == j + 1 by {
            assert(old_state.attestations[j].id == j + 1);
        }
        assert forall|j: int| 0 <= j < state.challenges.len() implies {
            &&& #[trigger] state.challenges[j].id == j + 1
            &&& 1 <= state.challenges[j].attestation_id <= state.attestations.len()
        } by {
            if j < nc {
                assert(state.challenges[j] == old_state.challenges[j]);
            }
        }
        assert forall|k: int| 0 <= k < state.active.len() implies {
            let e = #[trigger] state.active[k];
            &&& 1 <= e.attestation_id <= state.attestations.len()
            &&& 1 <= e.challenge_id <= state.challenges.len()
            &&& state.challenges[e.challenge_id - 1].attestation_id == e.attestation_id
            &&& state.challenges[e.challenge_id - 1].resolution is None
            &&& state.attestations[e.attestation_id - 1].status == AttestationStatus::Challenged
        } by {
            if k < na {
                let e = old_state.active[k];
                assert(state.active[k] == e);
                assert(e.attestation_id != attestation_id);
                assert(state.challenges[e.challenge_id - 1] == old_state.challenges[e.challenge_id - 1]);
            }
        }
        assert forall|k1: int, k2: int|
            0 <= k1 < state.active.len() && 0 <= k2 < state.active.len() && k1 != k2
            implies #[trigger] state.active[k1].attestation_id != #[trigger] state.active[k2].attestation_id by {
            if k1 < na {
                assert(state.active[k1] == old_state.active[k1]);
            }
            if k2 < na {
                assert(state.active[k2] == old_state.active[k2]);
            }
        }
        assert forall|j: int|
            0 <= j < state.attestations.len() && #[trigger] state.attestations[j].status == AttestationStatus::Challenged
            implies has_active(state.active@, (j + 1) as u64) by {
            if j == i {
                assert(state.active[na].attestation_id == attestation_id);
            } else {
                assert(state.attestations[j] == old_state.attestations[j]);
                let k = choose|k: int| 0 <= k < old_state.active.len() && #[trigger] old_state.active[k].attestation_id == (j + 1) as u64;
                assert(state.active[k] == old_state.active[k]);
            }
        }
        assert forall|c: int|
            0 <= c < state.challenges.len() && #[trigger] state.challenges[c].resolution is None
            implies exists|k: int| 0 <= k < state.active.len() && #[trigger] state.active[k].challenge_id == c + 1 by {
            if c == nc {
                assert(state.active[na].challenge_id == c + 1);
            } else {
                assert(state.challenges[c] == old_state.challenges[c]);
                let k = choose|k: int| 0 <= k < old_state.active.len() && #[trigger] old_state.active[k].challenge_id == c + 1;
                assert(state.active[k] == old_state.active[k]);
            }
        }
    }
    Ok(cid)
}


// ── Resolve ────────────────────────────────────────────────────────────

/// Position, in the open-challenge list, of the entry of attestation `id`.
pub open spec fn active_index(s: AttestationState, id: u64) -> int {
    choose|k: int| 0 <= k < s.active.len() && #[trigger] s.active[k].attestation_id == id
}

/// The open challenge of attestation `id`.
pub open spec fn open_challenge(s: AttestationState, id: u64) -> Challenge {
    s.challenges[s.active[active_index(s, id)].challenge_id - 1]
}

pub open spec fn resolve_check(s: AttestationState, sender: String, id: u64) -> Result<(), AttestationError> {
    if sender@ != s.config.arbiter_dao@ && sender@ != s.config.admin@ {
        Err(AttestationError::Unauthorized { action: Action::ResolveChallenge })
    } else if !s.has_attestation(id) {
        Err(AttestationError::AttestationNotFound { id })
    } else if s.attestation(id).status != AttestationStatus::Challenged {
        Err(AttestationError::InvalidStatus { expected: Expected::Challenged, actual: s.attestation(id).status })
    } else if !has_active(s.active@, id) {
        Err(AttestationError::NoActiveChallenge { attestation_id: id })
    } else if sender@ == s.attestation(id).attester@ {
        Err(AttestationError::ResolverIsAttester)
    } else if sender@ == open_challenge(s, id).challenger@ {
        Err(AttestationError::ResolverIsChallenger)
    } else {
        Ok(())
    }
}

/// The refusal a resolution of the attestation's challenge would meet
/// now, if any: a resolution goes ahead exactly when this is `Ok`.
pub fn may_resolve(state: &AttestationState, sender: &String, attestation_id: u64) -> (r: Result<(), AttestationError>)
    requires
        state.wf(),
    ensures
        r == resolve_check(*state, *sender, attestation_id),
{
    if *sender != state.config.arbiter_dao && *sender != state.config.admin {
        return Err(AttestationError::Unauthorized { action: Action::ResolveChallenge });
    }
    let i = load_attestation(state, attestation_id)?;
    if state.attestations[i].status != AttestationStatus::Challenged {
        return Err(AttestationError::InvalidStatus { expected: Expected::Challenged, actual: state.attestations[i].status });
    }
    let k = match find_active(&state.active, attestation_id) {
        Some(k) => k,
        None => { return Err(AttestationError::NoActiveChallenge { attestation_id }); },
    };
    proof {
        lemma_active_index(*state, attestation_id, k as int);
        assert(state.active[k as int] == state.active@[k as int]);
    }
    let ci = (state.active[k].challenge_id - 1) as usize;
    if *sender == state.attestations[i].attester {
        return Err(AttestationError::ResolverIsAttester);
    }
    if *sender == state.challenges[ci].challenger {
        return Err(AttestationError::ResolverIsChallenger);
    }
    Ok(())
}

/// The arbiter fee on an attestation's bond.
pub open spec fn arbiter_fee(s: AttestationState, id: u64) -> int {
    ratio(s.attestation(id).bond_amount as int, s.config.arbiter_fee_ratio_bps as int, 10_000)
}

/// Half the bond, rounded down.
pub open spec fn bond_half(s: AttestationState, id: u64) -> int {
    ratio(s.attestation(id).bond_amount as int, 1, 2)
}

/// What the winner of a resolution receives: the attester gets the bond and
/// the deposit, the challenger half the bond and the deposit, less the fee.
pub open spec fn winner_receives(s: AttestationState, id: u64, resolution: ChallengeResolution) -> int {
    let deposit = open_challenge(s, id).deposit as int;
    match resolution {
        ChallengeResolution::Valid => s.attestation(id).bond_amount + deposit - arbiter_fee(s, id),
        ChallengeResolution::Invalid => bond_half(s, id) + deposit - arbiter_fee(s, id),
    }
}

/// What the community pool receives: the fee, and for a slashed bond the
/// other half of it too.
pub open spec fn community_receives(s: AttestationState, id: u64, resolution: ChallengeResolution) -> int {
    match resolution {
        ChallengeResolution::Valid => arbiter_fee(s, id),
        ChallengeResolution::Invalid => bond_half(s, id) + arbiter_fee(s, id),
    }
}

/// The transfers of a resolution: the winner's share, then the community
/// pool's; a zero amount is not sent.
pub open spec fn resolve_transfers(s: AttestationState, id: u64, resolution: ChallengeResolution) -> Seq<TransferView> {
    let winner = match resolution {
        ChallengeResolution::Valid => s.attestation(id).attester,
        ChallengeResolution::Invalid => open_challenge(s, id).challenger,
    };
    send_if(winner@, s.config.denom@, winner_receives(s, id, resolution) as u128)
        + send_if(s.config.community_pool@, s.config.denom@, community_receives(s, id, resolution) as u128)
}

/// Whether the amounts of a resolution fit: the winner's share in `u128`,
/// the pool totals it lowers at least what they lose, the disbursed total
/// within `u128`.
pub open spec fn resolve_fits(s: AttestationState, id: u64, resolution: ChallengeResolution) -> bool {
    let bond = s.attestation(id).bond_amount as int;
    let deposit = open_challenge(s, id).deposit as int;
    let paid_in = match resolution {
        ChallengeResolution::Valid => bond + deposit,
        ChallengeResolution::Invalid => bond_half(s, id) + deposit,
    };
    &&& paid_in <= u128::MAX
    &&& s.pool.total_bonded >= bond
    &&& s.pool.total_challenge_deposits >= deposit
    &&& s.pool.total_disbursed + winner_receives(s, id, resolution) + community_receives(s, id, resolution) <= u128::MAX
}

#[derive(Clone)]
pub struct ResolveOutcome {
    pub challenge_id: u64,
    pub arbiter_fee: u128,
    pub transfers: Vec<Transfer>,
}

/// The entry at `k` is the one of attestation `id`.
proof fn lemma_active_index(s: AttestationState, id: u64, k: int)
    requires
        s.wf(),
        0 <= k < s.active.len(),
        s.active[k].attestation_id == id,
    ensures
        active_index(s, id) == k,
{
    let j = active_index(s, id);
    assert(0 <= j < s.active.len() && s.active[j].attestation_id == id);
    if j != k {
        assert(s.active[j].attestation_id != s.active[k].attestation_id);
    }
}

/// The arbiter DAO or the admin, neither the attester nor the challenger,
/// settles the open challenge of an attestation. Valid: the attester gets
/// the bond and the deposit less the arbiter fee, the community pool the
/// fee. Invalid: the challenger gets half the bond and the deposit less the
/// fee, the community pool the other half and the fee, and the attestation
/// is slashed. The challenge records its resolution and is no longer open.
#[verifier::spinoff_prover]
#[verifier::rlimit(50)]
pub fn execute_resolve(
    state: &mut AttestationState,
    sender: &String,
    now: u64,
    attestation_id: u64,
    resolution: ChallengeResolution,
) -> (r: Result<ResolveOutcome, AttestationError>)
    requires
        old(state).wf(),
        resolve_check(*old(state), *sender, attestation_id) is Ok
            ==> resolve_fits(*old(state), attestation_id, resolution),
    ensures
        r is Ok <==> resolve_check(*old(state), *sender, attestation_id) is Ok,
        r is Err ==> r->Err_0 == resolve_check(*old(state), *sender, attestation_id)->Err_0
            && *final(state) == *old(state),
        r matches Ok(out) ==> {
            let a = old(state).attestation(attestation_id);
            let b = final(state).attestation(attestation_id);
            let k = active_index(*old(state), attestation_id);
            let cid = old(state).active[k].challenge_id;
            let c = old(state).challenges[cid - 1];
            &&& final(state).wf()
            &&& old(state).pool_balanced() ==> final(state).pool_balanced()
            &&& final(state).config == old(state).config
            &&& out.challenge_id == cid
            &&& out.arbiter_fee == arbiter_fee(*old(state), attestation_id)
            &&& tv(out.transfers@) == resolve_transfers(*old(state), attestation_id, resolution)
            &&& final(state).attestations@ == old(state).attestations@.update(attestation_id - 1, b)
            &&& b.same_claim(a)
            &&& b.status == (match resolution {
                ChallengeResolution::Valid => AttestationStatus::ResolvedValid,
                ChallengeResolution::Invalid => AttestationStatus::Slashed,
            })
            &&& final(state).challenges@ == old(state).challenges@.update(
                cid - 1,
                Challenge { resolution: Some(resolution), resolved_at: Some(now), ..c },
            )
            &&& final(state).active@ == old(state).active@.remove(k)
            &&& final(state).pool == BondPoolState {
                total_bonded: (old(state).pool.total_bonded - a.bond_amount) as u128,
                total_challenge_deposits: (old(state).pool.total_challenge_deposits - c.deposit) as u128,
                total_disbursed: (old(state).pool.total_disbursed
                    + winner_receives(*old(state), attestation_id, resolution)
                    + community_receives(*old(state), attestation_id, resolution)) as u128,
            }
        },
{
    if *sender != state.config.arbiter_dao && *sender != state.config.admin {
        return Err(AttestationError::Unauthorized { action: Action::ResolveChallenge });
    }
    let i = load_attestation(state, attestation_id)?;
    if state.attestations[i].status != AttestationStatus::Challenged {
        return Err(AttestationError::InvalidStatus { expected: Expected::Challenged, actual: state.attestations[i].status });
    }
    let k = match find_active(&state.active, attestation_id) {
        Some(k) => k,
        None => { return Err(AttestationError::NoActiveChallenge { attestation_id }); },
    };
    proof {
        lemma_active_index(*state, attestation_id, k as int);
        assert(state.active[k as int] == state.active@[k as int]);
    }
    let cid = state.active[k].challenge_id;
    let ci = (cid - 1) as usize;
    if *sender == state.attestations[i].attester {
        return Err(AttestationError::ResolverIsAttester);
    }
    if *sender == state.challenges[ci].challenger {
        return Err(AttestationError::ResolverIsChallenger);
    }
    let bond = state.attestations[i].bond_amount;
    let deposit = state.challenges[ci].deposit;
    proof {
        lemma_ratio_le(bond as int, state.config.arbiter_fee_ratio_bps as int, 10_000);
        lemma_ratio_le(bond as int, 1, 2);
        lemma_ratio_monotonic(bond as int, state.config.arbiter_fee_ratio_bps as int, 5000, 10_000);
        assert(ratio(bond as int, 5000, 10_000) == ratio(bond as int, 1, 2)) by (nonlinear_arith);
    }
    let fee = multiply_ratio(bond, state.config.arbiter_fee_ratio_bps as u128, 10_000);
    let mut transfers: Vec<Transfer> = Vec::new();
    let new_status;
    let disbursed;
    match resolution {
        ChallengeResolution::Valid => {
            let attester_receives = bond + deposit - fee;
            send_nonzero(&mut transfers, &state.attestations[i].attester, &state.config.denom, attester_receives);
            send_nonzero(&mut transfers, &state.config.community_pool, &state.config.denom, fee);
            new_status = AttestationStatus::ResolvedValid;
            disbursed = attester_receives + fee;
        },
        ChallengeResolution::Invalid => {
            let half = multiply_ratio(bond, 1, 2);
            let challenger_receives = half + deposit - fee;
            let community = half + fee;
            send_nonzero(&mut transfers, &state.challenges[ci].challenger, &state.config.denom, challenger_receives);
            send_nonzero(&mut transfers, &state.config.community_pool, &state.config.denom, community);
            new_status = AttestationStatus::Slashed;
            disbursed = challenger_receives + community;
        },
    }
    assert(tv(transfers@) =~= resolve_transfers(*old(state), attestation_id, resolution));
    let ghost old_state = *state;
    state.attestations[i].status = new_status;
    state.challenges[ci].resolution = Some(resolution);
    state.challenges[ci].resolved_at = Some(now);
    state.active.remove(k);
    state.pool.total_bonded = state.pool.total_bonded - bond;
    state.pool.total_challenge_deposits = state.pool.total_challenge_deposits - deposit;
    state.pool.total_disbursed = state.pool.total_disbursed + disbursed;
    proof {
        assert(state.attestations@ =~= old_state.attestations@.update(i as int, state.attestations@[i as int]));
        assert(state.challenges@ =~= old_state.challenges@.update(ci as int, state.challenges@[ci as int]));
        lemma_resolve_keeps_wf(old_state, *state, attestation_id, k as int);
    }
    Ok(ResolveOutcome { challenge_id: cid, arbiter_fee: fee, transfers })
}

/// Settling the open challenge at `k` keeps the state well formed, and
/// keeps the pool balanced when it was.
proof fn lemma_resolve_keeps_wf(old_state: AttestationState, s: AttestationState, id: u64, k: int)
    requires
        old_state.wf(),
        0 <= k < old_state.active.len(),
        old_state.active[k].attestation_id == id,
        ({
            let i = id - 1;
            let ci = old_state.active[k].challenge_id - 1;
            let a = old_state.attestations[i];
            let c = old_state.challenges[ci];
            let b = s.attestations[i];
            let d = s.challenges[ci];
            &&& s.config == old_state.config
            &&& s.attestations@ == old_state.attestations@.update(i, b)
            &&& b.same_claim(a)
            &&& b.status != AttestationStatus::Challenged
            &&& !bond_held(b)
            &&& s.challenges@ == old_state.challenges@.update(ci, d)
            &&& d.id == c.id && d.attestation_id == c.attestation_id && d.deposit == c.deposit
            &&& d.resolution is Some
            &&& s.active@ == old_state.active@.remove(k)
            &&& s.pool.total_bonded == old_state.pool.total_bonded - a.bond_amount
            &&& s.pool.total_challenge_deposits == old_state.pool.total_challenge_deposits - c.deposit
        }),
    ensures
        s.wf(),
        old_state.pool_balanced() ==> s.pool_balanced(),
{
    let i = id - 1;
    let e0 = old_state.active[k];
    let cid = e0.challenge_id;
    let ci = cid - 1;
    let na = old_state.active.len() as int;
    assert(old_state.challenges[ci].resolution is None);
    assert(old_state.attestations[i].status == AttestationStatus::Challenged);
    lemma_held_bonds_update(old_state.attestations@, i, s.attestations[i]);
    lemma_held_deposits_update(old_state.challenges@, ci, s.challenges[ci]);
    assert forall|j: int| 0 <= j < s.attestations.len() implies #[trigger] s.attestations[j].id == j + 1 by {
        assert(old_state.attestations[j].id == j + 1);
    }
    assert forall|j: int| 0 <= j < s.challenges.len() implies {
        &&& #[trigger] s.challenges[j].id == j + 1
        &&& 1 <= s.challenges[j].attestation_id <= s.attestations.len()
    } by {
        assert(old_state.challenges[j].id == j + 1);
    }
    assert forall|m: int| 0 <= m < s.active.len() implies {
        let e = #[trigger] s.active[m];
        &&& 1 <= e.attestation_id <= s.attestations.len()
        &&& 1 <= e.challenge_id <= s.challenges.len()
        &&& s.challenges[e.challenge_id - 1].attestation_id == e.attestation_id
        &&& s.challenges[e.challenge_id - 1].resolution is None
        &&& s.attestations[e.attestation_id - 1].status == AttestationStatus::Challenged
    } by {
        let m0 = if m < k { m } else { m + 1 };
        let e = old_state.active[m0];
        assert(s.active[m] == e);
        assert(m0 != k);
        assert(e.attestation_id != id);
        assert(old_state.challenges[e.challenge_id - 1].attestation_id == e.attestation_id);
        assert(e.challenge_id != cid);
    }
    assert forall|k1: int, k2: int|
        0 <= k1 < s.active.len() && 0 <= k2 < s.active.len() && k1 != k2
        implies #[trigger] s.active[k1].attestation_id != #[trigger] s.active[k2].attestation_id by {
        let m1 = if k1 < k { k1 } else { k1 + 1 };
        let m2 = if k2 < k { k2 } else { k2 + 1 };
        assert(s.active[k1] == old_state.active[m1]);
        assert(s.active[k2] == old_state.active[m2]);
    }
    assert forall|j: int|
        0 <= j < s.attestations.len() && #[trigger] s.attestations[j].status == AttestationStatus::Challenged
        implies has_active(s.active@, (j + 1) as u64) by {
        assert(j != i);
        assert(s.attestations[j] == old_state.attestations[j]);
        let m0 = choose|m: int| 0 <= m < na && #[trigger] old_state.active[m].attestation_id == (j + 1) as u64;
        assert(m0 != k);
        let m = if m0 < k { m0 } else { m0 - 1 };
        assert(s.active[m] == old_state.active[m0]);
    }
    assert forall|c: int|
        0 <= c < s.challenges.len() && #[trigger] s.challenges[c].resolution is None
        implies exists|m: int| 0 <= m < s.active.len() && #[trigger] s.active[m].challenge_id == c + 1 by {
        assert(c != ci);
        assert(s.challenges[c] == old_state.challenges[c]);
        let m0 = choose|m: int| 0 <= m < na && #[trigger] old_state.active[m].challenge_id == c + 1;
        assert(m0 != k);
        let m = if m0 < k { m0 } else { m0 - 1 };
        assert(s.active[m] == old_state.active[m0]);
    }
}


// ── Release ────────────────────────────────────────────────────────────

pub open spec fn release_check(s: AttestationState, sender: String, now: u64, id: u64) -> Result<(), AttestationError> {
    if !s.has_attestation(id) {
        Err(AttestationError::AttestationNotFound { id })
    } else if sender@ != s.attestation(id).attester@ {
        Err(AttestationError::Unauthorized { action: Action::ReleaseBond })
    } else if s.attestation(id).status != AttestationStatus::Active
        && s.attestation(id).status != AttestationStatus::ResolvedValid {
        Err(AttestationError::InvalidStatus { expected: Expected::ActiveOrResolvedValid, actual: s.attestation(id).status })
    } else if now < s.attestation(id).lock_expires_at {
        Err(AttestationError::LockPeriodNotExpired)
    } else if has_active(s.active@, id) {
        Err(AttestationError::ActiveChallengePending { attestation_id: id })
    } else {
        Ok(())
    }
}

/// The attester takes back the bond of an active attestation, or of one
/// whose challenge was resolved valid, once the lock period is over and no
/// challenge is open; the attestation is released.
pub fn execute_release(state: &mut AttestationState, sender: &String, now: u64, attestation_id: u64)
    -> (r: Result<Vec<Transfer>, AttestationError>)
    requires
        old(state).wf(),
        release_check(*old(state), *sender, now, attestation_id) is Ok ==> {
            let bond = old(state).attestation(attestation_id).bond_amount;
            &&& old(state).pool.total_bonded >= bond
            &&& old(state).pool.total_disbursed + bond <= u128::MAX
        },
    ensures
        r is Ok <==> release_check(*old(state), *sender, now, attestation_id) is Ok,
        r is Err ==> r->Err_0 == release_check(*old(state), *sender, now, attestation_id)->Err_0
            && *final(state) == *old(state),
        r matches Ok(transfers) ==> {
            let a = old(state).attestation(attestation_id);
            let b = final(state).attestation(attestation_id);
            &&& final(state).wf()
            &&& a.status == AttestationStatus::Active && old(state).pool_balanced() ==> final(state).pool_balanced()
            &&& final(state).config == old(state).config
            &&& final(state).challenges == old(state).challenges
            &&& final(state).active == old(state).active
            &&& final(state).attestations@ == old(state).attestations@.update(attestation_id - 1, b)
            &&& b.same_claim(a)
            &&& b.status == AttestationStatus::Released
            &&& final(state).pool == BondPoolState {
                total_bonded: (old(state).pool.total_bonded - a.bond_amount) as u128,
                total_challenge_deposits: old(state).pool.total_challenge_deposits,
                total_disbursed: (old(state).pool.total_disbursed + a.bond_amount) as u128,
            }
            &&& tv(transfers@) == seq![(a.attester@, old(state).config.denom@, a.bond_amount)]
        },
{
    let i = load_attestation(state, attestation_id)?;
    if *sender != state.attestations[i].attester {
        return Err(AttestationError::Unauthorized { action: Action::ReleaseBond });
    }
    let status = state.attestations[i].status;
    if status != AttestationStatus::Active && status != AttestationStatus::ResolvedValid {
        return Err(AttestationError::InvalidStatus { expected: Expected::ActiveOrResolvedValid, actual: status });
    }
    if now < state.attestations[i].lock_expires_at {
        return Err(AttestationError::LockPeriodNotExpired);
    }
    if find_active(&state.active, attestation_id).is_some() {
        return Err(AttestationError::ActiveChallengePending { attestation_id });
    }
    let amount = state.attestations[i].bond_amount;
    let mut transfers: Vec<Transfer> = Vec::new();
    send(&mut transfers, &state.attestations[i].attester, &state.config.denom, amount);
    assert(tv(transfers@) =~= seq![(state.attestations[i as int].attester@, state.config.denom@, amount)]);
    let ghost old_state = *state;
    state.attestations[i].status = AttestationStatus::Released;
    state.pool.total_bonded = state.pool.total_bonded - amount;
    state.pool.total_disbursed = state.pool.total_disbursed + amount;
    proof {
        let b = state.attestations@[i as int];
        assert(state.attestations@ =~= old_state.attestations@.update(i as int, b));
        lemma_held_bonds_update(old_state.attestations@, i as int, b);
        assert forall|k: int| 0 <= k < state.active.len() implies {
            let e = #[trigger] state.active[k];
            &&& 1 <= e.attestation_id <= state.attestations.len()
            &&& 1 <= e.challenge_id <= state.challenges.len()
            &&& state.challenges[e.challenge_id - 1].attestation_id == e.attestation_id
            &&& state.challenges[e.challenge_id - 1].resolution is None
            &&& state.attestations[e.attestation_id - 1].status == AttestationStatus::Challenged
        } by {
            let e = state.active[k];
            assert(old_state.attestations[e.attestation_id - 1].status == AttestationStatus::Challenged);
        }
        assert forall|j: int|
            0 <= j < state.attestations.len() && #[trigger] state.attestations[j].status == AttestationStatus::Challenged
            implies has_active(state.active@, (j + 1) as u64) by {
            assert(state.attestations[j] == old_state.attestations[j]);
        }
        assert forall|j: int| 0 <= j < state.attestations.len() implies #[trigger] state.attestations[j].id == j + 1 by {
            assert(old_state.attestations[j].id == j + 1);
        }
    }
    Ok(transfers)
}

// ── Configuration ──────────────────────────────────────────────────────

pub struct ConfigUpdate {
    pub arbiter_dao: Option<CheckedAddr>,
    pub community_pool: Option<CheckedAddr>,
    pub challenge_deposit_ratio_bps: Option<u64>,
    pub arbiter_fee_ratio_bps: Option<u64>,
    pub activation_delay_seconds: Option<u64>,
}

pub open spec fn update_config_check(s: AttestationState, sender: String, u: ConfigUpdate) -> Result<(), AttestationError> {
    if sender@ != s.config.admin@ {
        Err(AttestationError::Unauthorized { action: Action::UpdateConfig })
    } else if u.arbiter_dao is Some && u.arbiter_dao->Some_0 is Err {
        Err(AttestationError::InvalidAddress { address: u.arbiter_dao->Some_0->Err_0 })
    } else if u.community_pool is Some && u.community_pool->Some_0 is Err {
        Err(AttestationError::InvalidAddress { address: u.community_pool->Some_0->Err_0 })
    } else if u.challenge_deposit_ratio_bps is Some && u.challenge_deposit_ratio_bps->Some_0 > MAX_CHALLENGE_RATIO {
        Err(AttestationError::FeeRateOutOfRange { value: u.challenge_deposit_ratio_bps->Some_0, min: 0, max: MAX_CHALLENGE_RATIO })
    } else if u.arbiter_fee_ratio_bps is Some && u.arbiter_fee_ratio_bps->Some_0 > MAX_ARBITER_FEE {
        Err(AttestationError::FeeRateOutOfRange { value: u.arbiter_fee_ratio_bps->Some_0, min: 0, max: MAX_ARBITER_FEE })
    } else {
        Ok(())
    }
}

pub open spec fn addr_or(o: Option<CheckedAddr>, d: String) -> String {
    match o {
        Some(Ok(a)) => a,
        _ => d,
    }
}

/// The admin updates the arbiter DAO, the community pool, the deposit ratio
/// (at most 50%), the arbiter fee (at most 20%) and the activation delay.
pub fn execute_update_config(state: &mut AttestationState, sender: &String, update: ConfigUpdate)
    -> (r: Result<(), AttestationError>)
    requires
        old(state).wf(),
    ensures
        r is Ok <==> update_config_check(*old(state), *sender, update) is Ok,
        r is Err ==> r->Err_0 == update_config_check(*old(state), *sender, update)->Err_0
            && *final(state) == *old(state),
        r is Ok ==> {
            let c = old(state).config;
            let n = final(state).config;
            &&& final(state).wf()
            &&& old(state).pool_balanced() ==> final(state).pool_balanced()
            &&& final(state).attestations == old(state).attestations
            &&& final(state).challenges == old(state).challenges
            &&& final(state).active == old(state).active
            &&& final(state).pool == old(state).pool
            &&& n == Config {
                arbiter_dao: addr_or(update.arbiter_dao, c.arbiter_dao),
                community_pool: addr_or(update.community_pool, c.community_pool),
                challenge_deposit_ratio_bps: opt_or(update.challenge_deposit_ratio_bps, c.challenge_deposit_ratio_bps),
                arbiter_fee_ratio_bps: opt_or(update.arbiter_fee_ratio_bps, c.arbiter_fee_ratio_bps),
                activation_delay_seconds: opt_or(update.activation_delay_seconds, c.activation_delay_seconds),
                ..c
            }
        },
{
    if *sender != state.config.admin {
        return Err(AttestationError::Unauthorized { action: Action::UpdateConfig });
    }
    let arbiter_dao = match &update.arbiter_dao {
        Some(a) => Some(checked_addr(a)?),
        None => None,
    };
    let community_pool = match &update.community_pool {
        Some(a) => Some(checked_addr(a)?),
        None => None,
    };
    let ratio_v = match update.challenge_deposit_ratio_bps { Some(v) => v, None => state.config.challenge_deposit_ratio_bps };
    if ratio_v > MAX_CHALLENGE_RATIO {
        return Err(AttestationError::FeeRateOutOfRange { value: ratio_v, min: 0, max: MAX_CHALLENGE_RATIO });
    }
    let fee_v = match update.arbiter_fee_ratio_bps { Some(v) => v, None => state.config.arbiter_fee_ratio_bps };
    if fee_v > MAX_ARBITER_FEE {
        return Err(AttestationError::FeeRateOutOfRange { value: fee_v, min: 0, max: MAX_ARBITER_FEE });
    }
    let ghost old_state = *state;
    let c = &mut state.config;
    if let Some(a) = arbiter_dao {
        c.arbiter_dao = a;
    }
    if let Some(a) = community_pool {
        c.community_pool = a;
    }
    c.challenge_deposit_ratio_bps = ratio_v;
    c.arbiter_fee_ratio_bps = fee_v;
    c.activation_delay_seconds = match update.activation_delay_seconds { Some(v) => v, None => c.activation_delay_seconds };
    proof {
        lemma_config_change_keeps_wf(old_state, *state);
    }
    Ok(())
}

/// Changing only the configuration, within its bounds, keeps the state
/// well formed and the pool as balanced as it was.
proof fn lemma_config_change_keeps_wf(old_state: AttestationState, s: AttestationState)
    requires
        old_state.wf(),
        s.config.challenge_deposit_ratio_bps <= MAX_CHALLENGE_RATIO,
        s.config.arbiter_fee_ratio_bps <= MAX_ARBITER_FEE,
        s.attestations == old_state.attestations,
        s.challenges == old_state.challenges,
        s.active == old_state.active,
        s.pool == old_state.pool,
    ensures
        s.wf(),
        old_state.pool_balanced() ==> s.pool_balanced(),
{
}


// ── Queries ────────────────────────────────────────────────────────────

pub open spec fn attestation_ids(s: Seq<Attestation>) -> Seq<u64> {
    s.map_values(|a: Attestation| a.id)
}

pub open spec fn attestation_flags(s: Seq<Attestation>, status: Option<AttestationStatus>, attester: Option<String>) -> Seq<bool> {
    s.map_values(|a: Attestation|
        (match status { Some(st) => a.status == st, None => true })
            && (match attester { Some(x) => a.attester@ == x@, None => true }))
}

pub open spec fn challenge_ids(s: Seq<Challenge>) -> Seq<u64> {
    s.map_values(|c: Challenge| c.id)
}

pub open spec fn challenge_flags(s: Seq<Challenge>, attestation_id: Option<u64>) -> Seq<bool> {
    s.map_values(|c: Challenge| match attestation_id { Some(aid) => c.attestation_id == aid, None => true })
}

/// One page of kept ids after `start_after`: at most `limit` (default 10,
/// at most 30), in id order.
pub open spec fn listed(ids: Seq<u64>, keep: Seq<bool>, start_after: Option<u64>, limit: Option<u32>) -> Seq<u64> {
    let start = match start_after { Some(a) => a + 1, None => 0 };
    first_n(kept_ids(ids, keep, 0, start), capped_limit(limit, DEFAULT_QUERY_LIMIT, MAX_QUERY_LIMIT))
}

proof fn lemma_nothing_after_max(ids: Seq<u64>, keep: Seq<bool>, i: int)
    ensures
        kept_ids(ids, keep, i, u64::MAX + 1) == Seq::<u64>::empty(),
    decreases ids.len() - i,
{
    if 0 <= i < ids.len() {
        lemma_nothing_after_max(ids, keep, i + 1);
    }
}

fn page_after(ids: &Vec<u64>, keep: &Vec<bool>, start_after: Option<u64>, limit: Option<u32>) -> (r: Vec<u64>)
    requires
        ids.len() == keep.len(),
    ensures
        r@ == listed(ids@, keep@, start_after, limit),
{
    let lim = cap_limit(limit, DEFAULT_QUERY_LIMIT, MAX_QUERY_LIMIT);
    match start_after {
        Some(a) => {
            if a == u64::MAX {
                let out: Vec<u64> = Vec::new();
                proof { lemma_nothing_after_max(ids@, keep@, 0); }
                assert(out@ =~= listed(ids@, keep@, start_after, limit));
                return out;
            }
            page(ids, keep, a + 1, lim)
        },
        None => page(ids, keep, 0, lim),
    }
}

/// Attestations by status and attester (each filter off when `None`), one
/// page, in id order.
pub fn query_attestations(
    state: &AttestationState,
    status: Option<AttestationStatus>,
    attester: Option<CheckedAddr>,
    start_after: Option<u64>,
    limit: Option<u32>,
) -> (r: Result<Vec<u64>, AttestationError>)
    ensures
        attester matches Some(Err(x)) ==> r == Err::<Vec<u64>, AttestationError>(AttestationError::InvalidAddress { address: x }),
        !(attester matches Some(Err(_))) ==> (r matches Ok(ids) && ids@ == listed(
            attestation_ids(state.attestations@),
            attestation_flags(state.attestations@, status, match attester { Some(Ok(x)) => Some(x), _ => None }),
            start_after,
            limit,
        )),
{
    let who = match &attester {
        Some(a) => Some(checked_addr(a)?),
        None => None,
    };
    let ghost atts = state.attestations@;
    let ghost who_spec = match attester { Some(Ok(x)) => Some(x), _ => None::<String> };
    assert(who == who_spec);
    let mut ids: Vec<u64> = Vec::new();
    let mut keep: Vec<bool> = Vec::new();
    let mut i: usize = 0;
    while i < state.attestations.len()
        invariant
            i <= state.attestations.len(),
            atts == state.attestations@,
            ids@ == attestation_ids(atts.take(i as int)),
            keep@ == attestation_flags(atts.take(i as int), status, who),
        decreases state.attestations.len() - i,
    {
        let a = &state.attestations[i];
        let by_status = match status { Some(st) => a.status == st, None => true };
        let by_attester = match &who { Some(x) => a.attester == *x, None => true };
        ids.push(a.id);
        keep.push(by_status && by_attester);
        assert(atts.take(i as int + 1) =~= atts.take(i as int).push(*a));
        assert(ids@ =~= attestation_ids(atts.take(i as int + 1)));
        assert(keep@ =~= attestation_flags(atts.take(i as int + 1), status, who));
        i += 1;
    }
    assert(atts.take(i as int) =~= atts);
    Ok(page_after(&ids, &keep, start_after, limit))
}

/// Challenges, of one attestation or of all, one page, in id order.
pub fn query_challenges(
    state: &AttestationState,
    attestation_id: Option<u64>,
    start_after: Option<u64>,
    limit: Option<u32>,
) -> (r: Vec<u64>)
    ensures
        r@ == listed(challenge_ids(state.challenges@), challenge_flags(state.challenges@, attestation_id), start_after, limit),
{
    let ghost cs = state.challenges@;
    let mut ids: Vec<u64> = Vec::new();
    let mut keep: Vec<bool> = Vec::new();
    let mut i: usize = 0;
    while i < state.challenges.len()
        invariant
            i <= state.challenges.len(),
            cs == state.challenges@,
            ids@ == challenge_ids(cs.take(i as int)),
            keep@ == challenge_flags(cs.take(i as int), attestation_id),
        decreases state.challenges.len() - i,
    {
        let c = &state.challenges[i];
        let k = match attestation_id { Some(aid) => c.attestation_id == aid, None => true };
        ids.push(c.id);
        keep.push(k);
        assert(cs.take(i as int + 1) =~= cs.take(i as int).push(*c));
        assert(ids@ =~= challenge_ids(cs.take(i as int + 1)));
        assert(keep@ =~= challenge_flags(cs.take(i as int + 1), attestation_id));
        i += 1;
    }
    assert(cs.take(i as int) =~= cs);
    page_after(&ids, &keep, start_after, limit)
}


// ── Laws ───────────────────────────────────────────────────────────────

/// Each attestation type is bonded, locked and open to challenge by its
/// own configured parameters: the minimum bond, lock period and challenge
/// window of a type are that type's fields of the configuration, so a new
/// attestation's bond is locked until its creation time plus its own
/// type's lock period (for a methodology validation, the methodology
/// validation lock period).
pub proof fn law_type_parameters_are_its_own(c: Config, now: u64)
    ensures
        c.spec_min_bond(AttestationType::ProjectBoundary) == c.min_bond_project_boundary,
        c.spec_min_bond(AttestationType::BaselineMeasurement) == c.min_bond_baseline_measurement,
        c.spec_min_bond(AttestationType::CreditIssuanceClaim) == c.min_bond_credit_issuance,
        c.spec_min_bond(AttestationType::MethodologyValidation) == c.min_bond_methodology_validation,
        at_offset(now, c.spec_lock_period(AttestationType::ProjectBoundary))
            == (spec_seconds(now) + c.lock_period_project_boundary) * 1_000_000_000,
        at_offset(now, c.spec_lock_period(AttestationType::BaselineMeasurement))
            == (spec_seconds(now) + c.lock_period_baseline_measurement) * 1_000_000_000,
        at_offset(now, c.spec_lock_period(AttestationType::CreditIssuanceClaim))
            == (spec_seconds(now) + c.lock_period_credit_issuance) * 1_000_000_000,
        at_offset(now, c.spec_lock_period(AttestationType::MethodologyValidation))
            == (spec_seconds(now) + c.lock_period_methodology_validation) * 1_000_000_000,
        c.spec_challenge_window(AttestationType::ProjectBoundary) == c.challenge_window_project_boundary,
        c.spec_challenge_window(AttestationType::BaselineMeasurement) == c.challenge_window_baseline_measurement,
        c.spec_challenge_window(AttestationType::CreditIssuanceClaim) == c.challenge_window_credit_issuance,
        c.spec_challenge_window(AttestationType::MethodologyValidation) == c.challenge_window_methodology_validation,
{
}

/// Settling a challenge pays out no more than the pool held for it, and no
/// share is negative: upheld, the attester and the community pool together
/// get exactly the bond and the deposit; slashed, the challenger and the
/// community pool get the deposit and both halves of the bond (an odd unit
/// of the bond stays behind).
pub proof fn law_resolution_pays_bond_and_deposit(s: AttestationState, id: u64, resolution: ChallengeResolution)
    requires
        s.wf(),
        s.has_attestation(id),
        has_active(s.active@, id),
    ensures
        0 <= arbiter_fee(s, id) <= bond_half(s, id),
        winner_receives(s, id, resolution) >= 0,
        community_receives(s, id, resolution) >= 0,
        resolution == ChallengeResolution::Valid ==> winner_receives(s, id, resolution)
            + community_receives(s, id, resolution) == s.attestation(id).bond_amount + open_challenge(s, id).deposit,
        resolution == ChallengeResolution::Invalid ==> winner_receives(s, id, resolution)
            + community_receives(s, id, resolution) == s.attestation(id).bond_amount
            - s.attestation(id).bond_amount % 2 + open_challenge(s, id).deposit,
{
    let bond = s.attestation(id).bond_amount as int;
    lemma_ratio_le(bond, s.config.arbiter_fee_ratio_bps as int, 10_000);
    lemma_ratio_monotonic(bond, s.config.arbiter_fee_ratio_bps as int, 5000, 10_000);
    assert(ratio(bond, 5000, 10_000) == ratio(bond, 1, 2)) by (nonlinear_arith);
    assert(ratio(bond, 1, 2) * 2 == bond - bond % 2) by (nonlinear_arith)
        requires bond >= 0;
}

/// The smallest accepted challenge deposit is never more than half the
/// bond it challenges.
pub proof fn law_deposit_at_most_half_bond(s: AttestationState, id: u64)
    requires
        s.wf(),
        s.has_attestation(id),
    ensures
        0 <= min_deposit(s, id) <= bond_half(s, id),
{
    let bond = s.attestation(id).bond_amount as int;
    lemma_ratio_le(bond, s.config.challenge_deposit_ratio_bps as int, 10_000);
    lemma_ratio_monotonic(bond, s.config.challenge_deposit_ratio_bps as int, 5000, 10_000);
    assert(ratio(bond, 5000, 10_000) == ratio(bond, 1, 2)) by (nonlinear_arith);
}

// ── Names ──────────────────────────────────────────────────────────────

/// The name of an attestation type.
pub open spec fn attestation_type_label(v: AttestationType) -> Seq<char> {
    match v {
        AttestationType::ProjectBoundary => "ProjectBoundary"@,
        AttestationType::BaselineMeasurement => "BaselineMeasurement"@,
        AttestationType::CreditIssuanceClaim => "CreditIssuanceClaim"@,
        AttestationType::MethodologyValidation => "MethodologyValidation"@,
    }
}

impl AttestationType {
    /// The variant's name, as it appears in messages and attributes.
    pub fn label(&self) -> (r: &'static str)
        ensures
            r@ == attestation_type_label(*self),
    {
        match self {
            AttestationType::ProjectBoundary => "ProjectBoundary",
            AttestationType::BaselineMeasurement => "BaselineMeasurement",
            AttestationType::CreditIssuanceClaim => "CreditIssuanceClaim",
            AttestationType::MethodologyValidation => "MethodologyValidation",
        }
    }
}

/// The name of an attestation status.
pub open spec fn attestation_status_label(v: AttestationStatus) -> Seq<char> {
    match v {
        AttestationStatus::Bonded => "Bonded"@,
        AttestationStatus::Active => "Active"@,
        AttestationStatus::Challenged => "Challenged"@,
        AttestationStatus::ResolvedValid => "ResolvedValid"@,
        AttestationStatus::Slashed => "Slashed"@,
        AttestationStatus::Released => "Released"@,
    }
}

impl AttestationStatus {
    /// The variant's name, as it appears in messages and attributes.
    pub fn label(&self) -> (r: &'static str)
        ensures
            r@ == attestation_status_label(*self),
    {
        match self {
            AttestationStatus::Bonded => "Bonded",
            AttestationStatus::Active => "Active",
            AttestationStatus::Challenged => "Challenged",
            AttestationStatus::ResolvedValid => "ResolvedValid",
            AttestationStatus::Slashed => "Slashed",
            AttestationStatus::Released => "Released",
        }
    }
}

} // verus!
