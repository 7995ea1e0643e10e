//! Contribution rewards: each period, an inflow from the community pool
//! pays stability commitments a pro-rated annual return (capped at a share
//! of the inflow) and splits the rest pro rata among the period's
//! participants by their weighted activity.

use vstd::prelude::*;
use crate::byte_order::{compare_keys, key_bytes, lemma_lex_total, lemma_lex_trans, lex_lt};
use crate::money::{lemma_sum_ratios_le, seq_sum, sum_ratios, CheckedAddr, Coin, Transfer, TransferView, from_seconds, lemma_ratio_le, multiply_ratio, ratio, seconds, seconds_fit, send_if, send_nonzero, spec_seconds, tv};

verus! {

/// Seconds per month (30.44 days).
pub const SECONDS_PER_MONTH: u64 = 2_629_744;
/// Seconds per year.
pub const SECONDS_PER_YEAR: u128 = 31_556_926;
/// The scale count components are normalized to.
pub const REFERENCE_SCALE: u128 = 1_000_000;
/// The activity weights add up to this, in basis points.
pub const WEIGHT_TOTAL: u64 = 10_000;

#[derive(Clone)]
pub struct Config {
    pub admin: String,
    pub community_pool_addr: String,
    pub denom: String,
    pub credit_purchase_weight: u64,
    pub credit_retirement_weight: u64,
    pub platform_facilitation_weight: u64,
    pub governance_voting_weight: u64,
    pub proposal_submission_weight: u64,
    pub stability_annual_return_bps: u64,
    pub max_stability_share_bps: u64,
    pub min_commitment_amount: u128,
    pub min_lock_months: u64,
    pub max_lock_months: u64,
    pub early_exit_penalty_bps: u64,
    pub period_seconds: u64,
}

#[derive(Clone, Copy, Debug, PartialEq, Eq, Structural)]
pub enum MechanismStatus {
    /// Instantiated, not yet initialized.
    Inactive,
    /// Tracking activity; no distributions yet.
    Tracking,
    /// Tracking and distributing.
    Distributing,
}

#[derive(Clone, Copy, Debug, PartialEq, Eq, Structural)]
pub struct MechanismState {
    pub status: MechanismStatus,
    pub tracking_start: Option<u64>,
    pub current_period: u32,
    pub last_distribution_period: Option<u32>,
}

#[derive(Clone, Copy, Debug, PartialEq, Eq, Structural)]
pub enum CommitmentStatus {
    /// Locked and accruing.
    Committed,
    /// Claimed after maturity.
    Matured,
    /// Left before maturity, with a penalty.
    EarlyExit,
}

#[derive(Clone)]
pub struct StabilityCommitment {
    pub id: u64,
    pub holder: String,
    pub amount: u128,
    pub lock_months: u64,
    pub committed_at: u64,
    pub matures_at: u64,
    pub accrued_rewards: u128,
    pub status: CommitmentStatus,
}

#[derive(Clone)]
pub struct ActivityScore {
    pub address: String,
    pub period: u32,
    pub credit_purchase_value: u128,
    pub credit_retirement_value: u128,
    pub platform_facilitation_value: u128,
    pub governance_votes: u32,
    /// Proposal credits, scaled by 100 (100 is one proposal).
    pub proposal_credits: u32,
}

#[derive(Clone, Copy, Debug, PartialEq, Eq, Structural)]
pub struct DistributionRecord {
    pub period: u32,
    pub community_pool_inflow: u128,
    pub stability_allocation: u128,
    pub activity_pool: u128,
    pub total_score: u128,
    pub executed_at: u64,
}

pub struct InstantiateMsg {
    pub community_pool_addr: CheckedAddr,
    pub denom: String,
}

/// Everything the contract stores: configuration, the mechanism's state,
/// commitments by id (id `i + 1` at index `i`), the activity of period
/// `p` at index `p - 1` (ordered by the participant's address bytes), and
/// the distribution of period `p` at index `p - 1`.
#[derive(Clone)]
pub struct RewardsState {
    pub config: Config,
    pub mechanism: MechanismState,
    pub commitments: Vec<StabilityCommitment>,
    pub activity: Vec<Vec<ActivityScore>>,
    pub distributions: Vec<DistributionRecord>,
}

#[derive(Clone, Copy, Debug, PartialEq, Eq, Structural)]
pub enum Expected {
    Tracking,
    TrackingOrDistributing,
    Distributing,
}

#[derive(Clone, Copy, Debug, PartialEq, Eq, Structural)]
pub enum Action {
    /// An admin-only action.
    Administer,
    ExitCommitment,
    ClaimCommitment,
}

#[derive(Debug, PartialEq, Eq)]
pub enum RewardsError {
    Unauthorized { action: Action },
    InvalidMechanismStatus { expected: Expected, actual: MechanismStatus },
    AlreadyInitialized,
    CommitmentNotFound { id: u64 },
    InvalidCommitmentStatus { id: u64, expected: CommitmentStatus },
    /// Not matured; the maturity is in whole seconds.
    CommitmentNotMatured { id: u64, matures_at: u64 },
    InsufficientFunds { required: u128, sent: u128 },
    WrongDenom { expected: String, got: String },
    InvalidLockMonths { months: u64, min: u64, max: u64 },
    BelowMinCommitment { amount: u128, min: u128 },
    InvalidWeightSum { sum: u64 },
    AlreadyDistributed { period: u32 },
    NoActivityForPeriod { period: u32 },
    DistributionNotFound { period: u32 },
    InvalidPeriodRange { from: u32, to: u32 },
    NoFundsAttached,
    ZeroInflow,
    InvalidAddress { address: String },
}

/// The activity weights.
pub open spec fn weight_sum(c: Config) -> int {
    c.credit_purchase_weight + c.credit_retirement_weight + c.platform_facilitation_weight
        + c.governance_voting_weight + c.proposal_submission_weight
}

/// Addresses strictly ascending by their bytes.
pub open spec fn sorted_by_address(s: Seq<ActivityScore>) -> bool {
    forall|a: int, b: int| 0 <= a < b < s.len() ==> lex_lt(key_bytes(#[trigger] s[a].address), key_bytes(#[trigger] s[b].address))
}

impl RewardsState {
    pub open spec fn wf(self) -> bool {
        let m = self.mechanism;
        &&& weight_sum(self.config) == WEIGHT_TOTAL
        &&& self.commitments.len() < u64::MAX
        &&& forall|i: int| 0 <= i < self.commitments.len() ==> #[trigger] self.commitments[i].id == i + 1
        &&& (m.status == MechanismStatus::Inactive) == (m.current_period == 0)
        &&& self.activity.len() == m.current_period
        &&& self.distributions.len() == (if m.current_period == 0 { 0 } else { m.current_period - 1 })
        &&& m.status != MechanismStatus::Distributing ==> self.distributions.len() == 0
        &&& m.last_distribution_period == (if self.distributions.len() == 0 {
            None
        } else {
            Some(self.distributions.len() as u32)
        })
        &&& forall|i: int| 0 <= i < self.distributions.len() ==> #[trigger] self.distributions[i].period == i + 1
        &&& forall|i: int| 0 <= i < self.activity.len() ==> sorted_by_address(#[trigger] self.activity[i]@)
        &&& forall|i: int, k: int| 0 <= i < self.activity.len() && 0 <= k < self.activity[i].len()
            ==> #[trigger] self.activity[i]@[k].period == i + 1
    }

    pub open spec fn has_commitment(self, id: u64) -> bool {
        1 <= id <= self.commitments.len()
    }

    pub open spec fn commitment(self, id: u64) -> StabilityCommitment {
        self.commitments[id - 1]
    }
}

impl StabilityCommitment {
    /// Everything but the status and the accrued rewards.
    pub open spec fn same_terms(self, c: StabilityCommitment) -> bool {
        &&& self.id == c.id
        &&& self.holder == c.holder
        &&& self.amount == c.amount
        &&& self.lock_months == c.lock_months
        &&& self.committed_at == c.committed_at
        &&& self.matures_at == c.matures_at
    }
}

fn checked_addr(a: &CheckedAddr) -> (r: Result<String, RewardsError>)
    ensures
        match *a {
            Ok(s) => r == Ok::<String, RewardsError>(s),
            Err(s) => r == Err::<String, RewardsError>(RewardsError::InvalidAddress { address: s }),
        },
{
    match a {
        Ok(s) => Ok(s.clone()),
        Err(s) => Err(RewardsError::InvalidAddress { address: s.clone() }),
    }
}

/// The admin check.
pub fn require_admin(config: &Config, sender: &String) -> (r: Result<(), RewardsError>)
    ensures
        r is Ok <==> sender@ == config.admin@,
        r is Err ==> r == Err::<(), RewardsError>(RewardsError::Unauthorized { action: Action::Administer }),
{
    if *sender != config.admin {
        return Err(RewardsError::Unauthorized { action: Action::Administer });
    }
    Ok(())
}

// ── Lifecycle ──────────────────────────────────────────────────────────

/// Creates the state: the sender administers, the community pool is
/// validated; weights 30/30/20/10/10%, a 6% annual stability return capped
/// at 30% of each inflow, a 100-REGEN minimum commitment locked 6 to 24
/// months, a 50% early-exit penalty on accrued rewards, 7-day periods; the
/// mechanism is inactive.
pub fn instantiate(sender: &String, msg: InstantiateMsg) -> (r: Result<RewardsState, RewardsError>)
    ensures
        msg.community_pool_addr is Err ==> r == Err::<RewardsState, RewardsError>(
            RewardsError::InvalidAddress { address: msg.community_pool_addr->Err_0 },
        ),
        msg.community_pool_addr matches Ok(pool) ==> r matches Ok(s) && {
            &&& s.wf()
            &&& s.config == (Config {
                admin: *sender,
                community_pool_addr: pool,
                denom: msg.denom,
                credit_purchase_weight: 3000,
                credit_retirement_weight: 3000,
                platform_facilitation_weight: 2000,
                governance_voting_weight: 1000,
                proposal_submission_weight: 1000,
                stability_annual_return_bps: 600,
                max_stability_share_bps: 3000,
                min_commitment_amount: 100_000_000,
                min_lock_months: 6,
                max_lock_months: 24,
                early_exit_penalty_bps: 5000,
                period_seconds: 604_800,
            })
            &&& s.mechanism == (MechanismState {
                status: MechanismStatus::Inactive,
                tracking_start: None,
                current_period: 0,
                last_distribution_period: None,
            })
            &&& s.commitments@.len() == 0 && s.activity@.len() == 0 && s.distributions@.len() == 0
        },
{
    let pool = checked_addr(&msg.community_pool_addr)?;
    let config = Config {
        admin: sender.clone(),
        community_pool_addr: pool,
        denom: msg.denom,
        credit_purchase_weight: 3000,
        credit_retirement_weight: 3000,
        platform_facilitation_weight: 2000,
        governance_voting_weight: 1000,
        proposal_submission_weight: 1000,
        stability_annual_return_bps: 600,
        max_stability_share_bps: 3000,
        min_commitment_amount: 100_000_000,
        min_lock_months: 6,
        max_lock_months: 24,
        early_exit_penalty_bps: 5000,
        period_seconds: 604_800,
    };
    let mechanism = MechanismState {
        status: MechanismStatus::Inactive,
        tracking_start: None,
        current_period: 0,
        last_distribution_period: None,
    };
    Ok(RewardsState { config, mechanism, commitments: Vec::new(), activity: Vec::new(), distributions: Vec::new() })
}

pub open spec fn initialize_check(s: RewardsState, sender: String) -> Result<(), RewardsError> {
    if sender@ != s.config.admin@ {
        Err(RewardsError::Unauthorized { action: Action::Administer })
    } else if s.mechanism.status != MechanismStatus::Inactive {
        Err(RewardsError::AlreadyInitialized)
    } else {
        Ok(())
    }
}

/// The admin starts tracking: period 1 begins now.
pub fn execute_initialize(state: &mut RewardsState, sender: &String, now: u64) -> (r: Result<(), RewardsError>)
    requires
        old(state).wf(),
    ensures
        r == initialize_check(*old(state), *sender),
        r is Err ==> *final(state) == *old(state),
        r is Ok ==> {
            &&& final(state).wf()
            &&& final(state).config == old(state).config
            &&& final(state).commitments == old(state).commitments
            &&& final(state).distributions == old(state).distributions
            &&& final(state).mechanism == (MechanismState {
                status: MechanismStatus::Tracking,
                tracking_start: Some(now),
                current_period: 1,
                ..old(state).mechanism
            })
            &&& final(state).activity@.len() == 1 && final(state).activity@[0]@.len() == 0
        },
{
    require_admin(&state.config, sender)?;
    if state.mechanism.status != MechanismStatus::Inactive {
        return Err(RewardsError::AlreadyInitialized);
    }
    state.mechanism.status = MechanismStatus::Tracking;
    state.mechanism.tracking_start = Some(now);
    state.mechanism.current_period = 1;
    state.activity.push(Vec::new());
    proof {
        assert(state.activity@[0]@.len() == 0);
        assert forall|i: int| 0 <= i < state.activity.len() implies sorted_by_address(#[trigger] state.activity[i]@) by {
            assert(state.activity[i]@.len() == 0);
        }
    }
    Ok(())
}

pub open spec fn activate_check(s: RewardsState, sender: String) -> Result<(), RewardsError> {
    if sender@ != s.config.admin@ {
        Err(RewardsError::Unauthorized { action: Action::Administer })
    } else if s.mechanism.status != MechanismStatus::Tracking {
        Err(RewardsError::InvalidMechanismStatus { expected: Expected::Tracking, actual: s.mechanism.status })
    } else {
        Ok(())
    }
}

/// The admin starts distributing.
pub fn execute_activate(state: &mut RewardsState, sender: &String) -> (r: Result<(), RewardsError>)
    requires
        old(state).wf(),
    ensures
        r == activate_check(*old(state), *sender),
        r is Err ==> *final(state) == *old(state),
        r is Ok ==> {
            &&& final(state).wf()
            &&& final(state).config == old(state).config
            &&& final(state).commitments == old(state).commitments
            &&& final(state).activity == old(state).activity
            &&& final(state).distributions == old(state).distributions
            &&& final(state).mechanism == (MechanismState { status: MechanismStatus::Distributing, ..old(state).mechanism })
        },
{
    require_admin(&state.config, sender)?;
    if state.mechanism.status != MechanismStatus::Tracking {
        return Err(RewardsError::InvalidMechanismStatus { expected: Expected::Tracking, actual: state.mechanism.status });
    }
    state.mechanism.status = MechanismStatus::Distributing;
    Ok(())
}

// ── Stability commitments ──────────────────────────────────────────────

/// The amount of the first attached coin of `denom`; none attached, or
/// none of that denomination, is an error.
pub open spec fn single_coin_spec(funds: Seq<Coin>, denom: String) -> Result<u128, RewardsError> {
    if funds.len() == 0 {
        Err(RewardsError::NoFundsAttached)
    } else {
        match crate::money::first_amount_of(funds, denom@) {
            Some(a) => Ok(a),
            None => Err(RewardsError::WrongDenom { expected: denom, got: funds[0].denom }),
        }
    }
}

pub fn extract_single_coin(funds: &Vec<Coin>, denom: &String) -> (r: Result<u128, RewardsError>)
    ensures
        r == single_coin_spec(funds@, *denom),
{
    if funds.len() == 0 {
        return Err(RewardsError::NoFundsAttached);
    }
    match crate::money::find_amount(funds, denom) {
        Some(a) => Ok(a),
        None => Err(RewardsError::WrongDenom { expected: denom.clone(), got: funds[0].denom.clone() }),
    }
}

pub open spec fn commit_check(s: RewardsState, funds: Seq<Coin>, lock_months: u64) -> Result<u128, RewardsError> {
    let c = s.config;
    if s.mechanism.status == MechanismStatus::Inactive {
        Err(RewardsError::InvalidMechanismStatus { expected: Expected::TrackingOrDistributing, actual: s.mechanism.status })
    } else if lock_months < c.min_lock_months || lock_months > c.max_lock_months {
        Err(RewardsError::InvalidLockMonths { months: lock_months, min: c.min_lock_months, max: c.max_lock_months })
    } else {
        match single_coin_spec(funds, c.denom) {
            Err(e) => Err(e),
            Ok(amount) => if amount < c.min_commitment_amount {
                Err(RewardsError::BelowMinCommitment { amount, min: c.min_commitment_amount })
            } else {
                Ok(amount)
            },
        }
    }
}

/// Anyone locks coins for `lock_months` (within the configured range),
/// at least the minimum commitment; the commitment matures after that many
/// 30.44-day months. Returns the new id.
pub fn execute_commit_stability(state: &mut RewardsState, sender: &String, now: u64, funds: &Vec<Coin>, lock_months: u64)
    -> (r: Result<u64, RewardsError>)
    requires
        old(state).wf(),
        old(state).commitments.len() + 1 < u64::MAX,
        commit_check(*old(state), funds@, lock_months) is Ok ==> {
            &&& lock_months * SECONDS_PER_MONTH <= u64::MAX
            &&& seconds_fit(spec_seconds(now) + lock_months * SECONDS_PER_MONTH)
        },
    ensures
        r is Ok <==> commit_check(*old(state), funds@, lock_months) is Ok,
        r is Err ==> r->Err_0 == commit_check(*old(state), funds@, lock_months)->Err_0 && *final(state) == *old(state),
        r matches Ok(id) ==> {
            let n = old(state).commitments.len() as int;
            let c = final(state).commitments@[n];
            &&& final(state).wf()
            &&& final(state).config == old(state).config
            &&& final(state).mechanism == old(state).mechanism
            &&& final(state).activity == old(state).activity
            &&& final(state).distributions == old(state).distributions
            &&& final(state).commitments@.len() == n + 1
            &&& final(state).commitments@.take(n) == old(state).commitments@
            &&& id == n + 1
            &&& c.id == id && c.holder == *sender && c.lock_months == lock_months
            &&& c.amount == commit_check(*old(state), funds@, lock_months)->Ok_0
            &&& c.committed_at == now
            &&& c.matures_at == (spec_seconds(now) + lock_months * SECONDS_PER_MONTH) * 1_000_000_000
            &&& c.accrued_rewards == 0 && c.status == CommitmentStatus::Committed
        },
{
    if state.mechanism.status == MechanismStatus::Inactive {
        return Err(RewardsError::InvalidMechanismStatus {
            expected: Expected::TrackingOrDistributing,
            actual: state.mechanism.status,
        });
    }
    if lock_months < state.config.min_lock_months || lock_months > state.config.max_lock_months {
        return Err(RewardsError::InvalidLockMonths {
            months: lock_months,
            min: state.config.min_lock_months,
            max: state.config.max_lock_months,
        });
    }
    let amount = extract_single_coin(funds, &state.config.denom)?;
    if amount < state.config.min_commitment_amount {
        return Err(RewardsError::BelowMinCommitment { amount, min: state.config.min_commitment_amount });
    }
    let id = state.commitments.len() as u64 + 1;
    let matures_at = from_seconds(seconds(now) + lock_months * SECONDS_PER_MONTH);
    let ghost old_cs = state.commitments@;
    let c = StabilityCommitment {
        id,
        holder: sender.clone(),
        amount,
        lock_months,
        committed_at: now,
        matures_at,
        accrued_rewards: 0,
        status: CommitmentStatus::Committed,
    };
    let ghost g = c;
    state.commitments.push(c);
    proof {
        let n = old_cs.len() as int;
        assert(state.commitments@[n] == g);
        assert(state.commitments@.take(n) =~= old_cs);
        assert forall|i: int| 0 <= i < state.commitments.len() implies #[trigger] state.commitments[i].id == i + 1 by {
            if i < n {
                assert(state.commitments[i] == old_cs[i]);
            }
        }
    }
    Ok(id)
}

/// The index of commitment `id`, or the not-found error.
pub fn load_commitment(state: &RewardsState, id: u64) -> (r: Result<usize, RewardsError>)
    ensures
        r is Ok <==> state.has_commitment(id),
        r matches Ok(i) ==> i == id - 1,
        r is Err ==> r == Err::<usize, RewardsError>(RewardsError::CommitmentNotFound { id }),
{
    if id == 0 || id > state.commitments.len() as u64 {
        return Err(RewardsError::CommitmentNotFound { id });
    }
    Ok((id - 1) as usize)
}

pub open spec fn exit_check(s: RewardsState, sender: String, id: u64) -> Result<(), RewardsError> {
    if !s.has_commitment(id) {
        Err(RewardsError::CommitmentNotFound { id })
    } else if s.commitment(id).holder@ != sender@ {
        Err(RewardsError::Unauthorized { action: Action::ExitCommitment })
    } else if s.commitment(id).status != CommitmentStatus::Committed {
        Err(RewardsError::InvalidCommitmentStatus { id, expected: CommitmentStatus::Committed })
    } else {
        Ok(())
    }
}

/// The penalty of an early exit: the penalty share of the accrued rewards.
pub open spec fn exit_penalty(s: RewardsState, id: u64) -> int {
    ratio(s.commitment(id).accrued_rewards as int, s.config.early_exit_penalty_bps as int, 10_000)
}

/// The holder leaves a commitment before maturity: the principal and the
/// accrued rewards less the penalty come back (nothing is sent when that
/// is zero). Returns the transfers and the penalty.
pub fn execute_exit_early(state: &mut RewardsState, sender: &String, commitment_id: u64)
    -> (r: Result<(Vec<Transfer>, u128), RewardsError>)
    requires
        old(state).wf(),
        exit_check(*old(state), *sender, commitment_id) is Ok ==> {
            let c = old(state).commitment(commitment_id);
            &&& exit_penalty(*old(state), commitment_id) <= c.accrued_rewards
            &&& c.amount + c.accrued_rewards - exit_penalty(*old(state), commitment_id) <= u128::MAX
        },
    ensures
        r is Ok <==> exit_check(*old(state), *sender, commitment_id) is Ok,
        r is Err ==> r->Err_0 == exit_check(*old(state), *sender, commitment_id)->Err_0 && *final(state) == *old(state),
        r matches Ok((transfers, penalty)) ==> {
            let c = old(state).commitment(commitment_id);
            &&& final(state).wf()
            &&& final(state).config == old(state).config
            &&& final(state).mechanism == old(state).mechanism
            &&& final(state).activity == old(state).activity
            &&& final(state).distributions == old(state).distributions
            &&& final(state).commitments@ == old(state).commitments@.update(commitment_id - 1,
                StabilityCommitment { status: CommitmentStatus::EarlyExit, ..c })
            &&& penalty == exit_penalty(*old(state), commitment_id)
            &&& tv(transfers@) == send_if(c.holder@, old(state).config.denom@, (c.amount + c.accrued_rewards - penalty) as u128)
        },
{
    let i = load_commitment(state, commitment_id)?;
    if state.commitments[i].holder != *sender {
        return Err(RewardsError::Unauthorized { action: Action::ExitCommitment });
    }
    if state.commitments[i].status != CommitmentStatus::Committed {
        return Err(RewardsError::InvalidCommitmentStatus { id: commitment_id, expected: CommitmentStatus::Committed });
    }
    proof {
        assert(ratio(state.commitments[i as int].accrued_rewards as int, state.config.early_exit_penalty_bps as int, 10_000)
            <= state.commitments[i as int].accrued_rewards);
    }
    let penalty = multiply_ratio(state.commitments[i].accrued_rewards, state.config.early_exit_penalty_bps as u128, 10_000);
    let total = state.commitments[i].amount + (state.commitments[i].accrued_rewards - penalty);
    let mut transfers: Vec<Transfer> = Vec::new();
    send_nonzero(&mut transfers, &state.commitments[i].holder, &state.config.denom, total);
    let ghost old_state = *state;
    state.commitments[i].status = CommitmentStatus::EarlyExit;
    proof {
        assert(state.commitments@ =~= old_state.commitments@.update(i as int, state.commitments@[i as int]));
        assert forall|j: int| 0 <= j < state.commitments.len() implies #[trigger] state.commitments[j].id == j + 1 by {
            assert(old_state.commitments[j].id == j + 1);
        }
    }
    Ok((transfers, penalty))
}

pub open spec fn claim_check(s: RewardsState, sender: String, now: u64, id: u64) -> Result<(), RewardsError> {
    if !s.has_commitment(id) {
        Err(RewardsError::CommitmentNotFound { id })
    } else if s.commitment(id).holder@ != sender@ {
        Err(RewardsError::Unauthorized { action: Action::ClaimCommitment })
    } else if s.commitment(id).status != CommitmentStatus::Committed {
        Err(RewardsError::InvalidCommitmentStatus { id, expected: CommitmentStatus::Committed })
    } else if now < s.commitment(id).matures_at {
        Err(RewardsError::CommitmentNotMatured { id, matures_at: spec_seconds(s.commitment(id).matures_at) as u64 })
    } else {
        Ok(())
    }
}

/// The holder claims a matured commitment: the principal and every accrued
/// reward come back (nothing is sent when that is zero).
pub fn execute_claim_matured(state: &mut RewardsState, sender: &String, now: u64, commitment_id: u64)
    -> (r: Result<Vec<Transfer>, RewardsError>)
    requires
        old(state).wf(),
        claim_check(*old(state), *sender, now, commitment_id) is Ok
            ==> old(state).commitment(commitment_id).amount + old(state).commitment(commitment_id).accrued_rewards <= u128::MAX,
    ensures
        r is Ok <==> claim_check(*old(state), *sender, now, commitment_id) is Ok,
        r is Err ==> r->Err_0 == claim_check(*old(state), *sender, now, commitment_id)->Err_0 && *final(state) == *old(state),
        r matches Ok(transfers) ==> {
            let c = old(state).commitment(commitment_id);
            &&& final(state).wf()
            &&& final(state).config == old(state).config
            &&& final(state).mechanism == old(state).mechanism
            &&& final(state).activity == old(state).activity
            &&& final(state).distributions == old(state).distributions
            &&& final(state).commitments@ == old(state).commitments@.update(commitment_id - 1,
                StabilityCommitment { status: CommitmentStatus::Matured, ..c })
            &&& tv(transfers@) == send_if(c.holder@, old(state).config.denom@, (c.amount + c.accrued_rewards) as u128)
        },
{
    let i = load_commitment(state, commitment_id)?;
    if state.commitments[i].holder != *sender {
        return Err(RewardsError::Unauthorized { action: Action::ClaimCommitment });
    }
    if state.commitments[i].status != CommitmentStatus::Committed {
        return Err(RewardsError::InvalidCommitmentStatus { id: commitment_id, expected: CommitmentStatus::Committed });
    }
    if now < state.commitments[i].matures_at {
        return Err(RewardsError::CommitmentNotMatured { id: commitment_id, matures_at: seconds(state.commitments[i].matures_at) });
    }
    let total = state.commitments[i].amount + state.commitments[i].accrued_rewards;
    let mut transfers: Vec<Transfer> = Vec::new();
    send_nonzero(&mut transfers, &state.commitments[i].holder, &state.config.denom, total);
    let ghost old_state = *state;
    state.commitments[i].status = CommitmentStatus::Matured;
    proof {
        assert(state.commitments@ =~= old_state.commitments@.update(i as int, state.commitments@[i as int]));
        assert forall|j: int| 0 <= j < state.commitments.len() implies #[trigger] state.commitments[j].id == j + 1 by {
            assert(old_state.commitments[j].id == j + 1);
        }
    }
    Ok(transfers)
}


// ── Activity ───────────────────────────────────────────────────────────

/// The first position from `i` on whose address does not sort before `a`,
/// or the length.
pub open spec fn find_pos(l: Seq<ActivityScore>, a: Seq<u8>, i: int) -> int
    decreases l.len() - i,
{
    if i < 0 || i >= l.len() {
        l.len() as int
    } else if lex_lt(key_bytes(l[i].address), a) {
        find_pos(l, a, i + 1)
    } else {
        i
    }
}

proof fn lemma_find_pos(l: Seq<ActivityScore>, a: Seq<u8>, i: int)
    requires
        0 <= i <= l.len(),
    ensures
        i <= find_pos(l, a, i) <= l.len(),
        forall|j: int| i <= j < find_pos(l, a, i) ==> lex_lt(key_bytes(#[trigger] l[j].address), a),
        find_pos(l, a, i) < l.len() ==> !lex_lt(key_bytes(l[find_pos(l, a, i)].address), a),
    decreases l.len() - i,
{
    if i < l.len() && lex_lt(key_bytes(l[i].address), a) {
        lemma_find_pos(l, a, i + 1);
    }
}

/// A participant's activity, with one more record added to it.
pub open spec fn with_added(e: ActivityScore, purchase: u128, retirement: u128, facilitation: u128, votes: u32, credits: u32)
    -> ActivityScore {
    ActivityScore {
        credit_purchase_value: (e.credit_purchase_value + purchase) as u128,
        credit_retirement_value: (e.credit_retirement_value + retirement) as u128,
        platform_facilitation_value: (e.platform_facilitation_value + facilitation) as u128,
        governance_votes: (e.governance_votes + votes) as u32,
        proposal_credits: (e.proposal_credits + credits) as u32,
        ..e
    }
}

/// Whether adding to an activity entry fits its counters.
pub open spec fn add_fits(e: ActivityScore, purchase: u128, retirement: u128, facilitation: u128, votes: u32, credits: u32) -> bool {
    &&& e.credit_purchase_value + purchase <= u128::MAX
    &&& e.credit_retirement_value + retirement <= u128::MAX
    &&& e.platform_facilitation_value + facilitation <= u128::MAX
    &&& e.governance_votes + votes <= u32::MAX
    &&& e.proposal_credits + credits <= u32::MAX
}

/// The current period's activity list after recording for `who`: the
/// entry of that address is added to, or a new entry is inserted in
/// address order.
pub open spec fn recorded(
    l: Seq<ActivityScore>,
    who: String,
    period: u32,
    purchase: u128,
    retirement: u128,
    facilitation: u128,
    votes: u32,
    credits: u32,
) -> Seq<ActivityScore> {
    let k = find_pos(l, key_bytes(who), 0);
    if k < l.len() && key_bytes(l[k].address) == key_bytes(who) {
        l.update(k, with_added(l[k], purchase, retirement, facilitation, votes, credits))
    } else {
        l.insert(k, ActivityScore {
            address: who,
            period,
            credit_purchase_value: purchase,
            credit_retirement_value: retirement,
            platform_facilitation_value: facilitation,
            governance_votes: votes,
            proposal_credits: credits,
        })
    }
}

pub open spec fn record_check(s: RewardsState, sender: String, participant: CheckedAddr) -> Result<(), RewardsError> {
    if sender@ != s.config.admin@ {
        Err(RewardsError::Unauthorized { action: Action::Administer })
    } else if s.mechanism.status == MechanismStatus::Inactive {
        Err(RewardsError::InvalidMechanismStatus { expected: Expected::TrackingOrDistributing, actual: s.mechanism.status })
    } else if participant is Err {
        Err(RewardsError::InvalidAddress { address: participant->Err_0 })
    } else {
        Ok(())
    }
}

/// Inserting an entry at its address position keeps a list sorted.
proof fn lemma_insert_sorted(l: Seq<ActivityScore>, k: int, x: ActivityScore)
    requires
        sorted_by_address(l),
        0 <= k <= l.len(),
        forall|j: int| 0 <= j < k ==> lex_lt(key_bytes(#[trigger] l[j].address), key_bytes(x.address)),
        k < l.len() ==> lex_lt(key_bytes(x.address), key_bytes(l[k].address)),
    ensures
        sorted_by_address(l.insert(k, x)),
{
    let t = l.insert(k, x);
    assert forall|a: int, b: int| 0 <= a < b < t.len()
        implies lex_lt(key_bytes(#[trigger] t[a].address), key_bytes(#[trigger] t[b].address)) by {
        if b < k {
            assert(t[a] == l[a] && t[b] == l[b]);
        } else if b == k {
            assert(t[a] == l[a]);
        } else if a == k {
            assert(t[b] == l[b - 1]);
            if b - 1 > k {
                assert(lex_lt(key_bytes(l[k].address), key_bytes(l[b - 1].address)));
                lemma_lex_trans(key_bytes(x.address), key_bytes(l[k].address), key_bytes(l[b - 1].address));
            }
        } else if a < k {
            assert(t[a] == l[a] && t[b] == l[b - 1]);
            assert(lex_lt(key_bytes(l[a].address), key_bytes(l[b - 1].address)));
        } else {
            assert(t[a] == l[a - 1] && t[b] == l[b - 1]);
        }
    }
}

/// The admin records a participant's activity for the current period,
/// adding to what was recorded before.
#[verifier::spinoff_prover]
#[verifier::rlimit(40)]
pub fn execute_record_activity(
    state: &mut RewardsState,
    sender: &String,
    participant: CheckedAddr,
    credit_purchase_value: u128,
    credit_retirement_value: u128,
    platform_facilitation_value: u128,
    governance_votes: u32,
    proposal_credits: u32,
) -> (r: Result<(), RewardsError>)
    requires
        old(state).wf(),
        record_check(*old(state), *sender, participant) is Ok ==> {
            let l = old(state).activity[old(state).mechanism.current_period - 1]@;
            let who = participant->Ok_0;
            let k = find_pos(l, key_bytes(who), 0);
            k < l.len() && key_bytes(l[k].address) == key_bytes(who) ==> add_fits(l[k], credit_purchase_value,
                credit_retirement_value, platform_facilitation_value, governance_votes, proposal_credits)
        },
    ensures
        r == record_check(*old(state), *sender, participant),
        r is Err ==> *final(state) == *old(state),
        r is Ok ==> {
            let p = old(state).mechanism.current_period;
            &&& final(state).wf()
            &&& final(state).config == old(state).config
            &&& final(state).mechanism == old(state).mechanism
            &&& final(state).commitments == old(state).commitments
            &&& final(state).distributions == old(state).distributions
            &&& final(state).activity.len() == old(state).activity.len()
            &&& forall|i: int| 0 <= i < p - 1 ==> #[trigger] final(state).activity@[i] == old(state).activity@[i]
            &&& final(state).activity@[p - 1]@ == recorded(old(state).activity@[p - 1]@, participant->Ok_0, p,
                credit_purchase_value, credit_retirement_value, platform_facilitation_value, governance_votes, proposal_credits)
        },
{
    require_admin(&state.config, sender)?;
    if state.mechanism.status == MechanismStatus::Inactive {
        return Err(RewardsError::InvalidMechanismStatus {
            expected: Expected::TrackingOrDistributing,
            actual: state.mechanism.status,
        });
    }
    let who = checked_addr(&participant)?;
    let period = state.mechanism.current_period;
    let pi = (period - 1) as usize;
    let ghost l = state.activity@[pi as int]@;
    let ghost a = key_bytes(who);
    proof {
        lemma_find_pos(l, a, 0);
    }
    let mut k: usize = 0;
    let mut found = false;
    while k < state.activity[pi].len()
        invariant_except_break
            k <= l.len(),
            l == state.activity@[pi as int]@,
            pi < state.activity.len(),
            a == key_bytes(who),
            find_pos(l, a, 0) == find_pos(l, a, k as int),
            !found,
        ensures
            k <= l.len(),
            find_pos(l, a, 0) == k,
            found == (k < l.len() && key_bytes(l[k as int].address) == a),
        decreases l.len() - k,
    {
        let c = compare_keys(&state.activity[pi][k].address, &who);
        if c == 0 {
            found = true;
            break;
        }
        if c == 1 {
            proof {
                lemma_lex_total(key_bytes(l[k as int].address), a);
            }
            break;
        }
        k += 1;
    }
    proof {
        if !found && k < l.len() {
            lemma_lex_total(key_bytes(l[k as int].address), a);
        }
    }
    let ghost old_state = *state;
    if found {
        let e = &state.activity[pi][k];
        let purchase = e.credit_purchase_value + credit_purchase_value;
        let retirement = e.credit_retirement_value + credit_retirement_value;
        let facilitation = e.platform_facilitation_value + platform_facilitation_value;
        let votes = e.governance_votes + governance_votes;
        let credits = e.proposal_credits + proposal_credits;
        state.activity[pi][k].credit_purchase_value = purchase;
        state.activity[pi][k].credit_retirement_value = retirement;
        state.activity[pi][k].platform_facilitation_value = facilitation;
        state.activity[pi][k].governance_votes = votes;
        state.activity[pi][k].proposal_credits = credits;
        proof {
            let nl = state.activity@[pi as int]@;
            assert(nl =~= l.update(k as int, with_added(l[k as int], credit_purchase_value, credit_retirement_value,
                platform_facilitation_value, governance_votes, proposal_credits)));
            assert(sorted_by_address(nl)) by {
                assert forall|x: int, y: int| 0 <= x < y < nl.len()
                    implies lex_lt(key_bytes(#[trigger] nl[x].address), key_bytes(#[trigger] nl[y].address)) by {
                    assert(nl[x].address == l[x].address && nl[y].address == l[y].address);
                    assert(sorted_by_address(old_state.activity@[pi as int]@));
                }
            }
        }
    } else {
        let entry = ActivityScore {
            address: who,
            period,
            credit_purchase_value,
            credit_retirement_value,
            platform_facilitation_value,
            governance_votes,
            proposal_credits,
        };
        let ghost g = entry;
        state.activity[pi].insert(k, entry);
        proof {
            assert(sorted_by_address(old_state.activity@[pi as int]@));
            lemma_insert_sorted(l, k as int, g);
            assert(state.activity@[pi as int]@ =~= l.insert(k as int, g));
        }
    }
    proof {
        let nl = state.activity@[pi as int]@;
        assert forall|i: int| 0 <= i < state.activity.len() implies sorted_by_address(#[trigger] state.activity[i]@) by {
            if i != pi {
                assert(state.activity[i] == old_state.activity[i]);
            }
        }
        assert forall|i: int, j: int| 0 <= i < state.activity.len() && 0 <= j < state.activity[i].len()
            implies #[trigger] state.activity[i]@[j].period == i + 1 by {
            if i != pi {
                assert(state.activity[i] == old_state.activity[i]);
            } else if found {
                assert(nl[j].period == l[j].period);
            } else if j != k {
                let j0 = if j < k { j } else { j - 1 };
                assert(nl[j] == l[j0]);
                assert(old_state.activity[i]@[j0].period == i + 1);
            }
        }
        assert forall|i: int| 0 <= i < period - 1 implies #[trigger] state.activity@[i] == old_state.activity@[i] by {}
    }
    Ok(())
}


// ── Distribution ───────────────────────────────────────────────────────

/// The principal of the commitments still locked.
pub open spec fn committed_total(cs: Seq<StabilityCommitment>) -> int
    decreases cs.len(),
{
    if cs.len() == 0 {
        0
    } else {
        committed_total(cs.drop_last()) + if cs.last().status == CommitmentStatus::Committed { cs.last().amount as int } else { 0 }
    }
}

proof fn lemma_committed_total(cs: Seq<StabilityCommitment>, i: int)
    requires
        0 <= i < cs.len(),
    ensures
        0 <= committed_total(cs.take(i)) <= committed_total(cs.take(i + 1)) <= committed_total(cs),
        committed_total(cs.take(i + 1)) == committed_total(cs.take(i))
            + if cs[i].status == CommitmentStatus::Committed { cs[i].amount as int } else { 0 },
    decreases cs.len(),
{
    assert(cs.take(i + 1).drop_last() =~= cs.take(i));
    lemma_committed_total_nonneg(cs.take(i));
    if i + 1 == cs.len() {
        assert(cs.take(i + 1) =~= cs);
    } else {
        lemma_committed_total(cs.drop_last(), i);
        assert(cs.drop_last().take(i) =~= cs.take(i));
        assert(cs.drop_last().take(i + 1) =~= cs.take(i + 1));
        lemma_committed_total_nonneg(cs);
        if cs.len() > 0 {
            lemma_committed_total_mono(cs);
        }
    }
}

proof fn lemma_committed_total_nonneg(cs: Seq<StabilityCommitment>)
    ensures
        committed_total(cs) >= 0,
    decreases cs.len(),
{
    if cs.len() > 0 {
        lemma_committed_total_nonneg(cs.drop_last());
    }
}

proof fn lemma_committed_total_mono(cs: Seq<StabilityCommitment>)
    requires
        cs.len() > 0,
    ensures
        committed_total(cs.drop_last()) <= committed_total(cs),
{
}

/// The stability tier's share of an inflow: the annual return on the
/// locked principal pro-rated to one period, at most the capped share of
/// the inflow; nothing without locked principal.
pub open spec fn stability_allocation(s: RewardsState, inflow: u128) -> int {
    let total = committed_total(s.commitments@);
    let c = s.config;
    if total == 0 {
        0
    } else {
        let owed = ratio(total, c.stability_annual_return_bps * c.period_seconds, 10_000 * SECONDS_PER_YEAR);
        let cap = ratio(inflow as int, c.max_stability_share_bps as int, 10_000);
        if owed < cap { owed } else { cap }
    }
}

/// A commitment after accruing its pro-rata share of the allocation.
pub open spec fn accrued(c: StabilityCommitment, allocation: int, total: int) -> StabilityCommitment {
    if c.status == CommitmentStatus::Committed && allocation != 0 && total != 0 {
        StabilityCommitment { accrued_rewards: (c.accrued_rewards + ratio(allocation, c.amount as int, total)) as u128, ..c }
    } else {
        c
    }
}

/// The largest vote count of a period.
pub open spec fn max_votes(l: Seq<ActivityScore>) -> int
    decreases l.len(),
{
    if l.len() == 0 {
        0
    } else {
        let m = max_votes(l.drop_last());
        if l.last().governance_votes > m { l.last().governance_votes as int } else { m }
    }
}

/// The largest proposal credit of a period.
pub open spec fn max_credits(l: Seq<ActivityScore>) -> int
    decreases l.len(),
{
    if l.len() == 0 {
        0
    } else {
        let m = max_credits(l.drop_last());
        if l.last().proposal_credits > m { l.last().proposal_credits as int } else { m }
    }
}

/// A count normalized against the period's largest, on a scale of a
/// million; zero when nobody has any.
pub open spec fn normalized(count: int, max: int) -> int {
    if max > 0 { ratio(count, REFERENCE_SCALE as int, max) } else { 0 }
}

/// A participant's weighted score: each monetary value and each normalized
/// count times its weight.
pub open spec fn weighted(c: Config, e: ActivityScore, max_v: int, max_p: int) -> int {
    ratio(e.credit_purchase_value as int, c.credit_purchase_weight as int, 10_000)
        + ratio(e.credit_retirement_value as int, c.credit_retirement_weight as int, 10_000)
        + ratio(e.platform_facilitation_value as int, c.platform_facilitation_weight as int, 10_000)
        + ratio(normalized(e.governance_votes as int, max_v), c.governance_voting_weight as int, 10_000)
        + ratio(normalized(e.proposal_credits as int, max_p), c.proposal_submission_weight as int, 10_000)
}

/// The weighted scores of a period, in address order.
pub open spec fn period_weights(c: Config, l: Seq<ActivityScore>) -> Seq<int> {
    l.map_values(|e: ActivityScore| weighted(c, e, max_votes(l), max_credits(l)))
}

/// The transfers of the activity rewards: each participant in address
/// order gets the floor of its share of the pool, when non-zero.
pub open spec fn reward_transfers(c: Config, l: Seq<ActivityScore>, ws: Seq<int>, pool: int, total: int) -> Seq<TransferView>
    decreases l.len(),
{
    if l.len() == 0 || ws.len() != l.len() {
        Seq::empty()
    } else {
        reward_transfers(c, l.drop_last(), ws.drop_last(), pool, total)
            + send_if(l.last().address@, c.denom@, ratio(pool, ws.last(), total) as u128)
    }
}

/// The activity pool of an inflow: what the stability tier leaves.
pub open spec fn activity_pool(s: RewardsState, inflow: u128) -> int {
    inflow - stability_allocation(s, inflow)
}

pub open spec fn distribution_check(s: RewardsState, sender: String, inflow: u128) -> Result<(), RewardsError> {
    if sender@ != s.config.admin@ {
        Err(RewardsError::Unauthorized { action: Action::Administer })
    } else if inflow == 0 {
        Err(RewardsError::ZeroInflow)
    } else if s.mechanism.status != MechanismStatus::Distributing {
        Err(RewardsError::InvalidMechanismStatus { expected: Expected::Distributing, actual: s.mechanism.status })
    } else if s.distributions.len() >= s.mechanism.current_period {
        Err(RewardsError::AlreadyDistributed { period: s.mechanism.current_period })
    } else {
        Ok(())
    }
}

/// The refusal a distribution with this inflow would meet now, if any: a
/// distribution goes ahead exactly when this is `Ok`.
pub fn may_distribute(state: &RewardsState, sender: &String, community_pool_inflow: u128) -> (r: Result<(), RewardsError>)
    requires
        state.wf(),
    ensures
        r == distribution_check(*state, *sender, community_pool_inflow),
{
    require_admin(&state.config, sender)?;
    if community_pool_inflow == 0 {
        return Err(RewardsError::ZeroInflow);
    }
    if state.mechanism.status != MechanismStatus::Distributing {
        return Err(RewardsError::InvalidMechanismStatus { expected: Expected::Distributing, actual: state.mechanism.status });
    }
    let period = state.mechanism.current_period;
    if state.distributions.len() >= period as usize {
        return Err(RewardsError::AlreadyDistributed { period });
    }
    Ok(())
}

/// Whether a distribution's amounts fit: the locked principal, the owed
/// return and the cap in `u128`, the allocation within the inflow, each
/// accrual, each weighted score and their sum in `u128`, and the next
/// period in `u32`.
pub open spec fn distribution_fits(s: RewardsState, inflow: u128) -> bool {
    let total = committed_total(s.commitments@);
    let c = s.config;
    let p = s.mechanism.current_period;
    let l = s.activity[p - 1]@;
    let alloc = stability_allocation(s, inflow);
    &&& total <= u128::MAX
    &&& total != 0 ==> ratio(total, c.stability_annual_return_bps * c.period_seconds, 10_000 * SECONDS_PER_YEAR) <= u128::MAX
    &&& total != 0 ==> ratio(inflow as int, c.max_stability_share_bps as int, 10_000) <= u128::MAX
    &&& alloc <= inflow
    &&& alloc != 0 ==> forall|i: int| 0 <= i < s.commitments.len() && #[trigger] s.commitments[i].status == CommitmentStatus::Committed
        ==> s.commitments[i].accrued_rewards + ratio(alloc, s.commitments[i].amount as int, total) <= u128::MAX
    &&& forall|i: int| 0 <= i < l.len() ==> weighted(c, #[trigger] l[i], max_votes(l), max_credits(l)) <= u128::MAX
    &&& seq_sum(period_weights(c, l)) <= u128::MAX
    &&& p + 1 <= u32::MAX
}


/// The principal of the commitments still locked.
pub fn total_committed(state: &RewardsState) -> (r: u128)
    requires
        committed_total(state.commitments@) <= u128::MAX,
    ensures
        r == committed_total(state.commitments@),
{
    let ghost cs = state.commitments@;
    let mut total: u128 = 0;
    let mut i: usize = 0;
    assert(cs.take(0) =~= Seq::<StabilityCommitment>::empty());
    while i < state.commitments.len()
        invariant
            i <= state.commitments.len(),
            cs == state.commitments@,
            committed_total(cs) <= u128::MAX,
            total == committed_total(cs.take(i as int)),
        decreases state.commitments.len() - i,
    {
        proof {
            lemma_committed_total(cs, i as int);
        }
        if state.commitments[i].status == CommitmentStatus::Committed {
            total = total + state.commitments[i].amount;
        }
        i += 1;
    }
    assert(cs.take(i as int) =~= cs);
    total
}

/// The stability tier's share of an inflow (see `stability_allocation`).
pub fn calculate_stability_allocation(state: &RewardsState, inflow: u128) -> (r: u128)
    requires
        distribution_fits(*state, inflow),
    ensures
        r == stability_allocation(*state, inflow),
{
    let total = total_committed(state);
    if total == 0 {
        return 0;
    }
    let c = &state.config;
    proof {
        let a = c.stability_annual_return_bps as int;
        let b = c.period_seconds as int;
        assert(a * b <= u128::MAX) by (nonlinear_arith)
            requires 0 <= a <= u64::MAX, 0 <= b <= u64::MAX;
    }
    let owed = multiply_ratio(total, c.stability_annual_return_bps as u128 * c.period_seconds as u128, 10_000u128 * SECONDS_PER_YEAR);
    let cap = multiply_ratio(inflow, c.max_stability_share_bps as u128, 10_000);
    if owed < cap { owed } else { cap }
}

/// Each locked commitment accrues its pro-rata share of the allocation.
pub fn accrue_stability_rewards(state: &mut RewardsState, allocation: u128)
    requires
        allocation != 0 ==> forall|i: int| 0 <= i < old(state).commitments.len()
            && #[trigger] old(state).commitments[i].status == CommitmentStatus::Committed
            ==> old(state).commitments[i].accrued_rewards
                + ratio(allocation as int, old(state).commitments[i].amount as int, committed_total(old(state).commitments@)) <= u128::MAX,
        committed_total(old(state).commitments@) <= u128::MAX,
    ensures
        final(state).config == old(state).config,
        final(state).mechanism == old(state).mechanism,
        final(state).activity == old(state).activity,
        final(state).distributions == old(state).distributions,
        final(state).commitments.len() == old(state).commitments.len(),
        forall|i: int| 0 <= i < old(state).commitments.len() ==> #[trigger] final(state).commitments@[i]
            == accrued(old(state).commitments@[i], allocation as int, committed_total(old(state).commitments@)),
{
    if allocation == 0 {
        return;
    }
    let total = total_committed(state);
    if total == 0 {
        return;
    }
    let ghost cs = state.commitments@;
    let mut i: usize = 0;
    while i < state.commitments.len()
        invariant
            allocation != 0,
            total != 0,
            total == committed_total(cs),
            i <= state.commitments.len(),
            state.commitments.len() == cs.len(),
            state.config == old(state).config,
            state.mechanism == old(state).mechanism,
            state.activity == old(state).activity,
            state.distributions == old(state).distributions,
            cs == old(state).commitments@,
            forall|j: int| 0 <= j < i ==> #[trigger] state.commitments@[j] == accrued(cs[j], allocation as int, total as int),
            forall|j: int| i <= j < cs.len() ==> #[trigger] state.commitments@[j] == cs[j],
            forall|j: int| 0 <= j < cs.len() && #[trigger] cs[j].status == CommitmentStatus::Committed
                ==> cs[j].accrued_rewards + ratio(allocation as int, cs[j].amount as int, total as int) <= u128::MAX,
        decreases state.commitments.len() - i,
    {
        if state.commitments[i].status == CommitmentStatus::Committed {
            proof {
                lemma_committed_total(cs, i as int);
                lemma_ratio_le(allocation as int, state.commitments[i as int].amount as int, total as int);
                assert(ratio(allocation as int, cs[i as int].amount as int, total as int) <= allocation) by (nonlinear_arith)
                    requires
                        cs[i as int].amount <= total,
                        0 < total,
                        0 <= allocation,
                        0 <= cs[i as int].amount,
                ;
            }
            let share = multiply_ratio(allocation, state.commitments[i].amount, total);
            let acc = state.commitments[i].accrued_rewards + share;
            state.commitments[i].accrued_rewards = acc;
        }
        i += 1;
    }
}

/// The largest vote count and proposal credit of a period.
pub fn period_maxima(l: &Vec<ActivityScore>) -> (r: (u32, u32))
    ensures
        r.0 == max_votes(l@),
        r.1 == max_credits(l@),
{
    let mut mv: u32 = 0;
    let mut mp: u32 = 0;
    let mut i: usize = 0;
    assert(l@.take(0) =~= Seq::<ActivityScore>::empty());
    while i < l.len()
        invariant
            i <= l.len(),
            mv == max_votes(l@.take(i as int)),
            mp == max_credits(l@.take(i as int)),
        decreases l.len() - i,
    {
        assert(l@.take(i as int + 1).drop_last() =~= l@.take(i as int));
        if l[i].governance_votes > mv {
            mv = l[i].governance_votes;
        }
        if l[i].proposal_credits > mp {
            mp = l[i].proposal_credits;
        }
        i += 1;
    }
    assert(l@.take(i as int) =~= l@);
    (mv, mp)
}

/// A weighted count component.
fn weighted_count(count: u32, max: u32, weight: u64) -> (r: u128)
    requires
        weight <= WEIGHT_TOTAL,
    ensures
        r == ratio(normalized(count as int, max as int), weight as int, 10_000),
{
    let norm: u128 = if max > 0 {
        proof {
            assert(ratio(count as int, REFERENCE_SCALE as int, max as int) <= count * REFERENCE_SCALE) by (nonlinear_arith)
                requires max > 0, count >= 0;
        }
        multiply_ratio(count as u128, REFERENCE_SCALE, max as u128)
    } else {
        0
    };
    proof {
        lemma_ratio_le(norm as int, weight as int, 10_000);
    }
    multiply_ratio(norm, weight as u128, 10_000)
}

/// A participant's weighted score (see `weighted`).
pub fn calculate_weighted_score(config: &Config, score: &ActivityScore, max_votes: u32, max_proposals: u32) -> (r: u128)
    requires
        weight_sum(*config) == WEIGHT_TOTAL,
        weighted(*config, *score, max_votes as int, max_proposals as int) <= u128::MAX,
    ensures
        r == weighted(*config, *score, max_votes as int, max_proposals as int),
{
    proof {
        lemma_ratio_le(score.credit_purchase_value as int, config.credit_purchase_weight as int, 10_000);
        lemma_ratio_le(score.credit_retirement_value as int, config.credit_retirement_weight as int, 10_000);
        lemma_ratio_le(score.platform_facilitation_value as int, config.platform_facilitation_weight as int, 10_000);
    }
    let purchase = multiply_ratio(score.credit_purchase_value, config.credit_purchase_weight as u128, 10_000);
    let retirement = multiply_ratio(score.credit_retirement_value, config.credit_retirement_weight as u128, 10_000);
    let facilitation = multiply_ratio(score.platform_facilitation_value, config.platform_facilitation_weight as u128, 10_000);
    let votes = weighted_count(score.governance_votes, max_votes, config.governance_voting_weight);
    let proposals = weighted_count(score.proposal_credits, max_proposals, config.proposal_submission_weight);
    proof {
        assert(0 <= ratio(normalized(score.governance_votes as int, max_votes as int), config.governance_voting_weight as int, 10_000));
    }
    purchase + retirement + facilitation + votes + proposals
}

/// The weighted scores of a period, in address order, and their sum.
pub fn calculate_period_scores(config: &Config, l: &Vec<ActivityScore>) -> (r: (u128, Vec<u128>))
    requires
        weight_sum(*config) == WEIGHT_TOTAL,
        forall|i: int| 0 <= i < l.len() ==> weighted(*config, #[trigger] l@[i], max_votes(l@), max_credits(l@)) <= u128::MAX,
        seq_sum(period_weights(*config, l@)) <= u128::MAX,
    ensures
        r.0 == seq_sum(period_weights(*config, l@)),
        r.1@.len() == l.len(),
        forall|i: int| 0 <= i < l.len() ==> #[trigger] r.1@[i] == period_weights(*config, l@)[i],
{
    let (mv, mp) = period_maxima(l);
    let ghost ws = period_weights(*config, l@);
    let mut total: u128 = 0;
    let mut scores: Vec<u128> = Vec::new();
    let mut i: usize = 0;
    assert(ws.take(0) =~= Seq::<int>::empty());
    while i < l.len()
        invariant
            i <= l.len(),
            mv == max_votes(l@),
            mp == max_credits(l@),
            weight_sum(*config) == WEIGHT_TOTAL,
            ws == period_weights(*config, l@),
            ws.len() == l.len(),
            forall|j: int| 0 <= j < l.len() ==> weighted(*config, #[trigger] l@[j], max_votes(l@), max_credits(l@)) <= u128::MAX,
            seq_sum(ws) <= u128::MAX,
            forall|j: int| 0 <= j < ws.len() ==> 0 <= #[trigger] ws[j],
            total == seq_sum(ws.take(i as int)),
            scores@.len() == i,
            forall|j: int| 0 <= j < i ==> #[trigger] scores@[j] == ws[j],
        decreases l.len() - i,
    {
        let w = calculate_weighted_score(config, &l[i], mv, mp);
        proof {
            assert(ws.take(i as int + 1).drop_last() =~= ws.take(i as int));
            assert(ws[i as int] == w);
            lemma_seq_sum_prefix(ws, i as int + 1);
        }
        total = total + w;
        scores.push(w);
        i += 1;
    }
    assert(ws.take(i as int) =~= ws);
    (total, scores)
}

/// Prefix sums of non-negative weights never exceed the whole sum.
proof fn lemma_seq_sum_prefix(ws: Seq<int>, n: int)
    requires
        0 <= n <= ws.len(),
        forall|j: int| 0 <= j < ws.len() ==> 0 <= #[trigger] ws[j],
    ensures
        0 <= seq_sum(ws.take(n)) <= seq_sum(ws),
    decreases ws.len(),
{
    if ws.len() > 0 {
        let rest = ws.drop_last();
        assert forall|j: int| 0 <= j < rest.len() implies 0 <= #[trigger] rest[j] by {
            assert(rest[j] == ws[j]);
        }
        if n == ws.len() {
            assert(ws.take(n) =~= ws);
            lemma_seq_sum_prefix(rest, n - 1);
            assert(ws[ws.len() - 1] >= 0);
        } else {
            lemma_seq_sum_prefix(rest, n);
            assert(rest.take(n) =~= ws.take(n));
            lemma_seq_sum_prefix(rest, rest.len() as int);
            assert(rest.take(rest.len() as int) =~= rest);
            assert(ws[ws.len() - 1] >= 0);
        }
    } else {
        assert(ws.take(n) =~= ws);
    }
}


/// One weight never exceeds the sum of non-negative weights.
proof fn lemma_weight_le_sum(ws: Seq<int>, i: int)
    requires
        0 <= i < ws.len(),
        forall|j: int| 0 <= j < ws.len() ==> 0 <= #[trigger] ws[j],
    ensures
        0 <= ws[i] <= seq_sum(ws),
{
    lemma_seq_sum_prefix(ws, i);
    lemma_seq_sum_prefix(ws, i + 1);
    assert(ws.take(i + 1).drop_last() =~= ws.take(i));
}

/// What a distribution produced.
#[derive(Clone)]
pub struct DistributionOutcome {
    pub record: DistributionRecord,
    pub transfers: Vec<Transfer>,
    /// How many participants the period had.
    pub participants: usize,
}

/// The admin distributes an inflow for the current period: the stability
/// tier's share accrues to the locked commitments pro rata by principal,
/// the rest is paid to the period's participants pro rata by weighted
/// score; the period is recorded and the next one begins.
#[verifier::spinoff_prover]
#[verifier::rlimit(50)]
pub fn execute_trigger_distribution(state: &mut RewardsState, sender: &String, now: u64, community_pool_inflow: u128)
    -> (r: Result<DistributionOutcome, RewardsError>)
    requires
        old(state).wf(),
        distribution_check(*old(state), *sender, community_pool_inflow) is Ok
            ==> distribution_fits(*old(state), community_pool_inflow),
    ensures
        r is Ok <==> distribution_check(*old(state), *sender, community_pool_inflow) is Ok,
        r is Err ==> r->Err_0 == distribution_check(*old(state), *sender, community_pool_inflow)->Err_0
            && *final(state) == *old(state),
        r matches Ok(out) ==> {
            let p = old(state).mechanism.current_period;
            let cfg = old(state).config;
            let l = old(state).activity@[p - 1]@;
            let alloc = stability_allocation(*old(state), community_pool_inflow);
            let pool = community_pool_inflow - alloc;
            let ws = period_weights(cfg, l);
            let total = seq_sum(ws);
            &&& final(state).wf()
            &&& final(state).config == old(state).config
            &&& final(state).commitments.len() == old(state).commitments.len()
            &&& forall|i: int| 0 <= i < old(state).commitments.len() ==> #[trigger] final(state).commitments@[i]
                == accrued(old(state).commitments@[i], alloc, committed_total(old(state).commitments@))
            &&& out.record == (DistributionRecord {
                period: p,
                community_pool_inflow,
                stability_allocation: alloc as u128,
                activity_pool: pool as u128,
                total_score: total as u128,
                executed_at: now,
            })
            &&& final(state).distributions@ == old(state).distributions@.push(out.record)
            &&& final(state).mechanism == (MechanismState {
                last_distribution_period: Some(p),
                current_period: (p + 1) as u32,
                ..old(state).mechanism
            })
            &&& final(state).activity@.len() == p + 1
            &&& final(state).activity@.take(p as int) == old(state).activity@
            &&& final(state).activity@[p as int]@.len() == 0
            &&& out.participants == l.len()
            &&& tv(out.transfers@) == if pool != 0 && total != 0 {
                reward_transfers(cfg, l, ws, pool, total)
            } else {
                Seq::<TransferView>::empty()
            }
        },
{
    require_admin(&state.config, sender)?;
    if community_pool_inflow == 0 {
        return Err(RewardsError::ZeroInflow);
    }
    if state.mechanism.status != MechanismStatus::Distributing {
        return Err(RewardsError::InvalidMechanismStatus { expected: Expected::Distributing, actual: state.mechanism.status });
    }
    let period = state.mechanism.current_period;
    if state.distributions.len() >= period as usize {
        return Err(RewardsError::AlreadyDistributed { period });
    }
    let ghost old_state = *state;
    let allocation = calculate_stability_allocation(state, community_pool_inflow);
    let pool = community_pool_inflow - allocation;
    accrue_stability_rewards(state, allocation);
    let pi = (period - 1) as usize;
    let ghost l = state.activity@[pi as int]@;
    let (total, scores) = calculate_period_scores(&state.config, &state.activity[pi]);
    let ghost ws = period_weights(state.config, l);
    let mut transfers: Vec<Transfer> = Vec::new();
    if pool != 0 && total != 0 {
        let mut i: usize = 0;
        assert(l.take(0) =~= Seq::<ActivityScore>::empty());
        while i < state.activity[pi].len()
            invariant
                pi < state.activity.len(),
                l == state.activity@[pi as int]@,
                ws == period_weights(state.config, l),
                ws.len() == l.len(),
                scores@.len() == l.len(),
                forall|j: int| 0 <= j < l.len() ==> #[trigger] scores@[j] == ws[j],
                total == seq_sum(ws),
                total != 0,
                i <= l.len(),
                tv(transfers@) == reward_transfers(state.config, l.take(i as int), ws.take(i as int), pool as int, total as int),
            decreases l.len() - i,
        {
            proof {
                assert forall|j: int| 0 <= j < ws.len() implies 0 <= #[trigger] ws[j] by {
                    assert(ws[j] == scores@[j]);
                }
                lemma_weight_le_sum(ws, i as int);
                lemma_ratio_le(pool as int, ws[i as int], total as int);
                assert(ratio(pool as int, ws[i as int], total as int) <= pool) by (nonlinear_arith)
                    requires
                        0 <= ws[i as int] <= total,
                        0 < total,
                        0 <= pool,
                ;
            }
            let reward = multiply_ratio(pool, scores[i], total);
            send_nonzero(&mut transfers, &state.activity[pi][i].address, &state.config.denom, reward);
            proof {
                assert(l.take(i as int + 1).drop_last() =~= l.take(i as int));
                assert(ws.take(i as int + 1).drop_last() =~= ws.take(i as int));
            }
            i += 1;
        }
        proof {
            assert(l.take(i as int) =~= l);
            assert(ws.take(i as int) =~= ws);
        }
    }
    let record = DistributionRecord {
        period,
        community_pool_inflow,
        stability_allocation: allocation,
        activity_pool: pool,
        total_score: total,
        executed_at: now,
    };
    let participants = state.activity[pi].len();
    state.distributions.push(record);
    state.mechanism.last_distribution_period = Some(period);
    state.mechanism.current_period = period + 1;
    state.activity.push(Vec::new());
    proof {
        let n = old_state.activity.len() as int;
        assert(state.activity@.take(n) =~= old_state.activity@);
        assert(state.activity@[n]@.len() == 0);
        assert forall|i: int| 0 <= i < state.commitments.len() implies #[trigger] state.commitments[i].id == i + 1 by {
            assert(state.commitments@[i] == accrued(old_state.commitments@[i], allocation as int, committed_total(old_state.commitments@)));
            assert(old_state.commitments[i].id == i + 1);
        }
        assert forall|i: int| 0 <= i < state.distributions.len() implies #[trigger] state.distributions[i].period == i + 1 by {
            if i < old_state.distributions.len() {
                assert(state.distributions[i] == old_state.distributions[i]);
            }
        }
        assert forall|i: int| 0 <= i < state.activity.len() implies sorted_by_address(#[trigger] state.activity[i]@) by {
            if i < n {
                assert(state.activity[i] == old_state.activity[i]);
            }
        }
        assert forall|i: int, k: int| 0 <= i < state.activity.len() && 0 <= k < state.activity[i].len()
            implies #[trigger] state.activity[i]@[k].period == i + 1 by {
            if i < n {
                assert(state.activity[i] == old_state.activity[i]);
            }
        }
    }
    Ok(DistributionOutcome { record, transfers, participants })
}


// ── Configuration ──────────────────────────────────────────────────────

pub struct ConfigUpdate {
    pub community_pool_addr: Option<CheckedAddr>,
    pub credit_purchase_weight: Option<u64>,
    pub credit_retirement_weight: Option<u64>,
    pub platform_facilitation_weight: Option<u64>,
    pub governance_voting_weight: Option<u64>,
    pub proposal_submission_weight: Option<u64>,
    pub stability_annual_return_bps: Option<u64>,
    pub max_stability_share_bps: Option<u64>,
    pub min_commitment_amount: Option<u128>,
    pub min_lock_months: Option<u64>,
    pub max_lock_months: Option<u64>,
    pub early_exit_penalty_bps: Option<u64>,
    pub period_seconds: Option<u64>,
}

pub open spec fn opt_or<T>(o: Option<T>, d: T) -> T {
    match o {
        Some(v) => v,
        None => d,
    }
}

/// The configuration an update asks for.
pub open spec fn updated(c: Config, u: ConfigUpdate) -> Config {
    Config {
        admin: c.admin,
        community_pool_addr: match u.community_pool_addr { Some(Ok(a)) => a, _ => c.community_pool_addr },
        denom: c.denom,
        credit_purchase_weight: opt_or(u.credit_purchase_weight, c.credit_purchase_weight),
        credit_retirement_weight: opt_or(u.credit_retirement_weight, c.credit_retirement_weight),
        platform_facilitation_weight: opt_or(u.platform_facilitation_weight, c.platform_facilitation_weight),
        governance_voting_weight: opt_or(u.governance_voting_weight, c.governance_voting_weight),
        proposal_submission_weight: opt_or(u.proposal_submission_weight, c.proposal_submission_weight),
        stability_annual_return_bps: opt_or(u.stability_annual_return_bps, c.stability_annual_return_bps),
        max_stability_share_bps: opt_or(u.max_stability_share_bps, c.max_stability_share_bps),
        min_commitment_amount: opt_or(u.min_commitment_amount, c.min_commitment_amount),
        min_lock_months: opt_or(u.min_lock_months, c.min_lock_months),
        max_lock_months: opt_or(u.max_lock_months, c.max_lock_months),
        early_exit_penalty_bps: opt_or(u.early_exit_penalty_bps, c.early_exit_penalty_bps),
        period_seconds: opt_or(u.period_seconds, c.period_seconds),
    }
}

pub open spec fn update_check(s: RewardsState, sender: String, u: ConfigUpdate) -> Result<(), RewardsError> {
    if sender@ != s.config.admin@ {
        Err(RewardsError::Unauthorized { action: Action::Administer })
    } else if u.community_pool_addr is Some && u.community_pool_addr->Some_0 is Err {
        Err(RewardsError::InvalidAddress { address: u.community_pool_addr->Some_0->Err_0 })
    } else if weight_sum(updated(s.config, u)) != WEIGHT_TOTAL {
        Err(RewardsError::InvalidWeightSum { sum: weight_sum(updated(s.config, u)) as u64 })
    } else {
        Ok(())
    }
}

/// The admin updates the community pool (validated) and any parameter; the
/// activity weights must still add up to 100%.
pub fn execute_update_config(state: &mut RewardsState, sender: &String, update: ConfigUpdate) -> (r: Result<(), RewardsError>)
    requires
        old(state).wf(),
        weight_sum(updated(old(state).config, update)) <= u64::MAX,
    ensures
        r is Ok <==> update_check(*old(state), *sender, update) is Ok,
        r is Err ==> r->Err_0 == update_check(*old(state), *sender, update)->Err_0 && *final(state) == *old(state),
        r is Ok ==> {
            &&& final(state).wf()
            &&& final(state).config == updated(old(state).config, update)
            &&& final(state).mechanism == old(state).mechanism
            &&& final(state).commitments == old(state).commitments
            &&& final(state).activity == old(state).activity
            &&& final(state).distributions == old(state).distributions
        },
{
    require_admin(&state.config, sender)?;
    let ConfigUpdate {
        community_pool_addr,
        credit_purchase_weight,
        credit_retirement_weight,
        platform_facilitation_weight,
        governance_voting_weight,
        proposal_submission_weight,
        stability_annual_return_bps,
        max_stability_share_bps,
        min_commitment_amount,
        min_lock_months,
        max_lock_months,
        early_exit_penalty_bps,
        period_seconds,
    } = update;
    let pool = match &community_pool_addr {
        Some(a) => Some(checked_addr(a)?),
        None => None,
    };
    let c = &state.config;
    let w1 = match credit_purchase_weight { Some(v) => v, None => c.credit_purchase_weight };
    let w2 = match credit_retirement_weight { Some(v) => v, None => c.credit_retirement_weight };
    let w3 = match platform_facilitation_weight { Some(v) => v, None => c.platform_facilitation_weight };
    let w4 = match governance_voting_weight { Some(v) => v, None => c.governance_voting_weight };
    let w5 = match proposal_submission_weight { Some(v) => v, None => c.proposal_submission_weight };
    let sum = w1 + w2 + w3 + w4 + w5;
    if sum != WEIGHT_TOTAL {
        return Err(RewardsError::InvalidWeightSum { sum });
    }
    let c = &mut state.config;
    if let Some(a) = pool {
        c.community_pool_addr = a;
    }
    c.credit_purchase_weight = w1;
    c.credit_retirement_weight = w2;
    c.platform_facilitation_weight = w3;
    c.governance_voting_weight = w4;
    c.proposal_submission_weight = w5;
    c.stability_annual_return_bps = match stability_annual_return_bps { Some(v) => v, None => c.stability_annual_return_bps };
    c.max_stability_share_bps = match max_stability_share_bps { Some(v) => v, None => c.max_stability_share_bps };
    c.min_commitment_amount = match min_commitment_amount { Some(v) => v, None => c.min_commitment_amount };
    c.min_lock_months = match min_lock_months { Some(v) => v, None => c.min_lock_months };
    c.max_lock_months = match max_lock_months { Some(v) => v, None => c.max_lock_months };
    c.early_exit_penalty_bps = match early_exit_penalty_bps { Some(v) => v, None => c.early_exit_penalty_bps };
    c.period_seconds = match period_seconds { Some(v) => v, None => c.period_seconds };
    Ok(())
}

// ── Queries ────────────────────────────────────────────────────────────

/// The activity recorded for `who` in period `period`, if any.
pub open spec fn activity_of(s: RewardsState, period: u32, who: String) -> Option<ActivityScore> {
    if 1 <= period <= s.activity.len() {
        let l = s.activity[period - 1]@;
        let k = find_pos(l, key_bytes(who), 0);
        if k < l.len() && key_bytes(l[k].address) == key_bytes(who) { Some(l[k]) } else { None }
    } else {
        None
    }
}

/// The position of `who`'s activity in a period's list, if recorded.
fn find_activity(l: &Vec<ActivityScore>, who: &String) -> (r: Option<usize>)
    ensures
        ({
            let k = find_pos(l@, key_bytes(*who), 0);
            match r {
                Some(i) => i == k && k < l.len() && key_bytes(l@[k].address) == key_bytes(*who),
                None => !(k < l.len() && key_bytes(l@[k].address) == key_bytes(*who)),
            }
        }),
{
    let ghost a = key_bytes(*who);
    proof {
        lemma_find_pos(l@, a, 0);
    }
    let mut k: usize = 0;
    while k < l.len()
        invariant
            k <= l.len(),
            find_pos(l@, a, 0) == find_pos(l@, a, k as int),
            a == key_bytes(*who),
        decreases l.len() - k,
    {
        let c = compare_keys(&l[k].address, who);
        if c == 0 {
            return Some(k);
        }
        if c == 1 {
            proof {
                lemma_lex_total(key_bytes(l@[k as int].address), a);
            }
            return None;
        }
        k += 1;
    }
    None
}

/// A participant's activity in a period: what was recorded, or all zero
/// under the address as given.
pub fn query_activity_score(state: &RewardsState, address: CheckedAddr, period: u32) -> (r: Result<ActivityScore, RewardsError>)
    ensures
        address is Err ==> r == Err::<ActivityScore, RewardsError>(RewardsError::InvalidAddress { address: address->Err_0 }),
        address matches Ok(who) ==> (r matches Ok(e) && match activity_of(*state, period, who) {
            Some(found) => e == found,
            None => e == (ActivityScore {
                address: who,
                period,
                credit_purchase_value: 0,
                credit_retirement_value: 0,
                platform_facilitation_value: 0,
                governance_votes: 0,
                proposal_credits: 0,
            }),
        }),
{
    let who = checked_addr(&address)?;
    if 1 <= period && (period as usize) <= state.activity.len() {
        let l = &state.activity[(period - 1) as usize];
        match find_activity(l, &who) {
            Some(k) => {
                let e = &l[k];
                return Ok(ActivityScore {
                    address: e.address.clone(),
                    period: e.period,
                    credit_purchase_value: e.credit_purchase_value,
                    credit_retirement_value: e.credit_retirement_value,
                    platform_facilitation_value: e.platform_facilitation_value,
                    governance_votes: e.governance_votes,
                    proposal_credits: e.proposal_credits,
                });
            },
            None => {},
        }
    }
    Ok(ActivityScore {
        address: who,
        period,
        credit_purchase_value: 0,
        credit_retirement_value: 0,
        platform_facilitation_value: 0,
        governance_votes: 0,
        proposal_credits: 0,
    })
}

/// The distribution record of a period, if one ran.
pub fn query_distribution_record(state: &RewardsState, period: u32) -> (r: Option<DistributionRecord>)
    requires
        state.wf(),
    ensures
        r is Some <==> 1 <= period <= state.distributions.len(),
        r matches Some(rec) ==> rec == state.distributions@[period - 1] && rec.period == period,
{
    if period == 0 || (period as usize) > state.distributions.len() {
        return None;
    }
    Some(state.distributions[(period - 1) as usize])
}

/// What a participant earned from period `p`'s activity pool, recomputed
/// with the current weights; none unless it has activity there and the
/// period distributed a non-empty pool over a non-zero total score.
pub open spec fn period_reward(s: RewardsState, who: String, p: int) -> Option<int> {
    if 1 <= p <= s.distributions.len() && 1 <= p <= u32::MAX {
        let d = s.distributions[p - 1];
        match activity_of(s, p as u32, who) {
            Some(e) => if d.total_score != 0 && d.activity_pool != 0 {
                let l = s.activity[p - 1]@;
                Some(ratio(d.activity_pool as int, weighted(s.config, e, max_votes(l), max_credits(l)), d.total_score as int))
            } else {
                None
            },
            None => None,
        }
    } else {
        None
    }
}

/// `(total reward, periods rewarded)` over the `n` periods from `from` on.
pub open spec fn rewards_over(s: RewardsState, who: String, from: int, n: int) -> (int, int)
    decreases n,
{
    if n <= 0 {
        (0, 0)
    } else {
        let (total, count) = rewards_over(s, who, from, n - 1);
        match period_reward(s, who, from + n - 1) {
            Some(x) => (total + x, count + 1),
            None => (total, count),
        }
    }
}

/// The number of periods in `from..=to`.
pub open spec fn span(from: u32, to: u32) -> int {
    if from <= to { to - from + 1 } else { 0 }
}

/// Whether every partial sum of a reward query fits: each weighted score and
/// each reward in `u128`, the running total in `u128` and the count of
/// rewarded periods in `u32`.
pub open spec fn rewards_fit(s: RewardsState, who: String, from: u32, to: u32) -> bool {
    &&& forall|p: int| from <= p <= to && 1 <= p <= s.distributions.len() && #[trigger] activity_of(s, p as u32, who) is Some
        ==> weighted(s.config, activity_of(s, p as u32, who)->Some_0, max_votes(s.activity[p - 1]@),
            max_credits(s.activity[p - 1]@)) <= u128::MAX
    &&& forall|k: int| 0 <= k <= span(from, to) ==> {
        &&& (#[trigger] rewards_over(s, who, from as int, k)).0 <= u128::MAX
        &&& rewards_over(s, who, from as int, k).1 <= u32::MAX
    }
}

/// A participant's activity rewards over the periods `from..=to`, with
/// the current weights, and how many of those periods paid it.
pub fn query_participant_rewards(state: &RewardsState, address: CheckedAddr, period_from: u32, period_to: u32)
    -> (r: Result<(u128, u32), RewardsError>)
    requires
        state.wf(),
        address matches Ok(who) ==> rewards_fit(*state, who, period_from, period_to),
    ensures
        address is Err ==> r == Err::<(u128, u32), RewardsError>(RewardsError::InvalidAddress { address: address->Err_0 }),
        address matches Ok(who) ==> (r matches Ok((total, count)) && ({
            let (t, c) = rewards_over(*state, who, period_from as int, span(period_from, period_to));
            total == t && count == c
        })),
{
    let who = checked_addr(&address)?;
    let n: u64 = if period_from <= period_to { (period_to - period_from) as u64 + 1 } else { 0 };
    let mut total: u128 = 0;
    let mut count: u32 = 0;
    let mut k: u64 = 0;
    while k < n
        invariant
            state.wf(),
            n == span(period_from, period_to),
            k <= n,
            rewards_fit(*state, who, period_from, period_to),
            (total as int, count as int) == rewards_over(*state, who, period_from as int, k as int),
        decreases n - k,
    {
        let p: u64 = period_from as u64 + k;
        assert(rewards_over(*state, who, period_from as int, k as int + 1).0 <= u128::MAX);
        assert(rewards_over(*state, who, period_from as int, k as int + 1).1 <= u32::MAX);
        if p >= 1 && (p as usize) <= state.distributions.len() {
            let pi = (p - 1) as usize;
            let l = &state.activity[pi];
            match find_activity(l, &who) {
                Some(i) => {
                    let d = state.distributions[pi];
                    if d.total_score != 0 && d.activity_pool != 0 {
                        let (mv, mp) = period_maxima(l);
                        assert(activity_of(*state, p as u32, who) is Some);
                        let w = calculate_weighted_score(&state.config, &l[i], mv, mp);
                        assert(period_reward(*state, who, p as int)
                            == Some(ratio(d.activity_pool as int, w as int, d.total_score as int)));
                        let reward = multiply_ratio(d.activity_pool, w, d.total_score);
                        total = total + reward;
                        count = count + 1;
                    }
                },
                None => {},
            }
        }
        k += 1;
    }
    Ok((total, count))
}

// ── Laws ───────────────────────────────────────────────────────────────

/// The normalizers of a period are its maxima: the vote normalizer is at
/// least every participant's vote count and is one of them (zero for an
/// empty period), and likewise for proposal credits. So no participant's
/// normalized count exceeds the reference scale, and the participant with
/// the most votes (or credits) gets exactly the reference scale.
pub proof fn law_normalizers_are_period_maxima(l: Seq<ActivityScore>)
    ensures
        forall|i: int| 0 <= i < l.len() ==> (#[trigger] l[i]).governance_votes <= max_votes(l)
            && l[i].proposal_credits <= max_credits(l),
        l.len() == 0 ==> max_votes(l) == 0 && max_credits(l) == 0,
        l.len() > 0 ==> exists|i: int| 0 <= i < l.len() && (#[trigger] l[i]).governance_votes == max_votes(l),
        l.len() > 0 ==> exists|i: int| 0 <= i < l.len() && (#[trigger] l[i]).proposal_credits == max_credits(l),
        forall|i: int| 0 <= i < l.len() ==> normalized((#[trigger] l[i]).governance_votes as int, max_votes(l))
            <= REFERENCE_SCALE && normalized(l[i].proposal_credits as int, max_credits(l)) <= REFERENCE_SCALE,
    decreases l.len(),
{
    if l.len() > 0 {
        let d = l.drop_last();
        law_normalizers_are_period_maxima(d);
        assert forall|i: int| 0 <= i < l.len() implies (#[trigger] l[i]).governance_votes <= max_votes(l)
            && l[i].proposal_credits <= max_credits(l) by {
            if i < l.len() - 1 {
                assert(l[i] == d[i]);
            }
        }
        if l.last().governance_votes <= max_votes(d) && d.len() > 0 {
            let j = choose|j: int| 0 <= j < d.len() && (#[trigger] d[j]).governance_votes == max_votes(d);
            assert(l[j] == d[j]);
        } else {
            assert(l[l.len() - 1].governance_votes == max_votes(l));
        }
        if l.last().proposal_credits <= max_credits(d) && d.len() > 0 {
            let j = choose|j: int| 0 <= j < d.len() && (#[trigger] d[j]).proposal_credits == max_credits(d);
            assert(l[j] == d[j]);
        } else {
            assert(l[l.len() - 1].proposal_credits == max_credits(l));
        }
        assert forall|i: int| 0 <= i < l.len() implies normalized((#[trigger] l[i]).governance_votes as int, max_votes(l))
            <= REFERENCE_SCALE && normalized(l[i].proposal_credits as int, max_credits(l)) <= REFERENCE_SCALE by {
            lemma_normalized_le_scale(l[i].governance_votes as int, max_votes(l));
            lemma_normalized_le_scale(l[i].proposal_credits as int, max_credits(l));
        }
    }
}

/// A count no larger than its normalizer normalizes to at most the
/// reference scale.
proof fn lemma_normalized_le_scale(count: int, max: int)
    requires
        0 <= count <= max,
    ensures
        normalized(count, max) <= REFERENCE_SCALE,
{
    if max > 0 {
        assert(count * REFERENCE_SCALE == REFERENCE_SCALE * count) by (nonlinear_arith);
        lemma_ratio_le(REFERENCE_SCALE as int, count, max);
    }
}

/// An inflow is split without loss between the stability tier and the
/// activity pool, and the stability tier never takes more than its capped
/// share of the inflow.
pub proof fn law_inflow_split(s: RewardsState, inflow: u128)
    requires
        s.wf(),
        s.config.max_stability_share_bps <= 10_000,
    ensures
        0 <= stability_allocation(s, inflow) <= ratio(inflow as int, s.config.max_stability_share_bps as int, 10_000),
        stability_allocation(s, inflow) <= inflow,
        stability_allocation(s, inflow) + activity_pool(s, inflow) == inflow,
{
    lemma_ratio_le(inflow as int, s.config.max_stability_share_bps as int, 10_000);
    lemma_committed_total_nonneg(s.commitments@);
    let total = committed_total(s.commitments@);
    let c = s.config;
    if total != 0 {
        assert(ratio(total, c.stability_annual_return_bps * c.period_seconds, 10_000 * SECONDS_PER_YEAR) >= 0) by (nonlinear_arith)
            requires total >= 0, c.stability_annual_return_bps >= 0, c.period_seconds >= 0;
    }
}

/// The activity rewards of a period, one per participant, add up to at
/// most the activity pool.
pub proof fn law_rewards_within_pool(c: Config, l: Seq<ActivityScore>, pool: int)
    requires
        0 <= pool,
        seq_sum(period_weights(c, l)) > 0,
    ensures
        sum_ratios(pool, period_weights(c, l), seq_sum(period_weights(c, l))) <= pool,
{
    let ws = period_weights(c, l);
    assert forall|i: int| 0 <= i < ws.len() implies 0 <= #[trigger] ws[i] by {
        let e = l[i];
        let mv = max_votes(l);
        let mp = max_credits(l);
        assert(ws[i] == weighted(c, e, mv, mp));
        assert(0 <= normalized(e.governance_votes as int, mv)) by (nonlinear_arith)
            requires mv >= 0, e.governance_votes >= 0;
        assert(0 <= normalized(e.proposal_credits as int, mp)) by (nonlinear_arith)
            requires mp >= 0, e.proposal_credits >= 0;
        assert(0 <= weighted(c, e, mv, mp)) by (nonlinear_arith)
            requires
                0 <= normalized(e.governance_votes as int, mv),
                0 <= normalized(e.proposal_credits as int, mp),
                e.credit_purchase_value >= 0,
                e.credit_retirement_value >= 0,
                e.platform_facilitation_value >= 0,
        ;
    }
    lemma_sum_ratios_le(pool, ws, seq_sum(ws));
    let t = seq_sum(ws);
    assert(ratio(pool, t, t) == pool) by (nonlinear_arith)
        requires t > 0;
}

/// The principal of each locked commitment, zero for the others.
pub open spec fn locked_amounts(cs: Seq<StabilityCommitment>) -> Seq<int> {
    cs.map_values(|c: StabilityCommitment| if c.status == CommitmentStatus::Committed { c.amount as int } else { 0 })
}

proof fn lemma_locked_sum(cs: Seq<StabilityCommitment>)
    ensures
        seq_sum(locked_amounts(cs)) == committed_total(cs),
    decreases cs.len(),
{
    if cs.len() > 0 {
        lemma_locked_sum(cs.drop_last());
        assert(locked_amounts(cs).drop_last() =~= locked_amounts(cs.drop_last()));
    }
}

/// The stability accruals of a distribution add up to at most the
/// stability allocation.
pub proof fn law_accruals_within_allocation(cs: Seq<StabilityCommitment>, allocation: int)
    requires
        0 <= allocation,
        committed_total(cs) > 0,
    ensures
        sum_ratios(allocation, locked_amounts(cs), committed_total(cs)) <= allocation,
{
    let ws = locked_amounts(cs);
    lemma_locked_sum(cs);
    assert forall|i: int| 0 <= i < ws.len() implies 0 <= #[trigger] ws[i] by {}
    lemma_sum_ratios_le(allocation, ws, committed_total(cs));
    let t = committed_total(cs);
    assert(ratio(allocation, t, t) == allocation) by (nonlinear_arith)
        requires t > 0;
}

// ── Names ──────────────────────────────────────────────────────────────

/// The name of a mechanism status.
pub open spec fn mechanism_status_label(v: MechanismStatus) -> Seq<char> {
    match v {
        MechanismStatus::Inactive => "Inactive"@,
        MechanismStatus::Tracking => "Tracking"@,
        MechanismStatus::Distributing => "Distributing"@,
    }
}

impl MechanismStatus {
    /// The variant's name, as it appears in messages and attributes.
    pub fn label(&self) -> (r: &'static str)
        ensures
            r@ == mechanism_status_label(*self),
    {
        match self {
            MechanismStatus::Inactive => "Inactive",
            MechanismStatus::Tracking => "Tracking",
            MechanismStatus::Distributing => "Distributing",
        }
    }
}

/// The name of a commitment status.
pub open spec fn commitment_status_label(v: CommitmentStatus) -> Seq<char> {
    match v {
        CommitmentStatus::Committed => "Committed"@,
        CommitmentStatus::Matured => "Matured"@,
        CommitmentStatus::EarlyExit => "EarlyExit"@,
    }
}

impl CommitmentStatus {
    /// The variant's name, as it appears in messages and attributes.
    pub fn label(&self) -> (r: &'static str)
        ensures
            r@ == commitment_status_label(*self),
    {
        match self {
            CommitmentStatus::Committed => "Committed",
            CommitmentStatus::Matured => "Matured",
            CommitmentStatus::EarlyExit => "EarlyExit",
        }
    }
}

} // verus!
