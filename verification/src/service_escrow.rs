//! Milestone-based service escrow between a client and a provider, with a
//! provider bond, platform and cancellation fees, and arbiter resolution of
//! disputed milestones.

use vstd::prelude::*;
use crate::money::{
    CheckedAddr, Coin, Transfer, ratio, send, send_nonzero, send_if, tv, TransferView,
    multiply_ratio, lemma_ratio_le, lemma_ratio_monotonic, amount_sent, amount_sent_to,
    lemma_amount_sent_concat, lemma_amount_send_if,
};

verus! {

pub const MIN_BOND_RATIO: u64 = 500;
pub const MAX_BOND_RATIO: u64 = 2500;
pub const MIN_PLATFORM_FEE: u64 = 0;
pub const MAX_PLATFORM_FEE: u64 = 500;
pub const MIN_CANCEL_FEE: u64 = 0;
pub const MAX_CANCEL_FEE: u64 = 1000;
pub const MIN_ARBITER_FEE: u64 = 100;
pub const MAX_ARBITER_FEE: u64 = 1500;
pub const DEFAULT_QUERY_LIMIT: u32 = 10;
pub const MAX_QUERY_LIMIT: u32 = 30;

#[derive(Clone)]
pub struct Config {
    pub admin: String,
    pub arbiter_dao: String,
    pub community_pool: String,
    pub provider_bond_ratio_bps: u64,
    pub platform_fee_rate_bps: u64,
    pub cancellation_fee_rate_bps: u64,
    pub arbiter_fee_rate_bps: u64,
    pub review_period_seconds: u64,
    pub max_milestones: u32,
    pub max_revisions: u32,
    pub denom: String,
}

#[derive(Clone, Copy, Debug, PartialEq, Eq, Structural)]
pub enum AgreementStatus {
    Proposed,
    Funded,
    InProgress,
    MilestoneReview,
    Completed,
    Disputed,
    Cancelled,
}

#[derive(Clone, Copy, Debug, PartialEq, Eq, Structural)]
pub enum MilestoneStatus {
    Pending,
    InProgress,
    Submitted,
    Approved,
    Disputed,
    Revised,
}

#[derive(Clone)]
pub struct Milestone {
    pub index: u32,
    pub description: String,
    pub payment: u128,
    pub status: MilestoneStatus,
    pub deliverable_iri: Option<String>,
    pub submitted_at: Option<u64>,
    pub approved_at: Option<u64>,
    pub revision_count: u32,
}

#[derive(Clone)]
pub struct ServiceAgreement {
    pub id: u64,
    pub client: String,
    pub provider: String,
    pub service_type: String,
    pub description: String,
    pub escrow_amount: u128,
    pub provider_bond: u128,
    pub milestones: Vec<Milestone>,
    pub current_milestone: u32,
    pub status: AgreementStatus,
    pub created_at: u64,
    pub funded_at: Option<u64>,
    pub started_at: Option<u64>,
    pub completed_at: Option<u64>,
    pub provider_accepted: bool,
    pub client_funded: bool,
    pub total_released: u128,
    pub total_fees: u128,
}

#[derive(Clone, Copy, Debug, PartialEq, Eq, Structural)]
pub enum DisputeResolution {
    ClientWins,
    ProviderWins,
    Split { client_percent: u32 },
}

#[derive(Clone)]
pub struct Dispute {
    pub agreement_id: u64,
    pub milestone_index: u32,
    pub reason: String,
    pub raised_by: String,
    pub raised_at: u64,
    pub resolved_at: Option<u64>,
    pub resolution: Option<DisputeResolution>,
}

#[derive(Clone)]
pub struct MilestoneInput {
    pub description: String,
    pub payment_amount: u128,
}

pub struct InstantiateMsg {
    pub arbiter_dao: CheckedAddr,
    pub community_pool: CheckedAddr,
    pub provider_bond_ratio_bps: Option<u64>,
    pub platform_fee_rate_bps: Option<u64>,
    pub cancellation_fee_rate_bps: Option<u64>,
    pub arbiter_fee_rate_bps: Option<u64>,
    pub review_period_seconds: Option<u64>,
    pub max_milestones: Option<u32>,
    pub max_revisions: Option<u32>,
    pub denom: String,
}

/// Everything the contract stores: its configuration, the agreements by id
/// (agreement `i + 1` at index `i`) and the disputes, at most one per
/// agreement.
#[derive(Clone)]
pub struct EscrowState {
    pub config: Config,
    pub agreements: Vec<ServiceAgreement>,
    pub disputes: Vec<Dispute>,
}

/// Which status a refused action needed.
#[derive(Clone, Copy, Debug, PartialEq, Eq, Structural)]
pub enum Expected {
    Proposed,
    Funded,
    InProgress,
    MilestoneReview,
    Disputed,
    ProposedOrFunded,
}

/// The action that the sender was not allowed to take.
#[derive(Clone, Copy, Debug, PartialEq, Eq, Structural)]
pub enum Action {
    Accept,
    Fund,
    Start,
    SubmitMilestone,
    ApproveMilestone,
    ReviseMilestone,
    RaiseDispute,
    ResolveDispute,
    CancelProposed,
    CancelFunded,
    UpdateConfig,
}

#[derive(Debug, PartialEq, Eq)]
pub enum EscrowError {
    Unauthorized { action: Action },
    AgreementNotFound { id: u64 },
    InvalidStatus { expected: Expected, actual: AgreementStatus },
    AlreadyAccepted,
    AlreadyFunded,
    InvalidMilestoneCount { max: u32, got: u32 },
    InvalidMilestoneIndex { expected: u32, got: u32 },
    InvalidMilestoneStatus { index: u32, expected_status: MilestoneStatus },
    /// The milestones ask for no payment at all.
    ZeroEscrow,
    InsufficientFunds { required: u128, sent: u128 },
    /// Not exactly one coin was attached.
    CoinCount { denom: String, count: usize },
    WrongDenom { expected: String, got: String },
    MaxRevisionsExceeded { max: u32, index: u32 },
    DisputeAlreadyExists,
    NoActiveDispute,
    InvalidSplitPercent { got: u32 },
    SelfAgreement,
    BondRatioOutOfRange { value: u64, min: u64, max: u64 },
    FeeRateOutOfRange { value: u64, min: u64, max: u64 },
    InvalidAddress { address: String },
}

// ── Specification helpers ──────────────────────────────────────────────

/// `value * rate_bps / 10_000`, floored.
pub open spec fn bps_of(value: int, rate_bps: int) -> int {
    ratio(value, rate_bps, 10_000)
}

pub open spec fn sum_payments(ms: Seq<Milestone>) -> int
    decreases ms.len(),
{
    if ms.len() == 0 {
        0
    } else {
        sum_payments(ms.drop_last()) + ms.last().payment
    }
}

pub open spec fn sum_inputs(ms: Seq<MilestoneInput>) -> int
    decreases ms.len(),
{
    if ms.len() == 0 {
        0
    } else {
        sum_inputs(ms.drop_last()) + ms.last().payment_amount
    }
}

/// Whether a milestone's payment is still held in escrow.
pub open spec fn is_outstanding(m: Milestone) -> bool {
    m.status != MilestoneStatus::Approved && m.status != MilestoneStatus::Disputed
}

/// Sum of the payments of the milestones that are neither approved nor disputed.
pub open spec fn sum_outstanding(ms: Seq<Milestone>) -> int
    decreases ms.len(),
{
    if ms.len() == 0 {
        0
    } else {
        sum_outstanding(ms.drop_last()) + if is_outstanding(ms.last()) {
            ms.last().payment as int
        } else {
            0
        }
    }
}

pub proof fn lemma_outstanding_bounded(ms: Seq<Milestone>)
    ensures
        0 <= sum_outstanding(ms) <= sum_payments(ms),
    decreases ms.len(),
{
    if ms.len() > 0 {
        lemma_outstanding_bounded(ms.drop_last());
    }
}

pub proof fn lemma_payment_bounded(ms: Seq<Milestone>, i: int)
    requires
        0 <= i < ms.len(),
    ensures
        ms[i].payment <= sum_payments(ms),
        0 <= sum_payments(ms),
    decreases ms.len(),
{
    lemma_sum_payments_nonneg(ms.drop_last());
    if i < ms.len() - 1 {
        lemma_payment_bounded(ms.drop_last(), i);
        assert(ms.drop_last()[i] == ms[i]);
    }
}

pub proof fn lemma_sum_payments_nonneg(ms: Seq<Milestone>)
    ensures
        0 <= sum_payments(ms),
    decreases ms.len(),
{
    if ms.len() > 0 {
        lemma_sum_payments_nonneg(ms.drop_last());
    }
}

pub proof fn lemma_sum_payments_same(a: Seq<Milestone>, b: Seq<Milestone>)
    requires
        a.len() == b.len(),
        forall|j: int| 0 <= j < a.len() ==> #[trigger] a[j].payment == b[j].payment,
    ensures
        sum_payments(a) == sum_payments(b),
    decreases a.len(),
{
    if a.len() > 0 {
        lemma_sum_payments_same(a.drop_last(), b.drop_last());
    }
}

pub open spec fn valid_bond_ratio(v: u64) -> bool {
    MIN_BOND_RATIO <= v <= MAX_BOND_RATIO
}

impl Config {
    pub open spec fn wf(self) -> bool {
        &&& valid_bond_ratio(self.provider_bond_ratio_bps)
        &&& self.platform_fee_rate_bps <= MAX_PLATFORM_FEE
        &&& self.cancellation_fee_rate_bps <= MAX_CANCEL_FEE
        &&& MIN_ARBITER_FEE <= self.arbiter_fee_rate_bps <= MAX_ARBITER_FEE
    }
}

impl ServiceAgreement {
    pub open spec fn wf(self) -> bool {
        &&& 1 <= self.milestones.len() <= u32::MAX
        &&& self.current_milestone < self.milestones.len()
        &&& self.escrow_amount == sum_payments(self.milestones@)
    }

    /// The fields fixed at proposal time are those of `a`.
    pub open spec fn same_terms(self, a: ServiceAgreement) -> bool {
        &&& self.id == a.id
        &&& self.client == a.client
        &&& self.provider == a.provider
        &&& self.service_type == a.service_type
        &&& self.description == a.description
        &&& self.escrow_amount == a.escrow_amount
        &&& self.created_at == a.created_at
    }

    /// The progress fields of `self` are the given ones, its milestones
    /// those of `a`, and its terms those of `a`.
    pub open spec fn progressed(
        self,
        a: ServiceAgreement,
        status: AgreementStatus,
        current: u32,
        funded_at: Option<u64>,
        started_at: Option<u64>,
        completed_at: Option<u64>,
        accepted: bool,
        funded: bool,
        released: int,
        fees: int,
        bond: int,
    ) -> bool {
        &&& self.same_terms(a)
        &&& self.status == status
        &&& self.current_milestone == current
        &&& self.funded_at == funded_at
        &&& self.started_at == started_at
        &&& self.completed_at == completed_at
        &&& self.provider_accepted == accepted
        &&& self.client_funded == funded
        &&& self.total_released == released
        &&& self.total_fees == fees
        &&& self.provider_bond == bond
    }

    /// Only the status and the milestone list differ from `a`.
    pub open spec fn moved_to(self, a: ServiceAgreement, status: AgreementStatus) -> bool {
        self.progressed(
            a,
            status,
            a.current_milestone,
            a.funded_at,
            a.started_at,
            a.completed_at,
            a.provider_accepted,
            a.client_funded,
            a.total_released as int,
            a.total_fees as int,
            a.provider_bond as int,
        )
    }
}

impl EscrowState {
    pub open spec fn wf(self) -> bool {
        &&& self.config.wf()
        &&& self.agreements.len() < u64::MAX
        &&& forall|i: int|
            0 <= i < self.agreements.len() ==> {
                &&& #[trigger] self.agreements[i].id == i + 1
                &&& self.agreements[i].wf()
            }
        &&& forall|k: int|
            0 <= k < self.disputes.len() ==> {
                let d = #[trigger] self.disputes[k];
                &&& 1 <= d.agreement_id <= self.agreements.len()
                &&& d.milestone_index < self.agreements[d.agreement_id - 1].milestones.len()
            }
        &&& forall|k1: int, k2: int|
            0 <= k1 < self.disputes.len() && 0 <= k2 < self.disputes.len() && k1 != k2
                ==> #[trigger] self.disputes[k1].agreement_id
                != #[trigger] self.disputes[k2].agreement_id
    }

    pub open spec fn has_agreement(self, id: u64) -> bool {
        1 <= id <= self.agreements.len()
    }

    pub open spec fn agreement(self, id: u64) -> ServiceAgreement {
        self.agreements[id - 1]
    }

    pub open spec fn has_dispute(self, id: u64) -> bool {
        exists|k: int| 0 <= k < self.disputes.len() && #[trigger] self.disputes[k].agreement_id == id
    }

    /// Only agreement `id` changed, to `b`.
    pub open spec fn only_agreement_changed(self, old: EscrowState, id: u64) -> bool {
        &&& self.config == old.config
        &&& self.disputes == old.disputes
        &&& self.agreements@ == old.agreements@.update(id - 1, self.agreements@[id - 1])
    }
}

/// The coin of `must_pay`: exactly one coin, of the configured denomination.
pub open spec fn must_pay_spec(funds: Seq<Coin>, denom: String) -> Result<u128, EscrowError> {
    if funds.len() != 1 {
        Err(EscrowError::CoinCount { denom: denom, count: funds.len() as usize })
    } else if funds[0].denom@ != denom@ {
        Err(EscrowError::WrongDenom { expected: denom, got: funds[0].denom })
    } else {
        Ok(funds[0].amount)
    }
}

// ── Validation ─────────────────────────────────────────────────────────

/// Accepts a provider bond ratio within [5%, 25%].
pub fn validate_bond_ratio(value: u64) -> (r: Result<(), EscrowError>)
    ensures
        r is Ok <==> valid_bond_ratio(value),
        r is Err ==> r == Err::<(), EscrowError>(
            EscrowError::BondRatioOutOfRange { value, min: MIN_BOND_RATIO, max: MAX_BOND_RATIO },
        ),
{
    if value < MIN_BOND_RATIO || value > MAX_BOND_RATIO {
        return Err(
            EscrowError::BondRatioOutOfRange { value, min: MIN_BOND_RATIO, max: MAX_BOND_RATIO },
        );
    }
    Ok(())
}

/// Accepts a fee rate within [min, max].
pub fn validate_fee_rate(value: u64, min: u64, max: u64, _name: &str) -> (r: Result<(), EscrowError>)
    ensures
        r is Ok <==> min <= value <= max,
        r is Err ==> r == Err::<(), EscrowError>(EscrowError::FeeRateOutOfRange { value, min, max }),
{
    if value < min || value > max {
        return Err(EscrowError::FeeRateOutOfRange { value, min, max });
    }
    Ok(())
}

/// Exactly one coin, of `denom`: its amount.
pub fn must_pay(funds: &Vec<Coin>, denom: &String) -> (r: Result<u128, EscrowError>)
    ensures
        r == must_pay_spec(funds@, *denom),
{
    if funds.len() != 1 {
        return Err(EscrowError::CoinCount { denom: denom.clone(), count: funds.len() });
    }
    if funds[0].denom != *denom {
        return Err(EscrowError::WrongDenom { expected: denom.clone(), got: funds[0].denom.clone() });
    }
    Ok(funds[0].amount)
}

fn checked_addr(a: &CheckedAddr) -> (r: Result<String, EscrowError>)
    ensures
        match *a {
            Ok(s) => r == Ok::<String, EscrowError>(s),
            Err(s) => r == Err::<String, EscrowError>(EscrowError::InvalidAddress { address: s }),
        },
{
    match a {
        Ok(s) => Ok(s.clone()),
        Err(s) => Err(EscrowError::InvalidAddress { address: s.clone() }),
    }
}

// ── Instantiate ────────────────────────────────────────────────────────

pub open spec fn opt_or<T>(o: Option<T>, d: T) -> T {
    match o {
        Some(v) => v,
        None => d,
    }
}

/// The configuration that instantiation stores, when every check passes.
pub open spec fn instantiate_check(sender: String, msg: InstantiateMsg) -> Result<(), EscrowError> {
    let bond = opt_or(msg.provider_bond_ratio_bps, 1000u64);
    let platform = opt_or(msg.platform_fee_rate_bps, 100u64);
    let cancel = opt_or(msg.cancellation_fee_rate_bps, 200u64);
    let arbiter = opt_or(msg.arbiter_fee_rate_bps, 500u64);
    if !valid_bond_ratio(bond) {
        Err(EscrowError::BondRatioOutOfRange { value: bond, min: MIN_BOND_RATIO, max: MAX_BOND_RATIO })
    } else if platform > MAX_PLATFORM_FEE {
        Err(EscrowError::FeeRateOutOfRange { value: platform, min: MIN_PLATFORM_FEE, max: MAX_PLATFORM_FEE })
    } else if cancel > MAX_CANCEL_FEE {
        Err(EscrowError::FeeRateOutOfRange { value: cancel, min: MIN_CANCEL_FEE, max: MAX_CANCEL_FEE })
    } else if !(MIN_ARBITER_FEE <= arbiter <= MAX_ARBITER_FEE) {
        Err(EscrowError::FeeRateOutOfRange { value: arbiter, min: MIN_ARBITER_FEE, max: MAX_ARBITER_FEE })
    } else if msg.arbiter_dao is Err {
        Err(EscrowError::InvalidAddress { address: msg.arbiter_dao->Err_0 })
    } else if msg.community_pool is Err {
        Err(EscrowError::InvalidAddress { address: msg.community_pool->Err_0 })
    } else {
        Ok(())
    }
}

/// Creates the contract state: validated rates (defaults 10% bond, 1%
/// platform fee, 2% cancellation fee, 5% arbiter fee), no agreements.
pub fn instantiate(sender: &String, msg: InstantiateMsg) -> (r: Result<EscrowState, EscrowError>)
    ensures
        r is Ok <==> instantiate_check(*sender, msg) is Ok,
        r is Err ==> r->Err_0 == instantiate_check(*sender, msg)->Err_0,
        r matches Ok(s) ==> {
            &&& s.wf()
            &&& s.agreements.len() == 0
            &&& s.disputes.len() == 0
            &&& s.config.admin == *sender
            &&& s.config.arbiter_dao == msg.arbiter_dao->Ok_0
            &&& s.config.community_pool == msg.community_pool->Ok_0
            &&& s.config.provider_bond_ratio_bps == opt_or(msg.provider_bond_ratio_bps, 1000u64)
            &&& s.config.platform_fee_rate_bps == opt_or(msg.platform_fee_rate_bps, 100u64)
            &&& s.config.cancellation_fee_rate_bps == opt_or(msg.cancellation_fee_rate_bps, 200u64)
            &&& s.config.arbiter_fee_rate_bps == opt_or(msg.arbiter_fee_rate_bps, 500u64)
            &&& s.config.review_period_seconds == opt_or(msg.review_period_seconds, 1_209_600u64)
            &&& s.config.max_milestones == opt_or(msg.max_milestones, 20u32)
            &&& s.config.max_revisions == opt_or(msg.max_revisions, 3u32)
            &&& s.config.denom == msg.denom
        },
{
    let bond_ratio = match msg.provider_bond_ratio_bps { Some(v) => v, None => 1000 };
    let platform_fee = match msg.platform_fee_rate_bps { Some(v) => v, None => 100 };
    let cancel_fee = match msg.cancellation_fee_rate_bps { Some(v) => v, None => 200 };
    let arbiter_fee = match msg.arbiter_fee_rate_bps { Some(v) => v, None => 500 };

    validate_bond_ratio(bond_ratio)?;
    validate_fee_rate(platform_fee, MIN_PLATFORM_FEE, MAX_PLATFORM_FEE, "platform")?;
    validate_fee_rate(cancel_fee, MIN_CANCEL_FEE, MAX_CANCEL_FEE, "cancellation")?;
    validate_fee_rate(arbiter_fee, MIN_ARBITER_FEE, MAX_ARBITER_FEE, "arbiter")?;
    let arbiter_dao = checked_addr(&msg.arbiter_dao)?;
    let community_pool = checked_addr(&msg.community_pool)?;

    let config = Config {
        admin: sender.clone(),
        arbiter_dao,
        community_pool,
        provider_bond_ratio_bps: bond_ratio,
        platform_fee_rate_bps: platform_fee,
        cancellation_fee_rate_bps: cancel_fee,
        arbiter_fee_rate_bps: arbiter_fee,
        review_period_seconds: match msg.review_period_seconds { Some(v) => v, None => 1_209_600 },
        max_milestones: match msg.max_milestones { Some(v) => v, None => 20 },
        max_revisions: match msg.max_revisions { Some(v) => v, None => 3 },
        denom: msg.denom,
    };
    Ok(EscrowState { config, agreements: Vec::new(), disputes: Vec::new() })
}



/// Replacing one agreement by a well-formed one with the same id and as many
/// milestones keeps the state well-formed.
pub proof fn lemma_replace_keeps_wf(old: EscrowState, new: EscrowState, id: u64)
    requires
        old.wf(),
        old.has_agreement(id),
        new.config == old.config,
        new.disputes == old.disputes,
        new.agreements@ == old.agreements@.update(id - 1, new.agreements@[id - 1]),
        new.agreements@[id - 1].id == id,
        new.agreements@[id - 1].wf(),
        new.agreements@[id - 1].milestones.len() == old.agreements@[id - 1].milestones.len(),
    ensures
        new.wf(),
{
    assert forall|k: int| 0 <= k < new.disputes.len() implies
        (#[trigger] new.disputes[k]).milestone_index < new.agreements[new.disputes[k].agreement_id - 1].milestones.len() by {
        assert(old.disputes[k] == new.disputes[k]);
    }
}

/// Closes a transition that replaced agreement `id` in place.
proof fn close_replace(old: EscrowState, new: EscrowState, id: u64)
    requires
        old.wf(),
        old.has_agreement(id),
        new.config == old.config,
        new.disputes == old.disputes,
        new.agreements@.len() == old.agreements@.len(),
        forall|j: int| 0 <= j < old.agreements.len() && j != id - 1 ==> new.agreements@[j] == old.agreements@[j],
        new.agreements@[id - 1].same_terms(old.agreements@[id - 1]),
        new.agreements@[id - 1].milestones.len() == old.agreements@[id - 1].milestones.len(),
        new.agreements@[id - 1].current_milestone < new.agreements@[id - 1].milestones.len(),
        forall|j: int| 0 <= j < new.agreements@[id - 1].milestones.len() ==>
            (#[trigger] new.agreements@[id - 1].milestones@[j]).payment == old.agreements@[id - 1].milestones@[j].payment,
    ensures
        new.wf(),
        new.only_agreement_changed(old, id),
{
    let a = old.agreements@[id - 1];
    let b = new.agreements@[id - 1];
    lemma_sum_payments_same(a.milestones@, b.milestones@);
    assert(new.agreements@ =~= old.agreements@.update(id - 1, b));
    lemma_replace_keeps_wf(old, new, id);
}

// ── Propose, accept, fund, start ───────────────────────────────────────

pub proof fn lemma_sum_inputs_prefix(ms: Seq<MilestoneInput>, i: int)
    requires
        0 <= i <= ms.len(),
    ensures
        0 <= sum_inputs(ms.take(i)) <= sum_inputs(ms),
    decreases ms.len(),
{
    if ms.len() > 0 {
        if i == ms.len() {
            assert(ms.take(i) =~= ms);
            lemma_sum_inputs_prefix(ms.drop_last(), i - 1);
            assert(ms.drop_last().take(i - 1) =~= ms.drop_last());
        } else {
            lemma_sum_inputs_prefix(ms.drop_last(), i);
            assert(ms.drop_last().take(i) =~= ms.take(i));
        }
    } else {
        assert(ms.take(i) =~= ms);
    }
}

pub open spec fn propose_check(
    s: EscrowState,
    sender: String,
    provider: CheckedAddr,
    milestones: Seq<MilestoneInput>,
) -> Result<(), EscrowError> {
    if provider is Err {
        Err(EscrowError::InvalidAddress { address: provider->Err_0 })
    } else if sender@ == provider->Ok_0@ {
        Err(EscrowError::SelfAgreement)
    } else if milestones.len() == 0 || milestones.len() > s.config.max_milestones {
        Err(EscrowError::InvalidMilestoneCount { max: s.config.max_milestones, got: milestones.len() as u32 })
    } else if sum_inputs(milestones) == 0 {
        Err(EscrowError::ZeroEscrow)
    } else {
        Ok(())
    }
}

/// The milestone a proposal creates from its `j`-th input.
pub open spec fn fresh_milestone(input: MilestoneInput, j: int) -> Milestone {
    Milestone {
        index: j as u32,
        description: input.description,
        payment: input.payment_amount,
        status: MilestoneStatus::Pending,
        deliverable_iri: None,
        submitted_at: None,
        approved_at: None,
        revision_count: 0,
    }
}

/// The milestone list of a new agreement.
pub open spec fn fresh_milestones(ms: Seq<Milestone>, inputs: Seq<MilestoneInput>) -> bool {
    &&& ms.len() == inputs.len()
    &&& forall|j: int| 0 <= j < ms.len() ==> #[trigger] ms[j] == fresh_milestone(inputs[j], j)
}

/// The client proposes an agreement with a provider; the escrow is the sum
/// of the milestone payments and the provider bond a share of it. Returns
/// the new id, the escrow amount and the provider bond.
pub fn execute_propose(
    state: &mut EscrowState,
    sender: &String,
    now: u64,
    provider: CheckedAddr,
    service_type: String,
    description: String,
    milestones: Vec<MilestoneInput>,
) -> (r: Result<(u64, u128, u128), EscrowError>)
    requires
        old(state).wf(),
        old(state).agreements.len() + 1 < u64::MAX,
        milestones.len() <= u32::MAX,
        propose_check(*old(state), *sender, provider, milestones@) is Ok
            || sum_inputs(milestones@) == 0 ==> sum_inputs(milestones@) <= u128::MAX,
    ensures
        r is Ok <==> propose_check(*old(state), *sender, provider, milestones@) is Ok,
        r is Err ==> r->Err_0 == propose_check(*old(state), *sender, provider, milestones@)->Err_0
            && *final(state) == *old(state),
        r matches Ok((id, escrow, bond)) ==> {
            let n = old(state).agreements.len() as int;
            let a = final(state).agreements@[n];
            &&& final(state).wf()
            &&& final(state).config == old(state).config
            &&& final(state).disputes == old(state).disputes
            &&& final(state).agreements@.len() == n + 1
            &&& final(state).agreements@.take(n) == old(state).agreements@
            &&& id == n + 1
            &&& escrow == sum_inputs(milestones@)
            &&& bond == bps_of(escrow as int, old(state).config.provider_bond_ratio_bps as int)
            &&& a.id == id
            &&& a.client == *sender
            &&& a.provider == provider->Ok_0
            &&& a.service_type == service_type
            &&& a.description == description
            &&& a.escrow_amount == escrow
            &&& a.provider_bond == bond
            &&& fresh_milestones(a.milestones@, milestones@)
            &&& a.current_milestone == 0
            &&& a.status == AgreementStatus::Proposed
            &&& a.created_at == now
            &&& a.funded_at is None
            &&& a.started_at is None
            &&& a.completed_at is None
            &&& !a.provider_accepted
            &&& !a.client_funded
            &&& a.total_released == 0
            &&& a.total_fees == 0
        },
{
    let provider_addr = checked_addr(&provider)?;
    if *sender == provider_addr {
        return Err(EscrowError::SelfAgreement);
    }
    let ms_count = milestones.len() as u32;
    if ms_count == 0 || ms_count > state.config.max_milestones {
        return Err(EscrowError::InvalidMilestoneCount { max: state.config.max_milestones, got: ms_count });
    }
    proof {
        lemma_sum_inputs_prefix(milestones@, milestones.len() as int);
        assert(milestones@.take(milestones.len() as int) =~= milestones@);
    }
    let mut total_escrow: u128 = 0;
    let mut ms: Vec<Milestone> = Vec::new();
    let mut i: usize = 0;
    while i < milestones.len()
        invariant
            i <= milestones.len() <= u32::MAX,
            sum_inputs(milestones@) <= u128::MAX,
            total_escrow == sum_inputs(milestones@.take(i as int)),
            ms@.len() == i,
            sum_payments(ms@) == total_escrow,
            forall|j: int| 0 <= j < i ==> #[trigger] ms@[j] == fresh_milestone(milestones@[j], j),
        decreases milestones.len() - i,
    {
        proof {
            lemma_sum_inputs_prefix(milestones@, i as int + 1);
            assert(milestones@.take(i as int + 1).drop_last() =~= milestones@.take(i as int));
        }
        let m = &milestones[i];
        total_escrow = total_escrow + m.payment_amount;
        let ghost old_ms = ms@;
        ms.push(Milestone {
            index: i as u32,
            description: m.description.clone(),
            payment: m.payment_amount,
            status: MilestoneStatus::Pending,
            deliverable_iri: None,
            submitted_at: None,
            approved_at: None,
            revision_count: 0,
        });
        assert(ms@.drop_last() =~= old_ms);
        assert forall|j: int| 0 <= j < i + 1 implies #[trigger] ms@[j] == fresh_milestone(milestones@[j], j) by {
            if j < i {
                assert(ms@[j] == old_ms[j]);
            }
        }
        i += 1;
    }
    assert(milestones@.take(i as int) =~= milestones@);
    if total_escrow == 0 {
        return Err(EscrowError::ZeroEscrow);
    }
    proof {
        lemma_ratio_le(total_escrow as int, state.config.provider_bond_ratio_bps as int, 10_000);
    }
    let provider_bond = multiply_ratio(total_escrow, state.config.provider_bond_ratio_bps as u128, 10_000);
    let id = state.agreements.len() as u64 + 1;
    let agreement = ServiceAgreement {
        id,
        client: sender.clone(),
        provider: provider_addr,
        service_type,
        description,
        escrow_amount: total_escrow,
        provider_bond,
        milestones: ms,
        current_milestone: 0,
        status: AgreementStatus::Proposed,
        created_at: now,
        funded_at: None,
        started_at: None,
        completed_at: None,
        provider_accepted: false,
        client_funded: false,
        total_released: 0,
        total_fees: 0,
    };
    let ghost old_agreements = state.agreements@;
    state.agreements.push(agreement);
    assert(state.agreements@.take(old_agreements.len() as int) =~= old_agreements);
    assert(state.agreements@[old_agreements.len() as int].wf());
    assert forall|k: int| 0 <= k < state.disputes.len() implies
        (#[trigger] state.disputes[k]).milestone_index < state.agreements[state.disputes[k].agreement_id - 1].milestones.len() by {
        assert(state.agreements@[state.disputes[k].agreement_id - 1] == old_agreements[state.disputes[k].agreement_id - 1]);
    }
    Ok((id, total_escrow, provider_bond))
}

/// The index of agreement `id`, or the not-found error.
pub fn load_agreement(state: &EscrowState, id: u64) -> (r: Result<usize, EscrowError>)
    ensures
        r is Ok <==> state.has_agreement(id),
        r matches Ok(i) ==> i == id - 1,
        r is Err ==> r == Err::<usize, EscrowError>(EscrowError::AgreementNotFound { id }),
{
    if id == 0 || id > state.agreements.len() as u64 {
        return Err(EscrowError::AgreementNotFound { id });
    }
    Ok((id - 1) as usize)
}

pub open spec fn accept_check(s: EscrowState, sender: String, funds: Seq<Coin>, id: u64) -> Result<u128, EscrowError> {
    if !s.has_agreement(id) {
        Err(EscrowError::AgreementNotFound { id })
    } else {
        let a = s.agreement(id);
        if sender@ != a.provider@ {
            Err(EscrowError::Unauthorized { action: Action::Accept })
        } else if a.status != AgreementStatus::Proposed {
            Err(EscrowError::InvalidStatus { expected: Expected::Proposed, actual: a.status })
        } else if a.provider_accepted {
            Err(EscrowError::AlreadyAccepted)
        } else {
            match must_pay_spec(funds, s.config.denom) {
                Err(e) => Err(e),
                Ok(paid) => if paid < a.provider_bond {
                    Err(EscrowError::InsufficientFunds { required: a.provider_bond, sent: paid })
                } else {
                    Ok(paid)
                },
            }
        }
    }
}

/// The provider accepts and posts its bond; once the client has funded too
/// the agreement is funded. Returns the bond posted.
pub fn execute_accept(state: &mut EscrowState, sender: &String, now: u64, funds: &Vec<Coin>, agreement_id: u64)
    -> (r: Result<u128, EscrowError>)
    requires
        old(state).wf(),
    ensures
        r == accept_check(*old(state), *sender, funds@, agreement_id),
        r is Err ==> *final(state) == *old(state),
        r is Ok ==> {
            let a = old(state).agreement(agreement_id);
            let b = final(state).agreement(agreement_id);
            &&& final(state).wf()
            &&& final(state).only_agreement_changed(*old(state), agreement_id)
            &&& b.milestones == a.milestones
            &&& b.progressed(
                a,
                if a.client_funded { AgreementStatus::Funded } else { a.status },
                a.current_milestone,
                if a.client_funded { Some(now) } else { a.funded_at },
                a.started_at,
                a.completed_at,
                true,
                a.client_funded,
                a.total_released as int,
                a.total_fees as int,
                a.provider_bond as int,
            )
        },
{
    let i = load_agreement(state, agreement_id)?;
    if *sender != state.agreements[i].provider {
        return Err(EscrowError::Unauthorized { action: Action::Accept });
    }
    if state.agreements[i].status != AgreementStatus::Proposed {
        return Err(EscrowError::InvalidStatus { expected: Expected::Proposed, actual: state.agreements[i].status });
    }
    if state.agreements[i].provider_accepted {
        return Err(EscrowError::AlreadyAccepted);
    }
    let paid = must_pay(funds, &state.config.denom)?;
    if paid < state.agreements[i].provider_bond {
        return Err(EscrowError::InsufficientFunds { required: state.agreements[i].provider_bond, sent: paid });
    }
    state.agreements[i].provider_accepted = true;
    if state.agreements[i].client_funded {
        state.agreements[i].status = AgreementStatus::Funded;
        state.agreements[i].funded_at = Some(now);
    }
    proof { close_replace(*old(state), *state, agreement_id); }
    Ok(paid)
}

pub open spec fn fund_check(s: EscrowState, sender: String, funds: Seq<Coin>, id: u64) -> Result<u128, EscrowError> {
    if !s.has_agreement(id) {
        Err(EscrowError::AgreementNotFound { id })
    } else {
        let a = s.agreement(id);
        if sender@ != a.client@ {
            Err(EscrowError::Unauthorized { action: Action::Fund })
        } else if a.status != AgreementStatus::Proposed {
            Err(EscrowError::InvalidStatus { expected: Expected::Proposed, actual: a.status })
        } else if a.client_funded {
            Err(EscrowError::AlreadyFunded)
        } else {
            match must_pay_spec(funds, s.config.denom) {
                Err(e) => Err(e),
                Ok(paid) => if paid < a.escrow_amount {
                    Err(EscrowError::InsufficientFunds { required: a.escrow_amount, sent: paid })
                } else {
                    Ok(paid)
                },
            }
        }
    }
}

/// The client funds the escrow; once the provider has accepted too the
/// agreement is funded. Returns the amount paid in.
pub fn execute_fund(state: &mut EscrowState, sender: &String, now: u64, funds: &Vec<Coin>, agreement_id: u64)
    -> (r: Result<u128, EscrowError>)
    requires
        old(state).wf(),
    ensures
        r == fund_check(*old(state), *sender, funds@, agreement_id),
        r is Err ==> *final(state) == *old(state),
        r is Ok ==> {
            let a = old(state).agreement(agreement_id);
            let b = final(state).agreement(agreement_id);
            &&& final(state).wf()
            &&& final(state).only_agreement_changed(*old(state), agreement_id)
            &&& b.milestones == a.milestones
            &&& b.progressed(
                a,
                if a.provider_accepted { AgreementStatus::Funded } else { a.status },
                a.current_milestone,
                if a.provider_accepted { Some(now) } else { a.funded_at },
                a.started_at,
                a.completed_at,
                a.provider_accepted,
                true,
                a.total_released as int,
                a.total_fees as int,
                a.provider_bond as int,
            )
        },
{
    let i = load_agreement(state, agreement_id)?;
    if *sender != state.agreements[i].client {
        return Err(EscrowError::Unauthorized { action: Action::Fund });
    }
    if state.agreements[i].status != AgreementStatus::Proposed {
        return Err(EscrowError::InvalidStatus { expected: Expected::Proposed, actual: state.agreements[i].status });
    }
    if state.agreements[i].client_funded {
        return Err(EscrowError::AlreadyFunded);
    }
    let paid = must_pay(funds, &state.config.denom)?;
    if paid < state.agreements[i].escrow_amount {
        return Err(EscrowError::InsufficientFunds { required: state.agreements[i].escrow_amount, sent: paid });
    }
    state.agreements[i].client_funded = true;
    if state.agreements[i].provider_accepted {
        state.agreements[i].status = AgreementStatus::Funded;
        state.agreements[i].funded_at = Some(now);
    }
    proof { close_replace(*old(state), *state, agreement_id); }
    Ok(paid)
}

pub open spec fn start_check(s: EscrowState, sender: String, id: u64) -> Result<(), EscrowError> {
    if !s.has_agreement(id) {
        Err(EscrowError::AgreementNotFound { id })
    } else {
        let a = s.agreement(id);
        if sender@ != a.client@ && sender@ != a.provider@ {
            Err(EscrowError::Unauthorized { action: Action::Start })
        } else if a.status != AgreementStatus::Funded {
            Err(EscrowError::InvalidStatus { expected: Expected::Funded, actual: a.status })
        } else {
            Ok(())
        }
    }
}

/// Client or provider starts a funded agreement; the first milestone is
/// then in progress.
pub fn execute_start(state: &mut EscrowState, sender: &String, now: u64, agreement_id: u64)
    -> (r: Result<(), EscrowError>)
    requires
        old(state).wf(),
    ensures
        r == start_check(*old(state), *sender, agreement_id),
        r is Err ==> *final(state) == *old(state),
        r is Ok ==> {
            let a = old(state).agreement(agreement_id);
            let b = final(state).agreement(agreement_id);
            &&& final(state).wf()
            &&& final(state).only_agreement_changed(*old(state), agreement_id)
            &&& b.milestones@ == a.milestones@.update(
                0,
                Milestone { status: MilestoneStatus::InProgress, ..a.milestones@[0] },
            )
            &&& b.progressed(
                a,
                AgreementStatus::InProgress,
                a.current_milestone,
                a.funded_at,
                Some(now),
                a.completed_at,
                a.provider_accepted,
                a.client_funded,
                a.total_released as int,
                a.total_fees as int,
                a.provider_bond as int,
            )
        },
{
    let i = load_agreement(state, agreement_id)?;
    if *sender != state.agreements[i].client && *sender != state.agreements[i].provider {
        return Err(EscrowError::Unauthorized { action: Action::Start });
    }
    if state.agreements[i].status != AgreementStatus::Funded {
        return Err(EscrowError::InvalidStatus { expected: Expected::Funded, actual: state.agreements[i].status });
    }
    let ghost a = state.agreements@[i as int];
    state.agreements[i].status = AgreementStatus::InProgress;
    state.agreements[i].started_at = Some(now);
    if state.agreements[i].milestones.len() > 0 {
        state.agreements[i].milestones[0].status = MilestoneStatus::InProgress;
    }
    proof {
        let b = state.agreements@[i as int];
        assert(b.milestones@ =~= a.milestones@.update(0, Milestone { status: MilestoneStatus::InProgress, ..a.milestones@[0] }));
        close_replace(*old(state), *state, agreement_id);
    }
    Ok(())
}


// ── Milestones ─────────────────────────────────────────────────────────

/// The checks that submitting, approving, revising and disputing share:
/// the agreement exists, the sender has the role, the agreement is in the
/// status and the index is the current milestone.
pub open spec fn milestone_step_check(
    s: EscrowState,
    sender: String,
    id: u64,
    index: u32,
    by_client: bool,
    action: Action,
    status: AgreementStatus,
    expected: Expected,
) -> Result<(), EscrowError> {
    if !s.has_agreement(id) {
        Err(EscrowError::AgreementNotFound { id })
    } else {
        let a = s.agreement(id);
        if (by_client && sender@ != a.client@) || (!by_client && sender@ != a.provider@) {
            Err(EscrowError::Unauthorized { action })
        } else if a.status != status {
            Err(EscrowError::InvalidStatus { expected, actual: a.status })
        } else if index != a.current_milestone {
            Err(EscrowError::InvalidMilestoneIndex { expected: a.current_milestone, got: index })
        } else {
            Ok(())
        }
    }
}

fn milestone_step(
    state: &EscrowState,
    sender: &String,
    id: u64,
    index: u32,
    by_client: bool,
    action: Action,
    status: AgreementStatus,
    expected: Expected,
) -> (r: Result<usize, EscrowError>)
    requires
        state.wf(),
    ensures
        r is Ok <==> milestone_step_check(*state, *sender, id, index, by_client, action, status, expected) is Ok,
        r is Err ==> r->Err_0 == milestone_step_check(*state, *sender, id, index, by_client, action, status, expected)->Err_0,
        r matches Ok(i) ==> i == id - 1 && (index as int) < state.agreements@[i as int].milestones.len(),
{
    let i = load_agreement(state, id)?;
    let who_ok = if by_client { *sender == state.agreements[i].client } else { *sender == state.agreements[i].provider };
    if !who_ok {
        return Err(EscrowError::Unauthorized { action });
    }
    if state.agreements[i].status != status {
        return Err(EscrowError::InvalidStatus { expected, actual: state.agreements[i].status });
    }
    if index != state.agreements[i].current_milestone {
        return Err(EscrowError::InvalidMilestoneIndex { expected: state.agreements[i].current_milestone, got: index });
    }
    assert(state.agreements[i as int].id == i + 1);
    Ok(i)
}

pub open spec fn submit_check(s: EscrowState, sender: String, id: u64, index: u32) -> Result<(), EscrowError> {
    match milestone_step_check(s, sender, id, index, false, Action::SubmitMilestone, AgreementStatus::InProgress, Expected::InProgress) {
        Err(e) => Err(e),
        Ok(_) => if s.agreement(id).milestones@[index as int].status != MilestoneStatus::InProgress {
            Err(EscrowError::InvalidMilestoneStatus { index, expected_status: MilestoneStatus::InProgress })
        } else {
            Ok(())
        },
    }
}

/// The provider submits the deliverable of the current milestone, which
/// goes to review.
pub fn execute_submit_milestone(
    state: &mut EscrowState,
    sender: &String,
    now: u64,
    agreement_id: u64,
    milestone_index: u32,
    deliverable_iri: String,
) -> (r: Result<(), EscrowError>)
    requires
        old(state).wf(),
    ensures
        r is Ok <==> submit_check(*old(state), *sender, agreement_id, milestone_index) is Ok,
        r is Err ==> r->Err_0 == submit_check(*old(state), *sender, agreement_id, milestone_index)->Err_0
            && *final(state) == *old(state),
        r is Ok ==> {
            let a = old(state).agreement(agreement_id);
            let b = final(state).agreement(agreement_id);
            &&& final(state).wf()
            &&& final(state).only_agreement_changed(*old(state), agreement_id)
            &&& b.milestones@ == a.milestones@.update(
                milestone_index as int,
                Milestone {
                    status: MilestoneStatus::Submitted,
                    deliverable_iri: Some(deliverable_iri),
                    submitted_at: Some(now),
                    ..a.milestones@[milestone_index as int]
                },
            )
            &&& b.moved_to(a, AgreementStatus::MilestoneReview)
        },
{
    let i = milestone_step(
        state, sender, agreement_id, milestone_index, false,
        Action::SubmitMilestone, AgreementStatus::InProgress, Expected::InProgress,
    )?;
    let idx = milestone_index as usize;
    if state.agreements[i].milestones[idx].status != MilestoneStatus::InProgress {
        return Err(EscrowError::InvalidMilestoneStatus { index: milestone_index, expected_status: MilestoneStatus::InProgress });
    }
    let ghost a = state.agreements@[i as int];
    state.agreements[i].milestones[idx].status = MilestoneStatus::Submitted;
    state.agreements[i].milestones[idx].deliverable_iri = Some(deliverable_iri);
    state.agreements[i].milestones[idx].submitted_at = Some(now);
    state.agreements[i].status = AgreementStatus::MilestoneReview;
    proof {
        let b = state.agreements@[i as int];
        assert(b.milestones@ =~= a.milestones@.update(
            milestone_index as int,
            Milestone {
                status: MilestoneStatus::Submitted,
                deliverable_iri: b.milestones@[idx as int].deliverable_iri,
                submitted_at: Some(now),
                ..a.milestones@[milestone_index as int]
            },
        ));
        close_replace(*old(state), *state, agreement_id);
    }
    Ok(())
}

pub open spec fn approve_check(s: EscrowState, sender: String, id: u64, index: u32) -> Result<(), EscrowError> {
    match milestone_step_check(s, sender, id, index, true, Action::ApproveMilestone, AgreementStatus::MilestoneReview, Expected::MilestoneReview) {
        Err(e) => Err(e),
        Ok(_) => if s.agreement(id).milestones@[index as int].status != MilestoneStatus::Submitted {
            Err(EscrowError::InvalidMilestoneStatus { index, expected_status: MilestoneStatus::Submitted })
        } else {
            Ok(())
        },
    }
}

/// The refusal an approval of the milestone would meet now, if any: an
/// approval goes ahead exactly when this is `Ok`.
pub fn may_approve(state: &EscrowState, sender: &String, agreement_id: u64, milestone_index: u32)
    -> (r: Result<(), EscrowError>)
    requires
        state.wf(),
    ensures
        r == approve_check(*state, *sender, agreement_id, milestone_index),
{
    let i = milestone_step(
        state,
        sender,
        agreement_id,
        milestone_index,
        true,
        Action::ApproveMilestone,
        AgreementStatus::MilestoneReview,
        Expected::MilestoneReview,
    )?;
    if state.agreements[i].milestones[milestone_index as usize].status != MilestoneStatus::Submitted {
        return Err(EscrowError::InvalidMilestoneStatus { index: milestone_index, expected_status: MilestoneStatus::Submitted });
    }
    Ok(())
}

/// What approving a milestone moves: the platform fee on the payment, the
/// provider's part, and whether the agreement then completes.
pub open spec fn approval_amounts(s: EscrowState, id: u64, index: u32) -> (int, int, bool, int) {
    let a = s.agreement(id);
    let payment = a.milestones@[index as int].payment as int;
    let fee = bps_of(payment, s.config.platform_fee_rate_bps as int);
    let last = index as int + 1 >= a.milestones.len();
    let completion_fee = bps_of(a.escrow_amount as int, s.config.platform_fee_rate_bps as int);
    (fee, payment - fee, last, completion_fee)
}

/// The client approves the submitted current milestone: the provider is
/// paid less the platform fee, which goes to the community pool. After the
/// last milestone the agreement completes, the bond goes back to the
/// provider and a completion fee on the whole escrow goes to the pool;
/// otherwise the next milestone starts.
pub fn execute_approve_milestone(
    state: &mut EscrowState,
    sender: &String,
    now: u64,
    agreement_id: u64,
    milestone_index: u32,
) -> (r: Result<Vec<Transfer>, EscrowError>)
    requires
        old(state).wf(),
        approve_check(*old(state), *sender, agreement_id, milestone_index) is Ok ==> {
            let (fee, paid, last, completion_fee) = approval_amounts(*old(state), agreement_id, milestone_index);
            let a = old(state).agreement(agreement_id);
            &&& a.total_released + paid <= u128::MAX
            &&& a.total_fees + fee + (if last { completion_fee } else { 0 }) <= u128::MAX
        },
    ensures
        r is Ok <==> approve_check(*old(state), *sender, agreement_id, milestone_index) is Ok,
        r is Err ==> r->Err_0 == approve_check(*old(state), *sender, agreement_id, milestone_index)->Err_0
            && *final(state) == *old(state),
        r matches Ok(transfers) ==> {
            let a = old(state).agreement(agreement_id);
            let b = final(state).agreement(agreement_id);
            let cfg = old(state).config;
            let (fee, paid, last, completion_fee) = approval_amounts(*old(state), agreement_id, milestone_index);
            let approved = Milestone {
                status: MilestoneStatus::Approved,
                approved_at: Some(now),
                ..a.milestones@[milestone_index as int]
            };
            &&& final(state).wf()
            &&& final(state).only_agreement_changed(*old(state), agreement_id)
            &&& last ==> {
                &&& b.milestones@ == a.milestones@.update(milestone_index as int, approved)
                &&& b.progressed(a, AgreementStatus::Completed, a.current_milestone, a.funded_at,
                    a.started_at, Some(now), a.provider_accepted, a.client_funded,
                    a.total_released + paid, a.total_fees + fee + completion_fee, a.provider_bond as int)
                &&& tv(transfers@) == send_if(a.provider@, cfg.denom@, paid as u128)
                    + send_if(cfg.community_pool@, cfg.denom@, fee as u128)
                    + send_if(a.provider@, cfg.denom@, a.provider_bond)
                    + send_if(cfg.community_pool@, cfg.denom@, completion_fee as u128)
            }
            &&& !last ==> {
                &&& b.milestones@ == a.milestones@.update(milestone_index as int, approved).update(
                    milestone_index + 1,
                    Milestone { status: MilestoneStatus::InProgress, ..a.milestones@[milestone_index + 1] },
                )
                &&& b.progressed(a, AgreementStatus::InProgress, (milestone_index + 1) as u32, a.funded_at,
                    a.started_at, a.completed_at, a.provider_accepted, a.client_funded,
                    a.total_released + paid, a.total_fees + fee, a.provider_bond as int)
                &&& tv(transfers@) == send_if(a.provider@, cfg.denom@, paid as u128)
                    + send_if(cfg.community_pool@, cfg.denom@, fee as u128)
            }
        },
{
    let i = milestone_step(
        state, sender, agreement_id, milestone_index, true,
        Action::ApproveMilestone, AgreementStatus::MilestoneReview, Expected::MilestoneReview,
    )?;
    let idx = milestone_index as usize;
    if state.agreements[i].milestones[idx].status != MilestoneStatus::Submitted {
        return Err(EscrowError::InvalidMilestoneStatus { index: milestone_index, expected_status: MilestoneStatus::Submitted });
    }
    let ghost a = state.agreements@[i as int];
    let milestone_payment = state.agreements[i].milestones[idx].payment;
    proof {
        lemma_ratio_le(milestone_payment as int, state.config.platform_fee_rate_bps as int, 10_000);
        lemma_ratio_le(a.escrow_amount as int, state.config.platform_fee_rate_bps as int, 10_000);
    }
    let platform_fee = multiply_ratio(milestone_payment, state.config.platform_fee_rate_bps as u128, 10_000);
    let provider_payment = milestone_payment - platform_fee;

    state.agreements[i].milestones[idx].status = MilestoneStatus::Approved;
    state.agreements[i].milestones[idx].approved_at = Some(now);
    state.agreements[i].total_released = state.agreements[i].total_released + provider_payment;
    state.agreements[i].total_fees = state.agreements[i].total_fees + platform_fee;

    let mut msgs: Vec<Transfer> = Vec::new();
    send_nonzero(&mut msgs, &state.agreements[i].provider, &state.config.denom, provider_payment);
    send_nonzero(&mut msgs, &state.config.community_pool, &state.config.denom, platform_fee);

    let next_idx = milestone_index as usize + 1;
    if next_idx >= state.agreements[i].milestones.len() {
        state.agreements[i].status = AgreementStatus::Completed;
        state.agreements[i].completed_at = Some(now);
        send_nonzero(&mut msgs, &state.agreements[i].provider, &state.config.denom, state.agreements[i].provider_bond);
        let completion_fee = multiply_ratio(
            state.agreements[i].escrow_amount,
            state.config.platform_fee_rate_bps as u128,
            10_000,
        );
        if completion_fee != 0 {
            send(&mut msgs, &state.config.community_pool, &state.config.denom, completion_fee);
            state.agreements[i].total_fees = state.agreements[i].total_fees + completion_fee;
        }
        assert(tv(msgs@) =~= send_if(a.provider@, state.config.denom@, provider_payment)
            + send_if(state.config.community_pool@, state.config.denom@, platform_fee)
            + send_if(a.provider@, state.config.denom@, a.provider_bond)
            + send_if(state.config.community_pool@, state.config.denom@, completion_fee));
        proof {
            let b = state.agreements@[i as int];
            assert(b.milestones@ =~= a.milestones@.update(milestone_index as int,
                Milestone { status: MilestoneStatus::Approved, approved_at: Some(now), ..a.milestones@[milestone_index as int] }));
        }
    } else {
        state.agreements[i].current_milestone = next_idx as u32;
        state.agreements[i].milestones[next_idx].status = MilestoneStatus::InProgress;
        state.agreements[i].status = AgreementStatus::InProgress;
        proof {
            let b = state.agreements@[i as int];
            assert(b.milestones@ =~= a.milestones@.update(milestone_index as int,
                Milestone { status: MilestoneStatus::Approved, approved_at: Some(now), ..a.milestones@[milestone_index as int] }).update(
                milestone_index + 1,
                Milestone { status: MilestoneStatus::InProgress, ..a.milestones@[milestone_index + 1] }));
        }
    }
    proof { close_replace(*old(state), *state, agreement_id); }
    Ok(msgs)
}

pub open spec fn revise_check(s: EscrowState, sender: String, id: u64, index: u32) -> Result<(), EscrowError> {
    match milestone_step_check(s, sender, id, index, false, Action::ReviseMilestone, AgreementStatus::MilestoneReview, Expected::MilestoneReview) {
        Err(e) => Err(e),
        Ok(_) => {
            let m = s.agreement(id).milestones@[index as int];
            if m.status != MilestoneStatus::Submitted {
                Err(EscrowError::InvalidMilestoneStatus { index, expected_status: MilestoneStatus::Submitted })
            } else if m.revision_count >= s.config.max_revisions {
                Err(EscrowError::MaxRevisionsExceeded { max: s.config.max_revisions, index })
            } else {
                Ok(())
            }
        },
    }
}

/// The provider replaces the deliverable of the submitted milestone, within
/// the revision limit. Returns the new revision count.
pub fn execute_revise_milestone(
    state: &mut EscrowState,
    sender: &String,
    now: u64,
    agreement_id: u64,
    milestone_index: u32,
    deliverable_iri: String,
) -> (r: Result<u32, EscrowError>)
    requires
        old(state).wf(),
    ensures
        r is Ok <==> revise_check(*old(state), *sender, agreement_id, milestone_index) is Ok,
        r is Err ==> r->Err_0 == revise_check(*old(state), *sender, agreement_id, milestone_index)->Err_0
            && *final(state) == *old(state),
        r matches Ok(count) ==> {
            let a = old(state).agreement(agreement_id);
            let b = final(state).agreement(agreement_id);
            let m = a.milestones@[milestone_index as int];
            &&& count == m.revision_count + 1
            &&& final(state).wf()
            &&& final(state).only_agreement_changed(*old(state), agreement_id)
            &&& b.milestones@ == a.milestones@.update(
                milestone_index as int,
                Milestone {
                    revision_count: count,
                    deliverable_iri: Some(deliverable_iri),
                    submitted_at: Some(now),
                    ..m
                },
            )
            &&& b.moved_to(a, a.status)
        },
{
    let i = milestone_step(
        state, sender, agreement_id, milestone_index, false,
        Action::ReviseMilestone, AgreementStatus::MilestoneReview, Expected::MilestoneReview,
    )?;
    let idx = milestone_index as usize;
    if state.agreements[i].milestones[idx].status != MilestoneStatus::Submitted {
        return Err(EscrowError::InvalidMilestoneStatus { index: milestone_index, expected_status: MilestoneStatus::Submitted });
    }
    if state.agreements[i].milestones[idx].revision_count >= state.config.max_revisions {
        return Err(EscrowError::MaxRevisionsExceeded { max: state.config.max_revisions, index: milestone_index });
    }
    let ghost a = state.agreements@[i as int];
    state.agreements[i].milestones[idx].revision_count = state.agreements[i].milestones[idx].revision_count + 1;
    state.agreements[i].milestones[idx].deliverable_iri = Some(deliverable_iri);
    state.agreements[i].milestones[idx].submitted_at = Some(now);
    let count = state.agreements[i].milestones[idx].revision_count;
    proof {
        let b = state.agreements@[i as int];
        assert(b.milestones@ =~= a.milestones@.update(
            milestone_index as int,
            Milestone {
                revision_count: count,
                deliverable_iri: b.milestones@[idx as int].deliverable_iri,
                submitted_at: Some(now),
                ..a.milestones@[milestone_index as int]
            },
        ));
        close_replace(*old(state), *state, agreement_id);
    }
    Ok(count)
}

/// The index of the dispute of an agreement, if there is one.
pub fn find_dispute(disputes: &Vec<Dispute>, agreement_id: u64) -> (r: Option<usize>)
    ensures
        r matches Some(k) ==> k < disputes.len() && disputes@[k as int].agreement_id == agreement_id,
        r is None ==> forall|k: int| 0 <= k < disputes.len() ==> #[trigger] disputes@[k].agreement_id != agreement_id,
{
    let mut k: usize = 0;
    while k < disputes.len()
        invariant
            k <= disputes.len(),
            forall|j: int| 0 <= j < k ==> #[trigger] disputes@[j].agreement_id != agreement_id,
        decreases disputes.len() - k,
    {
        if disputes[k].agreement_id == agreement_id {
            return Some(k);
        }
        k += 1;
    }
    None
}

pub open spec fn dispute_check(s: EscrowState, sender: String, id: u64, index: u32) -> Result<(), EscrowError> {
    match milestone_step_check(s, sender, id, index, true, Action::RaiseDispute, AgreementStatus::MilestoneReview, Expected::MilestoneReview) {
        Err(e) => Err(e),
        Ok(_) => if s.has_dispute(id) {
            Err(EscrowError::DisputeAlreadyExists)
        } else {
            Ok(())
        },
    }
}

/// The client disputes the milestone under review; the milestone and the
/// agreement are then disputed and the dispute is recorded.
pub fn execute_dispute_milestone(
    state: &mut EscrowState,
    sender: &String,
    now: u64,
    agreement_id: u64,
    milestone_index: u32,
    reason: String,
) -> (r: Result<(), EscrowError>)
    requires
        old(state).wf(),
    ensures
        r is Ok <==> dispute_check(*old(state), *sender, agreement_id, milestone_index) is Ok,
        r is Err ==> r->Err_0 == dispute_check(*old(state), *sender, agreement_id, milestone_index)->Err_0
            && *final(state) == *old(state),
        r is Ok ==> {
            let a = old(state).agreement(agreement_id);
            let b = final(state).agreement(agreement_id);
            let n = old(state).disputes.len() as int;
            let d = final(state).disputes@[n];
            &&& final(state).wf()
            &&& final(state).config == old(state).config
            &&& final(state).agreements@ == old(state).agreements@.update(agreement_id - 1, b)
            &&& b.milestones@ == a.milestones@.update(
                milestone_index as int,
                Milestone { status: MilestoneStatus::Disputed, ..a.milestones@[milestone_index as int] },
            )
            &&& b.moved_to(a, AgreementStatus::Disputed)
            &&& final(state).disputes@.len() == n + 1
            &&& final(state).disputes@.take(n) == old(state).disputes@
            &&& d.agreement_id == agreement_id
            &&& d.milestone_index == milestone_index
            &&& d.reason == reason
            &&& d.raised_by == *sender
            &&& d.raised_at == now
            &&& d.resolved_at is None
            &&& d.resolution is None
        },
{
    let i = milestone_step(
        state, sender, agreement_id, milestone_index, true,
        Action::RaiseDispute, AgreementStatus::MilestoneReview, Expected::MilestoneReview,
    )?;
    if find_dispute(&state.disputes, agreement_id).is_some() {
        return Err(EscrowError::DisputeAlreadyExists);
    }
    let idx = milestone_index as usize;
    let ghost a = state.agreements@[i as int];
    let ghost old_state = *state;
    state.agreements[i].milestones[idx].status = MilestoneStatus::Disputed;
    state.agreements[i].status = AgreementStatus::Disputed;
    proof {
        let b = state.agreements@[i as int];
        assert(b.milestones@ =~= a.milestones@.update(
            milestone_index as int,
            Milestone { status: MilestoneStatus::Disputed, ..a.milestones@[milestone_index as int] },
        ));
        close_replace(old_state, *state, agreement_id);
    }
    let ghost mid_state = *state;
    state.disputes.push(Dispute {
        agreement_id,
        milestone_index,
        reason,
        raised_by: sender.clone(),
        raised_at: now,
        resolved_at: None,
        resolution: None,
    });
    proof {
        assert(state.disputes@.take(mid_state.disputes.len() as int) =~= mid_state.disputes@);
        assert forall|k1: int, k2: int|
            0 <= k1 < state.disputes.len() && 0 <= k2 < state.disputes.len() && k1 != k2 implies
            #[trigger] state.disputes[k1].agreement_id != #[trigger] state.disputes[k2].agreement_id by {
            if k1 < mid_state.disputes.len() && k2 < mid_state.disputes.len() {
                assert(state.disputes[k1] == mid_state.disputes[k1]);
                assert(state.disputes[k2] == mid_state.disputes[k2]);
            } else if k1 < mid_state.disputes.len() {
                assert(state.disputes[k1] == mid_state.disputes[k1]);
            } else {
                assert(state.disputes[k2] == mid_state.disputes[k2]);
            }
        }
        assert forall|k: int| 0 <= k < state.disputes.len() implies {
            let d = #[trigger] state.disputes[k];
            &&& 1 <= d.agreement_id <= state.agreements.len()
            &&& d.milestone_index < state.agreements[d.agreement_id - 1].milestones.len()
        } by {
            if k < mid_state.disputes.len() {
                assert(state.disputes[k] == mid_state.disputes[k]);
            }
        }
    }
    Ok(())
}


// ── Disputes ───────────────────────────────────────────────────────────

/// The sum of the payments still held for milestones that are neither
/// approved nor disputed.
pub fn remaining_escrow(agreement: &ServiceAgreement) -> (r: u128)
    requires
        agreement.wf(),
    ensures
        r == sum_outstanding(agreement.milestones@),
{
    let ms = &agreement.milestones;
    let mut total: u128 = 0;
    let mut i: usize = 0;
    proof {
        lemma_outstanding_bounded(ms@);
    }
    while i < ms.len()
        invariant
            i <= ms.len(),
            total == sum_outstanding(ms@.take(i as int)),
            sum_payments(ms@) <= u128::MAX,
        decreases ms.len() - i,
    {
        proof {
            assert(ms@.take(i as int + 1).drop_last() =~= ms@.take(i as int));
            lemma_outstanding_prefix(ms@, i as int + 1);
        }
        if ms[i].status != MilestoneStatus::Approved && ms[i].status != MilestoneStatus::Disputed {
            total = total + ms[i].payment;
        }
        i += 1;
    }
    assert(ms@.take(i as int) =~= ms@);
    total
}

pub proof fn lemma_outstanding_prefix(ms: Seq<Milestone>, i: int)
    requires
        0 <= i <= ms.len(),
    ensures
        0 <= sum_outstanding(ms.take(i)) <= sum_payments(ms),
    decreases ms.len(),
{
    lemma_outstanding_bounded(ms.take(i));
    lemma_prefix_payments(ms, i);
}

pub proof fn lemma_prefix_payments(ms: Seq<Milestone>, i: int)
    requires
        0 <= i <= ms.len(),
    ensures
        sum_payments(ms.take(i)) <= sum_payments(ms),
    decreases ms.len(),
{
    if i == ms.len() {
        assert(ms.take(i) =~= ms);
    } else {
        lemma_prefix_payments(ms.drop_last(), i);
        assert(ms.drop_last().take(i) =~= ms.take(i));
    }
}

/// The dispute of agreement `id` (unique in a well-formed state).
pub open spec fn dispute_index(s: EscrowState, id: u64) -> int {
    choose|k: int| 0 <= k < s.disputes.len() && s.disputes[k].agreement_id == id
}

pub open spec fn resolve_check(s: EscrowState, sender: String, id: u64, resolution: DisputeResolution)
    -> Result<(), EscrowError> {
    if !s.has_agreement(id) {
        Err(EscrowError::AgreementNotFound { id })
    } else if sender@ != s.config.arbiter_dao@ {
        Err(EscrowError::Unauthorized { action: Action::ResolveDispute })
    } else if s.agreement(id).status != AgreementStatus::Disputed {
        Err(EscrowError::InvalidStatus { expected: Expected::Disputed, actual: s.agreement(id).status })
    } else if !s.has_dispute(id) {
        Err(EscrowError::NoActiveDispute)
    } else {
        match resolution {
            DisputeResolution::Split { client_percent } =>
                if client_percent == 0 || client_percent >= 100 {
                    Err(EscrowError::InvalidSplitPercent { got: client_percent })
                } else {
                    Ok(())
                },
            _ => Ok(()),
        }
    }
}

/// The refusal a resolution of the agreement's dispute would meet now, if
/// any: a resolution goes ahead exactly when this is `Ok`.
pub fn may_resolve_dispute(state: &EscrowState, sender: &String, agreement_id: u64, resolution: DisputeResolution)
    -> (r: Result<(), EscrowError>)
    requires
        state.wf(),
    ensures
        r == resolve_check(*state, *sender, agreement_id, resolution),
{
    let i = load_agreement(state, agreement_id)?;
    if *sender != state.config.arbiter_dao {
        return Err(EscrowError::Unauthorized { action: Action::ResolveDispute });
    }
    if state.agreements[i].status != AgreementStatus::Disputed {
        return Err(EscrowError::InvalidStatus { expected: Expected::Disputed, actual: state.agreements[i].status });
    }
    if find_dispute(&state.disputes, agreement_id).is_none() {
        return Err(EscrowError::NoActiveDispute);
    }
    if let DisputeResolution::Split { client_percent } = resolution {
        if client_percent == 0 || client_percent >= 100 {
            return Err(EscrowError::InvalidSplitPercent { got: client_percent });
        }
    }
    Ok(())
}

/// Amounts of a dispute resolution: the disputed payment, the arbiter fee
/// on it, and for a split the client's share and half the fee.
pub open spec fn dispute_amounts(s: EscrowState, id: u64, resolution: DisputeResolution) -> (int, int, int, int) {
    let a = s.agreement(id);
    let d = s.disputes[dispute_index(s, id)];
    let disputed = a.milestones@[d.milestone_index as int].payment as int;
    let fee = bps_of(disputed, s.config.arbiter_fee_rate_bps as int);
    let client_share = match resolution {
        DisputeResolution::Split { client_percent } => ratio(disputed, client_percent as int, 100),
        _ => 0,
    };
    (disputed, fee, client_share, ratio(fee, 1, 2))
}

/// `a - b`, or zero when `b` is larger.
pub open spec fn sat_sub(a: int, b: int) -> int {
    if a > b { a - b } else { 0 }
}

/// Whether the provider side of a resolution fits in `u128`.
pub open spec fn resolve_fits(s: EscrowState, id: u64, resolution: DisputeResolution) -> bool {
    let (disputed, fee, client_share, half_fee) = dispute_amounts(s, id, resolution);
    let bond = s.agreement(id).provider_bond as int;
    match resolution {
        DisputeResolution::ClientWins => true,
        DisputeResolution::ProviderWins => disputed + bond <= u128::MAX,
        DisputeResolution::Split { .. } => disputed - client_share + bond <= u128::MAX,
    }
}

/// The transfers of a dispute resolution.
pub open spec fn resolve_transfers(s: EscrowState, id: u64, resolution: DisputeResolution) -> Seq<TransferView> {
    let a = s.agreement(id);
    let cfg = s.config;
    let (disputed, fee, client_share, half_fee) = dispute_amounts(s, id, resolution);
    let remaining = sum_outstanding(a.milestones@);
    let bond = a.provider_bond as int;
    let bond_half = ratio(bond, 1, 2);
    match resolution {
        DisputeResolution::ClientWins =>
            send_if(a.client@, cfg.denom@, (disputed - fee) as u128)
            + (if bond_half != 0 {
                seq![(a.client@, cfg.denom@, bond_half as u128), (cfg.community_pool@, cfg.denom@, bond_half as u128)]
            } else {
                Seq::empty()
            })
            + send_if(cfg.community_pool@, cfg.denom@, fee as u128)
            + send_if(a.client@, cfg.denom@, remaining as u128),
        DisputeResolution::ProviderWins =>
            send_if(a.provider@, cfg.denom@, (disputed + bond - fee) as u128)
            + send_if(cfg.community_pool@, cfg.denom@, fee as u128),
        DisputeResolution::Split { .. } =>
            send_if(a.client@, cfg.denom@, sat_sub(client_share, half_fee) as u128)
            + send_if(a.provider@, cfg.denom@, sat_sub(disputed - client_share + bond, half_fee) as u128)
            + send_if(cfg.community_pool@, cfg.denom@, fee as u128)
            + send_if(a.client@, cfg.denom@, remaining as u128),
    }
}

/// The arbiter DAO resolves the dispute of an agreement. The arbiter fee on
/// the disputed payment goes to the community pool. The client wins: the
/// payment less the fee, half the bond and every payment still held go to
/// the client and the other half of the bond to the pool; the agreement
/// completes. The provider wins: the payment and the bond less the fee go to
/// the provider, and the next milestone starts, or the agreement completes
/// after the last. A split: each side gets its share less half the fee, the
/// provider the bond too, the client every payment still held; the
/// agreement completes. The disputed milestone is approved and the dispute
/// records its resolution.
pub fn execute_resolve_dispute(
    state: &mut EscrowState,
    sender: &String,
    now: u64,
    agreement_id: u64,
    resolution: DisputeResolution,
) -> (r: Result<Vec<Transfer>, EscrowError>)
    requires
        old(state).wf(),
        resolve_check(*old(state), *sender, agreement_id, resolution) is Ok
            ==> resolve_fits(*old(state), agreement_id, resolution),
    ensures
        r is Ok <==> resolve_check(*old(state), *sender, agreement_id, resolution) is Ok,
        r is Err ==> r->Err_0 == resolve_check(*old(state), *sender, agreement_id, resolution)->Err_0
            && *final(state) == *old(state),
        r matches Ok(transfers) ==> {
            let a = old(state).agreement(agreement_id);
            let b = final(state).agreement(agreement_id);
            let k = dispute_index(*old(state), agreement_id);
            let d = old(state).disputes@[k];
            let idx = d.milestone_index as int;
            let approved = Milestone { status: MilestoneStatus::Approved, ..a.milestones@[idx] };
            let provider_continues = resolution == DisputeResolution::ProviderWins && idx + 1 < a.milestones.len();
            &&& final(state).wf()
            &&& final(state).config == old(state).config
            &&& final(state).agreements@ == old(state).agreements@.update(agreement_id - 1, b)
            &&& final(state).disputes@ == old(state).disputes@.update(
                k,
                Dispute { resolved_at: Some(now), resolution: Some(resolution), ..d },
            )
            &&& tv(transfers@) == resolve_transfers(*old(state), agreement_id, resolution)
            &&& provider_continues ==> {
                &&& b.milestones@ == a.milestones@.update(
                    idx + 1,
                    Milestone { status: MilestoneStatus::InProgress, ..a.milestones@[idx + 1] },
                ).update(idx, approved)
                &&& b.progressed(a, AgreementStatus::InProgress, (idx + 1) as u32, a.funded_at,
                    a.started_at, a.completed_at, a.provider_accepted, a.client_funded,
                    a.total_released as int, a.total_fees as int, 0)
            }
            &&& !provider_continues ==> {
                &&& b.milestones@ == a.milestones@.update(idx, approved)
                &&& b.progressed(a, AgreementStatus::Completed, a.current_milestone, a.funded_at,
                    a.started_at, Some(now), a.provider_accepted, a.client_funded,
                    a.total_released as int, a.total_fees as int, a.provider_bond as int)
            }
        },
{
    let i = load_agreement(state, agreement_id)?;
    if *sender != state.config.arbiter_dao {
        return Err(EscrowError::Unauthorized { action: Action::ResolveDispute });
    }
    if state.agreements[i].status != AgreementStatus::Disputed {
        return Err(EscrowError::InvalidStatus { expected: Expected::Disputed, actual: state.agreements[i].status });
    }
    let k = match find_dispute(&state.disputes, agreement_id) {
        Some(k) => k,
        None => { return Err(EscrowError::NoActiveDispute); },
    };
    if let DisputeResolution::Split { client_percent } = resolution {
        if client_percent == 0 || client_percent >= 100 {
            return Err(EscrowError::InvalidSplitPercent { got: client_percent });
        }
    }
    proof {
        assert(state.disputes[k as int].agreement_id == agreement_id);
        assert(dispute_index(*state, agreement_id) == k) by {
            let c = dispute_index(*state, agreement_id);
            assert(0 <= c < state.disputes.len() && state.disputes[c].agreement_id == agreement_id);
        }
        assert(state.agreements[i as int].id == i + 1);
    }
    let ghost a = state.agreements@[i as int];
    let ghost old_state = *state;
    let milestone_idx = state.disputes[k].milestone_index as usize;
    let disputed_amount = state.agreements[i].milestones[milestone_idx].payment;
    proof {
        lemma_ratio_le(disputed_amount as int, state.config.arbiter_fee_rate_bps as int, 10_000);
        lemma_payment_bounded(a.milestones@, milestone_idx as int);
        lemma_outstanding_bounded(a.milestones@);
        lemma_ratio_le(a.provider_bond as int, 1, 2);
    }
    let arbiter_fee = multiply_ratio(disputed_amount, state.config.arbiter_fee_rate_bps as u128, 10_000);
    let remaining = remaining_escrow(&state.agreements[i]);
    let client = state.agreements[i].client.clone();
    let provider = state.agreements[i].provider.clone();
    let denom = state.config.denom.clone();
    let pool = state.config.community_pool.clone();
    let bond = state.agreements[i].provider_bond;
    let mut msgs: Vec<Transfer> = Vec::new();

    match resolution {
        DisputeResolution::ClientWins => {
            send_nonzero(&mut msgs, &client, &denom, disputed_amount - arbiter_fee);
            let bond_half = multiply_ratio(bond, 1, 2);
            let ghost before = tv(msgs@);
            if bond_half != 0 {
                send(&mut msgs, &client, &denom, bond_half);
                send(&mut msgs, &pool, &denom, bond_half);
            }
            assert(tv(msgs@) =~= before + (if bond_half != 0 {
                seq![(client@, denom@, bond_half), (pool@, denom@, bond_half)]
            } else {
                Seq::<TransferView>::empty()
            }));
            send_nonzero(&mut msgs, &pool, &denom, arbiter_fee);
            send_nonzero(&mut msgs, &client, &denom, remaining);
            state.agreements[i].status = AgreementStatus::Completed;
            state.agreements[i].completed_at = Some(now);
        },
        DisputeResolution::ProviderWins => {
            send_nonzero(&mut msgs, &provider, &denom, disputed_amount + bond - arbiter_fee);
            send_nonzero(&mut msgs, &pool, &denom, arbiter_fee);
            let next_idx = milestone_idx + 1;
            if next_idx < state.agreements[i].milestones.len() {
                state.agreements[i].current_milestone = next_idx as u32;
                state.agreements[i].milestones[next_idx].status = MilestoneStatus::InProgress;
                state.agreements[i].status = AgreementStatus::InProgress;
                state.agreements[i].provider_bond = 0;
            } else {
                state.agreements[i].status = AgreementStatus::Completed;
                state.agreements[i].completed_at = Some(now);
            }
        },
        DisputeResolution::Split { client_percent } => {
            proof {
                lemma_ratio_le(disputed_amount as int, client_percent as int, 100);
                lemma_ratio_le(arbiter_fee as int, 1, 2);
            }
            let client_share = multiply_ratio(disputed_amount, client_percent as u128, 100);
            let provider_share = disputed_amount - client_share;
            let arbiter_fee_half = multiply_ratio(arbiter_fee, 1, 2);
            let client_receives = if client_share > arbiter_fee_half { client_share - arbiter_fee_half } else { 0 };
            send_nonzero(&mut msgs, &client, &denom, client_receives);
            let provider_total = provider_share + bond;
            let provider_receives = if provider_total > arbiter_fee_half { provider_total - arbiter_fee_half } else { 0 };
            send_nonzero(&mut msgs, &provider, &denom, provider_receives);
            send_nonzero(&mut msgs, &pool, &denom, arbiter_fee);
            send_nonzero(&mut msgs, &client, &denom, remaining);
            state.agreements[i].status = AgreementStatus::Completed;
            state.agreements[i].completed_at = Some(now);
        },
    }
    let ghost mid = state.agreements@[i as int];
    state.agreements[i].milestones[milestone_idx].status = MilestoneStatus::Approved;
    state.disputes[k].resolved_at = Some(now);
    state.disputes[k].resolution = Some(resolution);
    proof {
        let b = state.agreements@[i as int];
        let idx = milestone_idx as int;
        let approved = Milestone { status: MilestoneStatus::Approved, ..a.milestones@[idx] };
        if resolution == DisputeResolution::ProviderWins && idx + 1 < a.milestones.len() {
            assert(b.milestones@ =~= a.milestones@.update(
                idx + 1,
                Milestone { status: MilestoneStatus::InProgress, ..a.milestones@[idx + 1] },
            ).update(idx, approved));
        } else {
            assert(b.milestones@ =~= a.milestones@.update(idx, approved));
        }
        lemma_sum_payments_same(a.milestones@, b.milestones@);
        assert(state.agreements@ =~= old_state.agreements@.update(agreement_id - 1, b));
        assert(state.disputes@ =~= old_state.disputes@.update(
            k as int,
            Dispute { resolved_at: Some(now), resolution: Some(resolution), ..old_state.disputes@[k as int] },
        ));
        assert forall|j: int| 0 <= j < state.agreements.len() implies {
            &&& #[trigger] state.agreements[j].id == j + 1
            &&& state.agreements[j].wf()
        } by {
            if j != i {
                assert(old_state.wf());
                assert(state.agreements[j] == old_state.agreements[j]);
                assert(old_state.agreements[j].id == j + 1);
                assert(old_state.agreements[j].wf());
            } else {
                assert(a.wf());
                assert(a.id == j + 1);
                assert(b.id == a.id);
                assert(state.agreements[j] == b);
                assert(b.milestones@.len() == a.milestones@.len());
                assert(b.current_milestone < b.milestones.len());
                assert(b.escrow_amount == sum_payments(b.milestones@));
            }
        }
        assert forall|kk: int| 0 <= kk < state.disputes.len() implies {
            let d = #[trigger] state.disputes[kk];
            &&& 1 <= d.agreement_id <= state.agreements.len()
            &&& d.milestone_index < state.agreements[d.agreement_id - 1].milestones.len()
        } by {
            assert(state.disputes[kk].agreement_id == old_state.disputes[kk].agreement_id);
            assert(state.disputes[kk].milestone_index == old_state.disputes[kk].milestone_index);
        }
        assert forall|k1: int, k2: int|
            0 <= k1 < state.disputes.len() && 0 <= k2 < state.disputes.len() && k1 != k2 implies
            #[trigger] state.disputes[k1].agreement_id != #[trigger] state.disputes[k2].agreement_id by {
            assert(state.disputes[k1].agreement_id == old_state.disputes[k1].agreement_id);
            assert(state.disputes[k2].agreement_id == old_state.disputes[k2].agreement_id);
        }
    }
    Ok(msgs)
}


// ── Cancellation and configuration ─────────────────────────────────────

pub open spec fn cancel_check(s: EscrowState, sender: String, id: u64) -> Result<(), EscrowError> {
    if !s.has_agreement(id) {
        Err(EscrowError::AgreementNotFound { id })
    } else {
        let a = s.agreement(id);
        match a.status {
            AgreementStatus::Proposed =>
                if sender@ != a.client@ && sender@ != a.provider@ {
                    Err(EscrowError::Unauthorized { action: Action::CancelProposed })
                } else {
                    Ok(())
                },
            AgreementStatus::Funded =>
                if sender@ != a.client@ {
                    Err(EscrowError::Unauthorized { action: Action::CancelFunded })
                } else {
                    Ok(())
                },
            _ => Err(EscrowError::InvalidStatus { expected: Expected::ProposedOrFunded, actual: a.status }),
        }
    }
}

/// The transfers of a cancellation.
pub open spec fn cancel_transfers(s: EscrowState, id: u64) -> Seq<TransferView> {
    let a = s.agreement(id);
    let cfg = s.config;
    if a.status == AgreementStatus::Funded {
        let fee = bps_of(a.escrow_amount as int, cfg.cancellation_fee_rate_bps as int);
        send_if(a.client@, cfg.denom@, (a.escrow_amount - fee) as u128)
            + send_if(cfg.community_pool@, cfg.denom@, fee as u128)
            + send_if(a.provider@, cfg.denom@, a.provider_bond)
    } else {
        (if a.client_funded { seq![(a.client@, cfg.denom@, a.escrow_amount)] } else { Seq::empty() })
            + (if a.provider_accepted { seq![(a.provider@, cfg.denom@, a.provider_bond)] } else { Seq::empty() })
    }
}

/// Cancels a proposed agreement (client or provider), returning whatever
/// was paid in, or a funded one (client only), returning the escrow less a
/// cancellation fee for the community pool and the bond to the provider.
pub fn execute_cancel(state: &mut EscrowState, sender: &String, now: u64, agreement_id: u64)
    -> (r: Result<Vec<Transfer>, EscrowError>)
    requires
        old(state).wf(),
    ensures
        r is Ok <==> cancel_check(*old(state), *sender, agreement_id) is Ok,
        r is Err ==> r->Err_0 == cancel_check(*old(state), *sender, agreement_id)->Err_0
            && *final(state) == *old(state),
        r matches Ok(transfers) ==> {
            let a = old(state).agreement(agreement_id);
            let b = final(state).agreement(agreement_id);
            &&& final(state).wf()
            &&& final(state).only_agreement_changed(*old(state), agreement_id)
            &&& b.milestones == a.milestones
            &&& b.progressed(a, AgreementStatus::Cancelled, a.current_milestone, a.funded_at,
                a.started_at, Some(now), a.provider_accepted, a.client_funded,
                a.total_released as int, a.total_fees as int, a.provider_bond as int)
            &&& tv(transfers@) == cancel_transfers(*old(state), agreement_id)
        },
{
    let i = load_agreement(state, agreement_id)?;
    match state.agreements[i].status {
        AgreementStatus::Proposed => {
            if *sender != state.agreements[i].client && *sender != state.agreements[i].provider {
                return Err(EscrowError::Unauthorized { action: Action::CancelProposed });
            }
        },
        AgreementStatus::Funded => {
            if *sender != state.agreements[i].client {
                return Err(EscrowError::Unauthorized { action: Action::CancelFunded });
            }
        },
        _ => {
            return Err(EscrowError::InvalidStatus {
                expected: Expected::ProposedOrFunded,
                actual: state.agreements[i].status,
            });
        },
    }
    let client = state.agreements[i].client.clone();
    let provider = state.agreements[i].provider.clone();
    let denom = state.config.denom.clone();
    let escrow = state.agreements[i].escrow_amount;
    let bond = state.agreements[i].provider_bond;
    let mut msgs: Vec<Transfer> = Vec::new();
    if state.agreements[i].status == AgreementStatus::Funded {
        proof {
            lemma_ratio_le(escrow as int, state.config.cancellation_fee_rate_bps as int, 10_000);
        }
        let cancel_fee = multiply_ratio(escrow, state.config.cancellation_fee_rate_bps as u128, 10_000);
        send_nonzero(&mut msgs, &client, &denom, escrow - cancel_fee);
        send_nonzero(&mut msgs, &state.config.community_pool, &denom, cancel_fee);
        send_nonzero(&mut msgs, &provider, &denom, bond);
    } else {
        if state.agreements[i].client_funded {
            send(&mut msgs, &client, &denom, escrow);
        }
        let ghost mid = tv(msgs@);
        if state.agreements[i].provider_accepted {
            send(&mut msgs, &provider, &denom, bond);
        }
        assert(tv(msgs@) =~= cancel_transfers(*old(state), agreement_id));
    }
    state.agreements[i].status = AgreementStatus::Cancelled;
    state.agreements[i].completed_at = Some(now);
    proof { close_replace(*old(state), *state, agreement_id); }
    Ok(msgs)
}

pub struct ConfigUpdate {
    pub arbiter_dao: Option<CheckedAddr>,
    pub community_pool: Option<CheckedAddr>,
    pub provider_bond_ratio_bps: Option<u64>,
    pub platform_fee_rate_bps: Option<u64>,
    pub cancellation_fee_rate_bps: Option<u64>,
    pub arbiter_fee_rate_bps: Option<u64>,
    pub review_period_seconds: Option<u64>,
    pub max_milestones: Option<u32>,
    pub max_revisions: Option<u32>,
}

pub open spec fn update_config_check(s: EscrowState, sender: String, u: ConfigUpdate) -> Result<(), EscrowError> {
    if sender@ != s.config.admin@ {
        Err(EscrowError::Unauthorized { action: Action::UpdateConfig })
    } else if u.arbiter_dao is Some && u.arbiter_dao->Some_0 is Err {
        Err(EscrowError::InvalidAddress { address: u.arbiter_dao->Some_0->Err_0 })
    } else if u.community_pool is Some && u.community_pool->Some_0 is Err {
        Err(EscrowError::InvalidAddress { address: u.community_pool->Some_0->Err_0 })
    } else if u.provider_bond_ratio_bps is Some && !valid_bond_ratio(u.provider_bond_ratio_bps->Some_0) {
        Err(EscrowError::BondRatioOutOfRange { value: u.provider_bond_ratio_bps->Some_0, min: MIN_BOND_RATIO, max: MAX_BOND_RATIO })
    } else if u.platform_fee_rate_bps is Some && u.platform_fee_rate_bps->Some_0 > MAX_PLATFORM_FEE {
        Err(EscrowError::FeeRateOutOfRange { value: u.platform_fee_rate_bps->Some_0, min: MIN_PLATFORM_FEE, max: MAX_PLATFORM_FEE })
    } else if u.cancellation_fee_rate_bps is Some && u.cancellation_fee_rate_bps->Some_0 > MAX_CANCEL_FEE {
        Err(EscrowError::FeeRateOutOfRange { value: u.cancellation_fee_rate_bps->Some_0, min: MIN_CANCEL_FEE, max: MAX_CANCEL_FEE })
    } else if u.arbiter_fee_rate_bps is Some && !(MIN_ARBITER_FEE <= u.arbiter_fee_rate_bps->Some_0 <= MAX_ARBITER_FEE) {
        Err(EscrowError::FeeRateOutOfRange { value: u.arbiter_fee_rate_bps->Some_0, min: MIN_ARBITER_FEE, max: MAX_ARBITER_FEE })
    } else {
        Ok(())
    }
}

pub open spec fn addr_or(o: Option<CheckedAddr>, d: String) -> String {
    match o {
        Some(Ok(a)) => a,
        _ => d,
    }
}

/// The admin updates governance parameters, each within its bounds.
pub fn execute_update_config(state: &mut EscrowState, sender: &String, update: ConfigUpdate)
    -> (r: Result<(), EscrowError>)
    requires
        old(state).wf(),
    ensures
        r is Ok <==> update_config_check(*old(state), *sender, update) is Ok,
        r is Err ==> r->Err_0 == update_config_check(*old(state), *sender, update)->Err_0
            && *final(state) == *old(state),
        r is Ok ==> {
            let c = old(state).config;
            let n = final(state).config;
            &&& final(state).wf()
            &&& final(state).agreements == old(state).agreements
            &&& final(state).disputes == old(state).disputes
            &&& n.admin == c.admin
            &&& n.denom == c.denom
            &&& n.arbiter_dao == addr_or(update.arbiter_dao, c.arbiter_dao)
            &&& n.community_pool == addr_or(update.community_pool, c.community_pool)
            &&& n.provider_bond_ratio_bps == opt_or(update.provider_bond_ratio_bps, c.provider_bond_ratio_bps)
            &&& n.platform_fee_rate_bps == opt_or(update.platform_fee_rate_bps, c.platform_fee_rate_bps)
            &&& n.cancellation_fee_rate_bps == opt_or(update.cancellation_fee_rate_bps, c.cancellation_fee_rate_bps)
            &&& n.arbiter_fee_rate_bps == opt_or(update.arbiter_fee_rate_bps, c.arbiter_fee_rate_bps)
            &&& n.review_period_seconds == opt_or(update.review_period_seconds, c.review_period_seconds)
            &&& n.max_milestones == opt_or(update.max_milestones, c.max_milestones)
            &&& n.max_revisions == opt_or(update.max_revisions, c.max_revisions)
        },
{
    if *sender != state.config.admin {
        return Err(EscrowError::Unauthorized { action: Action::UpdateConfig });
    }
    let arbiter_dao = match &update.arbiter_dao {
        Some(a) => Some(checked_addr(a)?),
        None => None,
    };
    let community_pool = match &update.community_pool {
        Some(a) => Some(checked_addr(a)?),
        None => None,
    };
    if let Some(v) = update.provider_bond_ratio_bps {
        validate_bond_ratio(v)?;
    }
    if let Some(v) = update.platform_fee_rate_bps {
        validate_fee_rate(v, MIN_PLATFORM_FEE, MAX_PLATFORM_FEE, "platform")?;
    }
    if let Some(v) = update.cancellation_fee_rate_bps {
        validate_fee_rate(v, MIN_CANCEL_FEE, MAX_CANCEL_FEE, "cancellation")?;
    }
    if let Some(v) = update.arbiter_fee_rate_bps {
        validate_fee_rate(v, MIN_ARBITER_FEE, MAX_ARBITER_FEE, "arbiter")?;
    }
    let ghost old_state = *state;
    let c = &mut state.config;
    if let Some(a) = arbiter_dao {
        c.arbiter_dao = a;
    }
    if let Some(a) = community_pool {
        c.community_pool = a;
    }
    c.provider_bond_ratio_bps = match update.provider_bond_ratio_bps { Some(v) => v, None => c.provider_bond_ratio_bps };
    c.platform_fee_rate_bps = match update.platform_fee_rate_bps { Some(v) => v, None => c.platform_fee_rate_bps };
    c.cancellation_fee_rate_bps = match update.cancellation_fee_rate_bps {
        Some(v) => v,
        None => c.cancellation_fee_rate_bps,
    };
    c.arbiter_fee_rate_bps = match update.arbiter_fee_rate_bps { Some(v) => v, None => c.arbiter_fee_rate_bps };
    c.review_period_seconds = match update.review_period_seconds { Some(v) => v, None => c.review_period_seconds };
    c.max_milestones = match update.max_milestones { Some(v) => v, None => c.max_milestones };
    c.max_revisions = match update.max_revisions { Some(v) => v, None => c.max_revisions };
    proof {
        lemma_config_change_keeps_wf(old_state, *state);
    }
    Ok(())
}

/// Changing only the configuration, to a valid one, keeps the state well
/// formed.
#[verifier::spinoff_prover]
proof fn lemma_config_change_keeps_wf(old_state: EscrowState, s: EscrowState)
    requires
        old_state.wf(),
        s.config.wf(),
        s.agreements == old_state.agreements,
        s.disputes == old_state.disputes,
    ensures
        s.wf(),
{
    assert(s.agreements@ == old_state.agreements@);
    assert(s.disputes@ == old_state.disputes@);
    assert forall|i: int| 0 <= i < s.agreements.len() implies
        #[trigger] s.agreements[i].id == i + 1 && s.agreements[i].wf() by {
        assert(s.agreements[i] == old_state.agreements[i]);
    }
    assert forall|k: int| 0 <= k < s.disputes.len() implies
        1 <= (#[trigger] s.disputes[k]).agreement_id <= s.agreements.len()
            && s.disputes[k].milestone_index < s.agreements[s.disputes[k].agreement_id - 1].milestones.len() by {
        assert(s.disputes[k] == old_state.disputes[k]);
    }
    assert forall|k1: int, k2: int|
        0 <= k1 < s.disputes.len() && 0 <= k2 < s.disputes.len() && k1 != k2
        implies #[trigger] s.disputes[k1].agreement_id != #[trigger] s.disputes[k2].agreement_id by {
        assert(s.disputes[k1] == old_state.disputes[k1]);
        assert(s.disputes[k2] == old_state.disputes[k2]);
    }
}

// ── Queries ────────────────────────────────────────────────────────────

/// Which agreements a listing keeps.
pub enum AgreementFilter {
    Status(Option<AgreementStatus>),
    Client(String),
    Provider(String),
}

pub open spec fn agreement_matches(a: ServiceAgreement, f: AgreementFilter) -> bool {
    match f {
        AgreementFilter::Status(None) => true,
        AgreementFilter::Status(Some(st)) => a.status == st,
        AgreementFilter::Client(c) => a.client@ == c@,
        AgreementFilter::Provider(p) => a.provider@ == p@,
    }
}

/// The ids, in ascending order, of the agreements from index `i` on whose
/// id is at least `start` and that the filter keeps.
pub open spec fn matching_ids(s: Seq<ServiceAgreement>, i: int, start: int, f: AgreementFilter) -> Seq<u64>
    decreases s.len() - i,
{
    if i >= s.len() || i < 0 {
        Seq::empty()
    } else if s[i].id >= start && agreement_matches(s[i], f) {
        seq![s[i].id] + matching_ids(s, i + 1, start, f)
    } else {
        matching_ids(s, i + 1, start, f)
    }
}

/// The page size of a listing: the given limit or 10, at most 30.
pub open spec fn page_limit(limit: Option<u32>) -> int {
    let l = opt_or(limit, DEFAULT_QUERY_LIMIT);
    if l < MAX_QUERY_LIMIT { l as int } else { MAX_QUERY_LIMIT as int }
}

/// First id a listing may return.
pub open spec fn page_start(start_after: Option<u64>) -> int {
    match start_after {
        Some(s) => s + 1,
        None => 0,
    }
}

/// The first `n` elements of `s`, or all of them.
pub open spec fn first_n<T>(s: Seq<T>, n: int) -> Seq<T> {
    if n < s.len() { s.take(n) } else { s }
}

/// Ids of the agreements a listing returns, in ascending order: those after
/// `start_after` that the filter keeps, one page of them.
pub fn select_agreements(state: &EscrowState, f: &AgreementFilter, start_after: Option<u64>, limit: Option<u32>)
    -> (r: Vec<u64>)
    requires
        start_after != Some(u64::MAX),
    ensures
        r@ == first_n(matching_ids(state.agreements@, 0, page_start(start_after), *f), page_limit(limit)),
{
    let lim: usize = match limit {
        Some(l) => if l < MAX_QUERY_LIMIT { l as usize } else { MAX_QUERY_LIMIT as usize },
        None => DEFAULT_QUERY_LIMIT as usize,
    };
    let start: u64 = match start_after {
        Some(s) => s + 1,
        None => 0,
    };
    let ghost all = matching_ids(state.agreements@, 0, start as int, *f);
    let mut out: Vec<u64> = Vec::new();
    if lim == 0 {
        assert(out@ =~= first_n(all, 0));
        return out;
    }
    let mut i: usize = 0;
    loop
        invariant_except_break
            i <= state.agreements.len(),
            out@.len() < lim,
            all == out@ + matching_ids(state.agreements@, i as int, start as int, *f),
        invariant
            lim == page_limit(limit),
            start == page_start(start_after),
            all == matching_ids(state.agreements@, 0, start as int, *f),
        ensures
            out@ == first_n(all, lim as int),
        decreases state.agreements.len() - i,
    {
        if i >= state.agreements.len() {
            assert(all =~= out@);
            break;
        }
        let a = &state.agreements[i];
        let keep = a.id >= start && match f {
            AgreementFilter::Status(None) => true,
            AgreementFilter::Status(Some(st)) => a.status == *st,
            AgreementFilter::Client(c) => a.client == *c,
            AgreementFilter::Provider(p) => a.provider == *p,
        };
        if keep {
            out.push(a.id);
            assert(all =~= out@ + matching_ids(state.agreements@, i as int + 1, start as int, *f));
            if out.len() >= lim {
                assert(out@ =~= first_n(all, lim as int)) by {
                    assert(all.take(lim as int) =~= out@);
                }
                break;
            }
        } else {
            assert(all =~= out@ + matching_ids(state.agreements@, i as int + 1, start as int, *f));
        }
        i += 1;
    }
    out
}

/// Agreements by status (all when `None`), one page, in id order.
pub fn query_agreements(state: &EscrowState, status: Option<AgreementStatus>, start_after: Option<u64>, limit: Option<u32>)
    -> (r: Vec<u64>)
    requires
        start_after != Some(u64::MAX),
    ensures
        r@ == first_n(matching_ids(state.agreements@, 0, page_start(start_after), AgreementFilter::Status(status)), page_limit(limit)),
{
    select_agreements(state, &AgreementFilter::Status(status), start_after, limit)
}

/// Agreements of a client, one page, in id order.
pub fn query_agreements_by_client(state: &EscrowState, client: CheckedAddr, start_after: Option<u64>, limit: Option<u32>)
    -> (r: Result<Vec<u64>, EscrowError>)
    requires
        start_after != Some(u64::MAX),
    ensures
        client is Err ==> r == Err::<Vec<u64>, EscrowError>(EscrowError::InvalidAddress { address: client->Err_0 }),
        client matches Ok(c) ==> r matches Ok(ids) && ids@ == first_n(
            matching_ids(state.agreements@, 0, page_start(start_after), AgreementFilter::Client(c)),
            page_limit(limit),
        ),
{
    let c = checked_addr(&client)?;
    Ok(select_agreements(state, &AgreementFilter::Client(c), start_after, limit))
}

/// Agreements of a provider, one page, in id order.
pub fn query_agreements_by_provider(state: &EscrowState, provider: CheckedAddr, start_after: Option<u64>, limit: Option<u32>)
    -> (r: Result<Vec<u64>, EscrowError>)
    requires
        start_after != Some(u64::MAX),
    ensures
        provider is Err ==> r == Err::<Vec<u64>, EscrowError>(EscrowError::InvalidAddress { address: provider->Err_0 }),
        provider matches Ok(p) ==> r matches Ok(ids) && ids@ == first_n(
            matching_ids(state.agreements@, 0, page_start(start_after), AgreementFilter::Provider(p)),
            page_limit(limit),
        ),
{
    let p = checked_addr(&provider)?;
    Ok(select_agreements(state, &AgreementFilter::Provider(p), start_after, limit))
}

#[derive(Clone)]
pub struct EscrowBalance {
    pub agreement_id: u64,
    pub escrow_amount: u128,
    pub provider_bond: u128,
    pub total_released: u128,
    pub total_fees: u128,
    pub remaining_escrow: u128,
}

/// The escrow position of an agreement: what was escrowed, what was
/// released and charged, and what is left (never below zero).
pub fn query_escrow_balance(state: &EscrowState, agreement_id: u64) -> (r: Option<EscrowBalance>)
    ensures
        r is Some <==> state.has_agreement(agreement_id),
        r matches Some(b) ==> {
            let a = state.agreement(agreement_id);
            &&& b.agreement_id == agreement_id
            &&& b.escrow_amount == a.escrow_amount
            &&& b.provider_bond == a.provider_bond
            &&& b.total_released == a.total_released
            &&& b.total_fees == a.total_fees
            &&& b.remaining_escrow == sat_sub(sat_sub(a.escrow_amount as int, a.total_released as int), a.total_fees as int)
        },
{
    if agreement_id == 0 || agreement_id > state.agreements.len() as u64 {
        return None;
    }
    let a = &state.agreements[(agreement_id - 1) as usize];
    let after_release = if a.escrow_amount > a.total_released { a.escrow_amount - a.total_released } else { 0 };
    let remaining = if after_release > a.total_fees { after_release - a.total_fees } else { 0 };
    Some(EscrowBalance {
        agreement_id,
        escrow_amount: a.escrow_amount,
        provider_bond: a.provider_bond,
        total_released: a.total_released,
        total_fees: a.total_fees,
        remaining_escrow: remaining,
    })
}


// ── Laws ───────────────────────────────────────────────────────────────

/// Approving a milestone pays out exactly its payment: the provider's part
/// and the platform fee add up to it, and neither is negative.
pub proof fn law_approval_splits_payment(s: EscrowState, id: u64, index: u32)
    requires
        s.wf(),
        s.has_agreement(id),
        index < s.agreement(id).milestones.len(),
    ensures
        ({
            let (fee, paid, last, completion_fee) = approval_amounts(s, id, index);
            &&& fee + paid == s.agreement(id).milestones@[index as int].payment
            &&& 0 <= fee
            &&& 0 <= paid
        }),
{
    let payment = s.agreement(id).milestones@[index as int].payment as int;
    lemma_ratio_le(payment, s.config.platform_fee_rate_bps as int, 10_000);
}

/// Cancelling a funded agreement returns the whole escrow: the client's
/// refund and the cancellation fee add up to it.
pub proof fn law_cancel_refund_and_fee(s: EscrowState, id: u64)
    requires
        s.wf(),
        s.has_agreement(id),
    ensures
        ({
            let a = s.agreement(id);
            let fee = bps_of(a.escrow_amount as int, s.config.cancellation_fee_rate_bps as int);
            &&& 0 <= fee <= a.escrow_amount
            &&& (a.escrow_amount - fee) + fee == a.escrow_amount
        }),
{
    let a = s.agreement(id);
    lemma_ratio_le(a.escrow_amount as int, s.config.cancellation_fee_rate_bps as int, 10_000);
}

/// The provider bond of a new agreement is its bond ratio of the escrow,
/// between 5% and 25% of it.
pub proof fn law_bond_within_ratio_bounds(s: EscrowState, escrow: u128)
    requires
        s.wf(),
    ensures
        bps_of(escrow as int, MIN_BOND_RATIO as int)
            <= bps_of(escrow as int, s.config.provider_bond_ratio_bps as int)
            <= bps_of(escrow as int, MAX_BOND_RATIO as int),
{
    lemma_ratio_monotonic(escrow as int, MIN_BOND_RATIO as int, s.config.provider_bond_ratio_bps as int, 10_000);
    lemma_ratio_monotonic(escrow as int, s.config.provider_bond_ratio_bps as int, MAX_BOND_RATIO as int, 10_000);
}

/// Each dispute pays out once: a resolution leaves its agreement in
/// progress or completed, and an agreement in either state refuses any
/// further resolution, by anyone, so nothing more is sent for it.
pub proof fn law_dispute_paid_out_once(
    s: EscrowState,
    t: EscrowState,
    sender: String,
    id: u64,
    resolution: DisputeResolution,
    who: String,
    again: DisputeResolution,
)
    requires
        s.wf(),
        resolve_check(s, sender, id, resolution) is Ok,
        t.agreements@.len() == s.agreements@.len(),
        t.agreement(id).status == AgreementStatus::InProgress || t.agreement(id).status == AgreementStatus::Completed,
    ensures
        resolve_check(t, who, id, again) is Err,
{
}

/// The arbiter fee and, for an accepted split, the client's share never
/// exceed the disputed payment, and half the fee never exceeds the fee.
pub proof fn law_dispute_fee_within_payment(s: EscrowState, id: u64, resolution: DisputeResolution)
    requires
        s.wf(),
        s.has_agreement(id),
        s.has_dispute(id),
        resolution matches DisputeResolution::Split { client_percent } ==> client_percent < 100,
    ensures
        ({
            let (disputed, fee, client_share, half_fee) = dispute_amounts(s, id, resolution);
            &&& 0 <= fee <= disputed
            &&& 0 <= client_share <= disputed
            &&& 0 <= half_fee <= fee
        }),
{
    let k = dispute_index(s, id);
    let d = s.disputes[k];
    let a = s.agreement(id);
    let disputed = a.milestones@[d.milestone_index as int].payment as int;
    let fee = bps_of(disputed, s.config.arbiter_fee_rate_bps as int);
    lemma_ratio_le(disputed, s.config.arbiter_fee_rate_bps as int, 10_000);
    lemma_ratio_le(fee, 1, 2);
    match resolution {
        DisputeResolution::Split { client_percent } => {
            lemma_ratio_le(disputed, client_percent as int, 100);
        },
        _ => {},
    }
}

/// Sums over four consecutive lists of transfers.
proof fn lemma_amount_four(
    p1: Seq<TransferView>,
    p2: Seq<TransferView>,
    p3: Seq<TransferView>,
    p4: Seq<TransferView>,
    who: Seq<char>,
)
    ensures
        amount_sent(p1 + p2 + p3 + p4) == amount_sent(p1) + amount_sent(p2) + amount_sent(p3) + amount_sent(p4),
        amount_sent_to(p1 + p2 + p3 + p4, who)
            == amount_sent_to(p1, who) + amount_sent_to(p2, who) + amount_sent_to(p3, who) + amount_sent_to(p4, who),
{
    lemma_amount_sent_concat(p1, p2, who);
    lemma_amount_sent_concat(p1 + p2, p3, who);
    lemma_amount_sent_concat(p1 + p2 + p3, p4, who);
}

/// A dispute resolution pays out the funds it settles, to the right
/// parties, in terms of the disputed milestone's payment, the provider's
/// bond, the payments still held and the arbiter fee (the arbiter rate on
/// the disputed payment, halved between the sides on a split):
/// - the client wins: the client gets the payment less the fee, half the
///   bond and every payment still held; the pool gets the fee and the other
///   half of the bond; the provider gets nothing; in all, the disputed
///   payment, both halves of the bond and every payment still held;
/// - the provider wins: the provider gets the payment and the whole bond
///   less the fee, the pool the fee, the client nothing; in all, the
///   disputed payment and the whole bond;
/// - a split: the client gets its share less half the fee (never below
///   zero) and every payment still held; the provider gets the rest of the
///   payment and the whole bond less half the fee (never below zero), so at
///   least the bond less half the fee; the pool gets the fee; where neither
///   side's part is below half the fee, in all the disputed payment, the
///   whole bond and every payment still held, give or take the odd unit of
///   the halved fee.
/// Amounts to one party are stated where client, provider and pool differ.
pub proof fn law_resolution_pays_out_held_funds(s: EscrowState, sender: String, id: u64, resolution: DisputeResolution)
    requires
        s.wf(),
        resolve_check(s, sender, id, resolution) is Ok,
        resolve_fits(s, id, resolution),
    ensures
        ({
            let a = s.agreement(id);
            let pool = s.config.community_pool@;
            let d = s.disputes@[dispute_index(s, id)];
            let disputed = a.milestones@[d.milestone_index as int].payment as int;
            let bond = a.provider_bond as int;
            let held = sum_outstanding(a.milestones@);
            let fee = ratio(disputed, s.config.arbiter_fee_rate_bps as int, 10_000);
            let half = ratio(fee, 1, 2);
            let bond_half = ratio(bond, 1, 2);
            let ts = resolve_transfers(s, id, resolution);
            let distinct = a.client@ != a.provider@ && a.client@ != pool && a.provider@ != pool;
            &&& resolution == DisputeResolution::ClientWins ==> {
                &&& amount_sent(ts) == disputed + 2 * bond_half + held
                &&& distinct ==> amount_sent_to(ts, a.client@) == disputed - fee + bond_half + held
                &&& distinct ==> amount_sent_to(ts, pool) == fee + bond_half
                &&& distinct ==> amount_sent_to(ts, a.provider@) == 0
            }
            &&& resolution == DisputeResolution::ProviderWins ==> {
                &&& amount_sent(ts) == disputed + bond
                &&& distinct ==> amount_sent_to(ts, a.provider@) == disputed + bond - fee
                &&& distinct ==> amount_sent_to(ts, pool) == fee
                &&& distinct ==> amount_sent_to(ts, a.client@) == 0
            }
            &&& resolution matches DisputeResolution::Split { client_percent } ==> {
                let share = ratio(disputed, client_percent as int, 100);
                &&& amount_sent_to(ts, a.provider@) >= bond - half
                &&& share >= half && disputed - share + bond >= half
                    ==> amount_sent(ts) == disputed + bond + held + (fee - 2 * half)
                &&& distinct ==> amount_sent_to(ts, a.client@) == sat_sub(share, half) + held
                &&& distinct ==> amount_sent_to(ts, a.provider@) == sat_sub(disputed - share + bond, half)
                &&& distinct ==> amount_sent_to(ts, pool) == fee
            }
        }),
{
    let a = s.agreement(id);
    let k = dispute_index(s, id);
    assert(0 <= k < s.disputes.len() && s.disputes[k].agreement_id == id);
    let d = s.disputes@[k];
    assert(s.agreements[id - 1].id == id);
    assert(s.agreements[id - 1].wf());
    let idx = d.milestone_index as int;
    let disputed = a.milestones@[idx].payment as int;
    let bond = a.provider_bond as int;
    let held = sum_outstanding(a.milestones@);
    let cfg = s.config;
    law_dispute_fee_within_payment(s, id, resolution);
    lemma_outstanding_bounded(a.milestones@);
    let fee = ratio(disputed, cfg.arbiter_fee_rate_bps as int, 10_000);
    let half = ratio(fee, 1, 2);
    assert(half * 2 <= fee) by (nonlinear_arith)
        requires half == fee / 2, fee >= 0;
    assert(fee - 2 * half <= 1) by (nonlinear_arith)
        requires half == fee / 2, fee >= 0;
    let bond_half = ratio(bond, 1, 2);
    lemma_ratio_le(bond, 1, 2);
    let client = a.client@;
    let provider = a.provider@;
    let pool = cfg.community_pool@;
    match resolution {
        DisputeResolution::ClientWins => {
            let p1 = send_if(client, cfg.denom@, (disputed - fee) as u128);
            let p2 = send_if(client, cfg.denom@, bond_half as u128) + send_if(pool, cfg.denom@, bond_half as u128);
            let p3 = send_if(pool, cfg.denom@, fee as u128);
            let p4 = send_if(client, cfg.denom@, held as u128);
            let mid: Seq<TransferView> = if bond_half != 0 {
                seq![(client, cfg.denom@, bond_half as u128), (pool, cfg.denom@, bond_half as u128)]
            } else {
                Seq::empty()
            };
            assert(mid =~= p2);
            assert(resolve_transfers(s, id, resolution) == p1 + mid + p3 + p4);
            let ws = seq![client, provider, pool];
            assert forall|w: Seq<char>| #[trigger] ws.contains(w) implies {
                &&& amount_sent(p1 + mid + p3 + p4) == amount_sent(p1) + amount_sent(mid) + amount_sent(p3) + amount_sent(p4)
                &&& amount_sent_to(p1 + mid + p3 + p4, w)
                    == amount_sent_to(p1, w) + amount_sent_to(mid, w) + amount_sent_to(p3, w) + amount_sent_to(p4, w)
                &&& amount_sent(p1) == disputed - fee && amount_sent(mid) == 2 * bond_half
                &&& amount_sent(p3) == fee && amount_sent(p4) == held
                &&& amount_sent_to(p1, w) == if client == w { disputed - fee } else { 0 }
                &&& amount_sent_to(mid, w) == (if client == w { bond_half } else { 0 }) + (if pool == w { bond_half } else { 0 })
                &&& amount_sent_to(p3, w) == if pool == w { fee } else { 0 }
                &&& amount_sent_to(p4, w) == if client == w { held } else { 0 }
            } by {
                lemma_amount_four(p1, mid, p3, p4, w);
                lemma_amount_send_if(client, cfg.denom@, (disputed - fee) as u128, w);
                lemma_amount_send_if(client, cfg.denom@, bond_half as u128, w);
                lemma_amount_send_if(pool, cfg.denom@, bond_half as u128, w);
                lemma_amount_send_if(pool, cfg.denom@, fee as u128, w);
                lemma_amount_send_if(client, cfg.denom@, held as u128, w);
                lemma_amount_sent_concat(send_if(client, cfg.denom@, bond_half as u128),
                    send_if(pool, cfg.denom@, bond_half as u128), w);
            }
            assert(ws.contains(client) && ws[0] == client);
            assert(ws.contains(provider) && ws[1] == provider);
            assert(ws.contains(pool) && ws[2] == pool);
        },
        DisputeResolution::ProviderWins => {
            let p1 = send_if(provider, cfg.denom@, (disputed + bond - fee) as u128);
            let p2 = send_if(pool, cfg.denom@, fee as u128);
            let e = Seq::<TransferView>::empty();
            assert(resolve_transfers(s, id, resolution) =~= p1 + p2 + e + e);
            let ws = seq![client, provider, pool];
            assert forall|w: Seq<char>| #[trigger] ws.contains(w) implies {
                &&& amount_sent(p1 + p2 + e + e) == amount_sent(p1) + amount_sent(p2)
                &&& amount_sent_to(p1 + p2 + e + e, w) == amount_sent_to(p1, w) + amount_sent_to(p2, w)
                &&& amount_sent(p1) == disputed + bond - fee && amount_sent(p2) == fee
                &&& amount_sent_to(p1, w) == if provider == w { disputed + bond - fee } else { 0 }
                &&& amount_sent_to(p2, w) == if pool == w { fee } else { 0 }
            } by {
                lemma_amount_four(p1, p2, e, e, w);
                lemma_amount_send_if(provider, cfg.denom@, (disputed + bond - fee) as u128, w);
                lemma_amount_send_if(pool, cfg.denom@, fee as u128, w);
                lemma_amount_send_if(pool, cfg.denom@, 0, w);
                assert(send_if(pool, cfg.denom@, 0) == e);
            }
            assert(ws.contains(client) && ws[0] == client);
            assert(ws.contains(provider) && ws[1] == provider);
            assert(ws.contains(pool) && ws[2] == pool);
        },
        DisputeResolution::Split { client_percent } => {
            let share = ratio(disputed, client_percent as int, 100);
            let p1 = send_if(client, cfg.denom@, sat_sub(share, half) as u128);
            let p2 = send_if(provider, cfg.denom@, sat_sub(disputed - share + bond, half) as u128);
            let p3 = send_if(pool, cfg.denom@, fee as u128);
            let p4 = send_if(client, cfg.denom@, held as u128);
            assert(resolve_transfers(s, id, resolution) == p1 + p2 + p3 + p4);
            let ws = seq![client, provider, pool];
            assert forall|w: Seq<char>| #[trigger] ws.contains(w) implies {
                &&& amount_sent(p1 + p2 + p3 + p4) == amount_sent(p1) + amount_sent(p2) + amount_sent(p3) + amount_sent(p4)
                &&& amount_sent_to(p1 + p2 + p3 + p4, w)
                    == amount_sent_to(p1, w) + amount_sent_to(p2, w) + amount_sent_to(p3, w) + amount_sent_to(p4, w)
                &&& amount_sent(p1) == sat_sub(share, half) && amount_sent(p2) == sat_sub(disputed - share + bond, half)
                &&& amount_sent(p3) == fee && amount_sent(p4) == held
                &&& amount_sent_to(p1, w) == if client == w { sat_sub(share, half) } else { 0 }
                &&& amount_sent_to(p2, w) == if provider == w { sat_sub(disputed - share + bond, half) } else { 0 }
                &&& amount_sent_to(p3, w) == if pool == w { fee } else { 0 }
                &&& amount_sent_to(p4, w) == if client == w { held } else { 0 }
            } by {
                lemma_amount_four(p1, p2, p3, p4, w);
                lemma_amount_send_if(client, cfg.denom@, sat_sub(share, half) as u128, w);
                lemma_amount_send_if(provider, cfg.denom@, sat_sub(disputed - share + bond, half) as u128, w);
                lemma_amount_send_if(pool, cfg.denom@, fee as u128, w);
                lemma_amount_send_if(client, cfg.denom@, held as u128, w);
            }
            assert(ws.contains(client) && ws[0] == client);
            assert(ws.contains(provider) && ws[1] == provider);
            assert(ws.contains(pool) && ws[2] == pool);
        },
    }
}

/// Approving a milestone charges the platform fee rate on its payment and
/// pays the provider the rest; approving the last one also charges the
/// completion fee, which is the platform fee rate on the agreement's whole
/// escrow: the same whichever milestone is last, and never less than the
/// fee on any single milestone.
pub proof fn law_completion_fee_on_whole_escrow(s: EscrowState, id: u64, index: u32, other: u32)
    requires
        s.wf(),
        s.has_agreement(id),
        index < s.agreement(id).milestones.len(),
        other < s.agreement(id).milestones.len(),
    ensures
        ({
            let a = s.agreement(id);
            let rate = s.config.platform_fee_rate_bps as int;
            let payment = a.milestones@[index as int].payment as int;
            let (fee, paid, last, completion_fee) = approval_amounts(s, id, index);
            &&& fee == ratio(payment, rate, 10_000)
            &&& fee + paid == payment
            &&& 0 <= fee <= payment
            &&& last <==> index + 1 == a.milestones.len()
            &&& completion_fee == ratio(a.escrow_amount as int, rate, 10_000)
            &&& completion_fee == approval_amounts(s, id, other).3
            &&& completion_fee >= ratio(a.milestones@[other as int].payment as int, rate, 10_000)
        }),
{
    let a = s.agreement(id);
    assert(s.agreements[id - 1].id == id);
    assert(s.agreements[id - 1].wf());
    let rate = s.config.platform_fee_rate_bps as int;
    lemma_ratio_le(a.milestones@[index as int].payment as int, rate, 10_000);
    lemma_payment_bounded(a.milestones@, other as int);
    assert(0 <= rate * a.milestones@[other as int].payment <= rate * a.escrow_amount) by (nonlinear_arith)
        requires 0 <= rate, 0 <= a.milestones@[other as int].payment <= a.escrow_amount;
    assert(a.milestones@[other as int].payment * rate <= a.escrow_amount * rate) by (nonlinear_arith)
        requires 0 <= rate, 0 <= a.milestones@[other as int].payment <= a.escrow_amount;
    assert((a.milestones@[other as int].payment * rate) / 10_000 <= (a.escrow_amount * rate) / 10_000) by (nonlinear_arith)
        requires a.milestones@[other as int].payment * rate <= a.escrow_amount * rate;
}

// ── Names ──────────────────────────────────────────────────────────────

/// The name of an agreement status.
pub open spec fn agreement_status_label(v: AgreementStatus) -> Seq<char> {
    match v {
        AgreementStatus::Proposed => "Proposed"@,
        AgreementStatus::Funded => "Funded"@,
        AgreementStatus::InProgress => "InProgress"@,
        AgreementStatus::MilestoneReview => "MilestoneReview"@,
        AgreementStatus::Completed => "Completed"@,
        AgreementStatus::Disputed => "Disputed"@,
        AgreementStatus::Cancelled => "Cancelled"@,
    }
}

impl AgreementStatus {
    /// The variant's name, as it appears in messages and attributes.
    pub fn label(&self) -> (r: &'static str)
        ensures
            r@ == agreement_status_label(*self),
    {
        match self {
            AgreementStatus::Proposed => "Proposed",
            AgreementStatus::Funded => "Funded",
            AgreementStatus::InProgress => "InProgress",
            AgreementStatus::MilestoneReview => "MilestoneReview",
            AgreementStatus::Completed => "Completed",
            AgreementStatus::Disputed => "Disputed",
            AgreementStatus::Cancelled => "Cancelled",
        }
    }
}

/// The name of a milestone status.
pub open spec fn milestone_status_label(v: MilestoneStatus) -> Seq<char> {
    match v {
        MilestoneStatus::Pending => "Pending"@,
        MilestoneStatus::InProgress => "InProgress"@,
        MilestoneStatus::Submitted => "Submitted"@,
        MilestoneStatus::Approved => "Approved"@,
        MilestoneStatus::Disputed => "Disputed"@,
        MilestoneStatus::Revised => "Revised"@,
    }
}

impl MilestoneStatus {
    /// The variant's name, as it appears in messages and attributes.
    pub fn label(&self) -> (r: &'static str)
        ensures
            r@ == milestone_status_label(*self),
    {
        match self {
            MilestoneStatus::Pending => "Pending",
            MilestoneStatus::InProgress => "InProgress",
            MilestoneStatus::Submitted => "Submitted",
            MilestoneStatus::Approved => "Approved",
            MilestoneStatus::Disputed => "Disputed",
            MilestoneStatus::Revised => "Revised",
        }
    }
}

} // verus!
