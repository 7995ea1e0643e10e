//! Credit-class approval: a proposal with a deposit is scored by a registry
//! agent, voted on, and finalized with a full, partial or slashed refund.

use vstd::prelude::*;
use crate::money::{
    CheckedAddr, Coin, Transfer, TransferView, first_amount_of, find_amount, from_seconds,
    lemma_ratio_le, multiply_ratio, ratio, seconds, seconds_fit, send, send_if, send_nonzero,
    spec_seconds, tv,
};
use crate::paging::{cap_limit, capped_limit, first_n, kept_ids, page};

verus! {

pub const DEFAULT_QUERY_LIMIT: u32 = 10;
pub const MAX_QUERY_LIMIT: u32 = 30;
pub const DEFAULT_DEPOSIT: u128 = 1_000_000_000;
pub const DEFAULT_VOTING_PERIOD: u64 = 604_800;
pub const DEFAULT_AGENT_REVIEW_TIMEOUT: u64 = 86_400;
pub const DEFAULT_OVERRIDE_WINDOW: u64 = 21_600;
/// Share of the deposit kept on rejection, in basis points.
pub const REJECT_SLASH_BPS: u128 = 2000;
/// Share of the deposit kept on expiry, in basis points.
pub const EXPIRE_SLASH_BPS: u128 = 500;

#[derive(Clone)]
pub struct Config {
    pub admin: String,
    pub registry_agent: String,
    pub deposit_amount: u128,
    pub denom: String,
    pub voting_period_seconds: u64,
    pub agent_review_timeout_seconds: u64,
    pub override_window_seconds: u64,
}

#[derive(Clone, Copy, Debug, PartialEq, Eq, Structural)]
pub enum ProposalStatus {
    Draft,
    AgentReview,
    Voting,
    Approved,
    Rejected,
    Expired,
    AutoRejected,
}

#[derive(Clone, Copy, Debug, PartialEq, Eq, Structural)]
pub enum AgentRecommendation {
    Approve,
    Conditional,
    Reject,
}

#[derive(Clone)]
pub struct Proposal {
    pub id: u64,
    pub proposer: String,
    pub admin_address: String,
    pub credit_type: String,
    pub methodology_iri: String,
    pub status: ProposalStatus,
    pub deposit_amount: u128,
    pub created_at: u64,
    pub agent_score: Option<u32>,
    pub agent_confidence: Option<u32>,
    pub agent_recommendation: Option<AgentRecommendation>,
    pub agent_scored_at: Option<u64>,
    pub voting_ends_at: Option<u64>,
    pub yes_votes: u64,
    pub no_votes: u64,
    pub completed_at: Option<u64>,
}

/// A recorded vote.
#[derive(Clone)]
pub struct Vote {
    pub proposal_id: u64,
    pub voter: String,
    pub yes: bool,
}

pub struct InstantiateMsg {
    pub registry_agent: CheckedAddr,
    pub deposit_amount: Option<u128>,
    pub denom: Option<String>,
    pub voting_period_seconds: Option<u64>,
    pub agent_review_timeout_seconds: Option<u64>,
    pub override_window_seconds: Option<u64>,
}

/// Everything the contract stores: configuration, proposals by id
/// (proposal `i + 1` at index `i`) and the votes cast.
#[derive(Clone)]
pub struct VotingState {
    pub config: Config,
    pub proposals: Vec<Proposal>,
    pub votes: Vec<Vote>,
}

/// What a refused action needed.
#[derive(Clone, Copy, Debug, PartialEq, Eq, Structural)]
pub enum Expected {
    AgentReview,
    AutoRejected,
    Voting,
    VotingOrAutoRejected,
}

#[derive(Clone, Copy, Debug, PartialEq, Eq, Structural)]
pub enum Action {
    SubmitScore,
    OverrideReject,
    UpdateConfig,
}

/// How an agent score moved a proposal.
#[derive(Clone, Copy, Debug, PartialEq, Eq, Structural)]
pub enum ScoreOutcome {
    AutoAdvanceHighScore,
    AutoRejectLowScoreHighConfidence,
    AdvanceToVoting,
}

#[derive(Debug, PartialEq, Eq)]
pub enum VotingError {
    Unauthorized { action: Action },
    ProposalNotFound { id: u64 },
    InvalidStatus { expected: Expected, actual: ProposalStatus },
    /// An auto-rejected proposal carries no scoring time.
    ScoredAtMissing,
    /// The override window of an auto-rejected proposal is still open.
    OverrideWindowActive,
    InsufficientFunds { required: u128, sent: u128 },
    WrongDenom { expected: String, got: String },
    EmptyCreditType,
    EmptyMethodologyIri,
    InvalidAgentScore { score: u32 },
    InvalidAgentConfidence { confidence: u32 },
    VotingPeriodNotEnded,
    VotingPeriodEnded,
    AlreadyVoted { id: u64 },
    OverrideWindowExpired,
    InvalidAddress { address: String },
}

// ── Model ──────────────────────────────────────────────────────────────

/// Number of recorded votes on proposal `pid` with the given answer.
pub open spec fn count_votes(votes: Seq<Vote>, pid: u64, yes: bool) -> nat
    decreases votes.len(),
{
    if votes.len() == 0 {
        0
    } else {
        count_votes(votes.drop_last(), pid, yes) + if votes.last().proposal_id == pid && votes.last().yes == yes {
            1nat
        } else {
            0nat
        }
    }
}

pub proof fn lemma_count_votes_bounded(votes: Seq<Vote>, pid: u64)
    ensures
        count_votes(votes, pid, true) + count_votes(votes, pid, false) <= votes.len(),
    decreases votes.len(),
{
    if votes.len() > 0 {
        lemma_count_votes_bounded(votes.drop_last(), pid);
    }
}

pub proof fn lemma_count_votes_push(votes: Seq<Vote>, v: Vote, pid: u64, yes: bool)
    ensures
        count_votes(votes.push(v), pid, yes)
            == count_votes(votes, pid, yes) + if v.proposal_id == pid && v.yes == yes { 1nat } else { 0nat },
{
    assert(votes.push(v).drop_last() =~= votes);
}

/// Whether `voter` has voted on proposal `pid`.
pub open spec fn has_voted(votes: Seq<Vote>, pid: u64, voter: Seq<char>) -> bool {
    exists|k: int| 0 <= k < votes.len() && #[trigger] votes[k].proposal_id == pid && votes[k].voter@ == voter
}

/// A proposal's status and its times agree: under agent review or
/// auto-rejected it has no voting end, in voting it has one, and an
/// auto-rejected proposal was scored.
pub open spec fn phase_consistent(p: Proposal) -> bool {
    &&& (p.status == ProposalStatus::AgentReview || p.status == ProposalStatus::AutoRejected)
        ==> p.voting_ends_at is None
    &&& p.status == ProposalStatus::Voting ==> p.voting_ends_at is Some
    &&& p.status == ProposalStatus::AutoRejected ==> p.agent_scored_at is Some
}

impl VotingState {
    pub open spec fn wf(self) -> bool {
        &&& self.proposals.len() < u64::MAX
        &&& self.votes.len() < u64::MAX
        &&& forall|i: int|
            0 <= i < self.proposals.len() ==> {
                &&& #[trigger] self.proposals[i].id == i + 1
                &&& self.proposals[i].yes_votes == count_votes(self.votes@, (i + 1) as u64, true)
                &&& self.proposals[i].no_votes == count_votes(self.votes@, (i + 1) as u64, false)
                &&& phase_consistent(self.proposals[i])
            }
        &&& forall|k: int| 0 <= k < self.votes.len() ==> 1 <= #[trigger] self.votes[k].proposal_id <= self.proposals.len()
        &&& forall|k1: int, k2: int|
            0 <= k1 < self.votes.len() && 0 <= k2 < self.votes.len() && k1 != k2
                && #[trigger] self.votes[k1].proposal_id == #[trigger] self.votes[k2].proposal_id
                ==> self.votes[k1].voter@ != self.votes[k2].voter@
    }

    pub open spec fn has_proposal(self, id: u64) -> bool {
        1 <= id <= self.proposals.len()
    }

    pub open spec fn proposal(self, id: u64) -> Proposal {
        self.proposals[id - 1]
    }

    /// Only proposal `id` changed; the votes did not.
    pub open spec fn only_proposal_changed(self, old: VotingState, id: u64) -> bool {
        &&& self.config == old.config
        &&& self.votes == old.votes
        &&& self.proposals@ == old.proposals@.update(id - 1, self.proposals@[id - 1])
    }
}

impl Proposal {
    /// Same proposal, other lifecycle fields.
    pub open spec fn same_submission(self, p: Proposal) -> bool {
        &&& self.id == p.id
        &&& self.proposer == p.proposer
        &&& self.admin_address == p.admin_address
        &&& self.credit_type == p.credit_type
        &&& self.methodology_iri == p.methodology_iri
        &&& self.deposit_amount == p.deposit_amount
        &&& self.created_at == p.created_at
    }

    pub open spec fn same_scoring(self, p: Proposal) -> bool {
        &&& self.agent_score == p.agent_score
        &&& self.agent_confidence == p.agent_confidence
        &&& self.agent_recommendation == p.agent_recommendation
        &&& self.agent_scored_at == p.agent_scored_at
    }
}

/// The end of a voting period opened at `now`.
pub open spec fn voting_end(now: u64, period: u64) -> int {
    (spec_seconds(now) + period) * 1_000_000_000
}

fn checked_addr(a: &CheckedAddr) -> (r: Result<String, VotingError>)
    ensures
        match *a {
            Ok(s) => r == Ok::<String, VotingError>(s),
            Err(s) => r == Err::<String, VotingError>(VotingError::InvalidAddress { address: s }),
        },
{
    match a {
        Ok(s) => Ok(s.clone()),
        Err(s) => Err(VotingError::InvalidAddress { address: s.clone() }),
    }
}

pub open spec fn opt_or<T>(o: Option<T>, d: T) -> T {
    match o {
        Some(v) => v,
        None => d,
    }
}

// ── Instantiate ────────────────────────────────────────────────────────

/// Creates the contract state with the given or default parameters
/// (1000 REGEN deposit in uregen, 7-day vote, 24h review, 6h override).
pub fn instantiate(sender: &String, msg: InstantiateMsg) -> (r: Result<VotingState, VotingError>)
    ensures
        msg.registry_agent is Err ==> r == Err::<VotingState, VotingError>(
            VotingError::InvalidAddress { address: msg.registry_agent->Err_0 },
        ),
        msg.registry_agent is Ok ==> (r matches Ok(s) && {
            &&& s.wf()
            &&& s.proposals.len() == 0
            &&& s.votes.len() == 0
            &&& s.config.admin == *sender
            &&& s.config.registry_agent == msg.registry_agent->Ok_0
            &&& s.config.deposit_amount == opt_or(msg.deposit_amount, DEFAULT_DEPOSIT)
            &&& msg.denom is None ==> s.config.denom@ == "uregen"@
            &&& msg.denom is Some ==> s.config.denom == msg.denom->Some_0
            &&& s.config.voting_period_seconds == opt_or(msg.voting_period_seconds, DEFAULT_VOTING_PERIOD)
            &&& s.config.agent_review_timeout_seconds
                == opt_or(msg.agent_review_timeout_seconds, DEFAULT_AGENT_REVIEW_TIMEOUT)
            &&& s.config.override_window_seconds == opt_or(msg.override_window_seconds, DEFAULT_OVERRIDE_WINDOW)
        }),
{
    let registry_agent = checked_addr(&msg.registry_agent)?;
    let denom = match msg.denom {
        Some(d) => d,
        None => {
            let d = String::from_str("uregen");
            proof { reveal_strlit("uregen"); }
            d
        },
    };
    let config = Config {
        admin: sender.clone(),
        registry_agent,
        deposit_amount: match msg.deposit_amount { Some(v) => v, None => DEFAULT_DEPOSIT },
        denom,
        voting_period_seconds: match msg.voting_period_seconds { Some(v) => v, None => DEFAULT_VOTING_PERIOD },
        agent_review_timeout_seconds: match msg.agent_review_timeout_seconds {
            Some(v) => v,
            None => DEFAULT_AGENT_REVIEW_TIMEOUT,
        },
        override_window_seconds: match msg.override_window_seconds {
            Some(v) => v,
            None => DEFAULT_OVERRIDE_WINDOW,
        },
    };
    Ok(VotingState { config, proposals: Vec::new(), votes: Vec::new() })
}

// ── Submit ─────────────────────────────────────────────────────────────

/// The denomination of the first attached coin that is not `denom`.
pub open spec fn first_other_denom(funds: Seq<Coin>, denom: Seq<char>) -> Option<String>
    decreases funds.len(),
{
    if funds.len() == 0 {
        None
    } else if funds[0].denom@ != denom {
        Some(funds[0].denom)
    } else {
        first_other_denom(funds.drop_first(), denom)
    }
}

fn find_other_denom(funds: &Vec<Coin>, denom: &String) -> (r: Option<String>)
    ensures
        r == first_other_denom(funds@, denom@),
{
    let mut i: usize = 0;
    assert(funds@.skip(0) =~= funds@);
    while i < funds.len()
        invariant
            i <= funds.len(),
            first_other_denom(funds@, denom@) == first_other_denom(funds@.skip(i as int), denom@),
        decreases funds.len() - i,
    {
        assert(funds@.skip(i as int).drop_first() =~= funds@.skip(i as int + 1));
        if funds[i].denom != *denom {
            return Some(funds[i].denom.clone());
        }
        i += 1;
    }
    assert(funds@.skip(i as int) =~= Seq::<Coin>::empty());
    None
}

pub open spec fn sent_amount(funds: Seq<Coin>, denom: Seq<char>) -> u128 {
    match first_amount_of(funds, denom) {
        Some(a) => a,
        None => 0,
    }
}

pub open spec fn submit_check(
    s: VotingState,
    funds: Seq<Coin>,
    admin_address: CheckedAddr,
    credit_type: String,
    methodology_iri: String,
) -> Result<(), VotingError> {
    let sent = sent_amount(funds, s.config.denom@);
    if credit_type@.len() == 0 {
        Err(VotingError::EmptyCreditType)
    } else if methodology_iri@.len() == 0 {
        Err(VotingError::EmptyMethodologyIri)
    } else if sent < s.config.deposit_amount {
        Err(VotingError::InsufficientFunds { required: s.config.deposit_amount, sent })
    } else if first_other_denom(funds, s.config.denom@) is Some {
        Err(VotingError::WrongDenom {
            expected: s.config.denom,
            got: first_other_denom(funds, s.config.denom@)->Some_0,
        })
    } else if admin_address is Err {
        Err(VotingError::InvalidAddress { address: admin_address->Err_0 })
    } else {
        Ok(())
    }
}

/// Submits a credit-class proposal with the configured deposit; it goes to
/// agent review. Returns the new id.
pub fn execute_submit_proposal(
    state: &mut VotingState,
    sender: &String,
    now: u64,
    funds: &Vec<Coin>,
    admin_address: CheckedAddr,
    credit_type: String,
    methodology_iri: String,
) -> (r: Result<u64, VotingError>)
    requires
        old(state).wf(),
        old(state).proposals.len() + 1 < u64::MAX,
    ensures
        r is Ok <==> submit_check(*old(state), funds@, admin_address, credit_type, methodology_iri) is Ok,
        r is Err ==> r->Err_0 == submit_check(*old(state), funds@, admin_address, credit_type, methodology_iri)->Err_0
            && *final(state) == *old(state),
        r matches Ok(id) ==> {
            let n = old(state).proposals.len() as int;
            let p = final(state).proposals@[n];
            &&& final(state).wf()
            &&& final(state).config == old(state).config
            &&& final(state).votes == old(state).votes
            &&& final(state).proposals@.len() == n + 1
            &&& final(state).proposals@.take(n) == old(state).proposals@
            &&& id == n + 1
            &&& p.id == id
            &&& p.proposer == *sender
            &&& p.admin_address == admin_address->Ok_0
            &&& p.credit_type == credit_type
            &&& p.methodology_iri == methodology_iri
            &&& p.status == ProposalStatus::AgentReview
            &&& p.deposit_amount == old(state).config.deposit_amount
            &&& p.created_at == now
            &&& p.agent_score is None
            &&& p.agent_confidence is None
            &&& p.agent_recommendation is None
            &&& p.agent_scored_at is None
            &&& p.voting_ends_at is None
            &&& p.yes_votes == 0
            &&& p.no_votes == 0
            &&& p.completed_at is None
        },
{
    if credit_type.as_str().is_empty() {
        return Err(VotingError::EmptyCreditType);
    }
    if methodology_iri.as_str().is_empty() {
        return Err(VotingError::EmptyMethodologyIri);
    }
    let sent = match find_amount(funds, &state.config.denom) { Some(a) => a, None => 0 };
    if sent < state.config.deposit_amount {
        return Err(VotingError::InsufficientFunds { required: state.config.deposit_amount, sent });
    }
    if let Some(got) = find_other_denom(funds, &state.config.denom) {
        return Err(VotingError::WrongDenom { expected: state.config.denom.clone(), got });
    }
    let admin_addr = checked_addr(&admin_address)?;
    let id = state.proposals.len() as u64 + 1;
    let proposal = Proposal {
        id,
        proposer: sender.clone(),
        admin_address: admin_addr,
        credit_type,
        methodology_iri,
        status: ProposalStatus::AgentReview,
        deposit_amount: state.config.deposit_amount,
        created_at: now,
        agent_score: None,
        agent_confidence: None,
        agent_recommendation: None,
        agent_scored_at: None,
        voting_ends_at: None,
        yes_votes: 0,
        no_votes: 0,
        completed_at: None,
    };
    let ghost old_proposals = state.proposals@;
    state.proposals.push(proposal);
    proof {
        assert(state.proposals@.take(old_proposals.len() as int) =~= old_proposals);
        lemma_no_votes_for_new(state.votes@, id);
        assert forall|i: int| 0 <= i < state.proposals.len() implies {
            &&& #[trigger] state.proposals[i].id == i + 1
            &&& state.proposals[i].yes_votes == count_votes(state.votes@, (i + 1) as u64, true)
            &&& state.proposals[i].no_votes == count_votes(state.votes@, (i + 1) as u64, false)
        } by {
            if i < old_proposals.len() {
                assert(state.proposals[i] == old_proposals[i]);
            }
        }
    }
    Ok(id)
}

/// No vote is counted for a proposal that no vote names.
proof fn lemma_no_votes_for_new(votes: Seq<Vote>, id: u64)
    requires
        forall|k: int| 0 <= k < votes.len() ==> #[trigger] votes[k].proposal_id < id,
    ensures
        count_votes(votes, id, true) == 0,
        count_votes(votes, id, false) == 0,
    decreases votes.len(),
{
    if votes.len() > 0 {
        assert forall|k: int| 0 <= k < votes.drop_last().len() implies #[trigger] votes.drop_last()[k].proposal_id < id by {
            assert(votes.drop_last()[k] == votes[k]);
        }
        lemma_no_votes_for_new(votes.drop_last(), id);
    }
}


// ── Agent review ───────────────────────────────────────────────────────

/// Closes a transition that replaced proposal `id` in place, keeping its
/// submission fields and its tallies.
proof fn close_replace(old: VotingState, new: VotingState, id: u64)
    requires
        old.wf(),
        old.has_proposal(id),
        new.config == old.config,
        new.votes == old.votes,
        new.proposals@.len() == old.proposals@.len(),
        forall|j: int| 0 <= j < old.proposals.len() && j != id - 1 ==> new.proposals@[j] == old.proposals@[j],
        new.proposals@[id - 1].same_submission(old.proposals@[id - 1]),
        new.proposals@[id - 1].yes_votes == old.proposals@[id - 1].yes_votes,
        new.proposals@[id - 1].no_votes == old.proposals@[id - 1].no_votes,
        phase_consistent(new.proposals@[id - 1]),
    ensures
        new.wf(),
        new.only_proposal_changed(old, id),
{
    assert(new.proposals@ =~= old.proposals@.update(id - 1, new.proposals@[id - 1]));
    assert forall|i: int| 0 <= i < new.proposals.len() implies {
        &&& #[trigger] new.proposals[i].id == i + 1
        &&& new.proposals[i].yes_votes == count_votes(new.votes@, (i + 1) as u64, true)
        &&& new.proposals[i].no_votes == count_votes(new.votes@, (i + 1) as u64, false)
        &&& phase_consistent(new.proposals[i])
    } by {
        assert(old.proposals[i].id == i + 1);
    }
}

pub fn load_proposal(state: &VotingState, id: u64) -> (r: Result<usize, VotingError>)
    ensures
        r is Ok <==> state.has_proposal(id),
        r matches Ok(i) ==> i == id - 1,
        r is Err ==> r == Err::<usize, VotingError>(VotingError::ProposalNotFound { id }),
{
    if id == 0 || id > state.proposals.len() as u64 {
        return Err(VotingError::ProposalNotFound { id });
    }
    Ok((id - 1) as usize)
}

pub open spec fn score_check(s: VotingState, sender: String, id: u64, score: u32, confidence: u32)
    -> Result<ScoreOutcome, VotingError> {
    if sender@ != s.config.registry_agent@ {
        Err(VotingError::Unauthorized { action: Action::SubmitScore })
    } else if score > 1000 {
        Err(VotingError::InvalidAgentScore { score })
    } else if confidence > 1000 {
        Err(VotingError::InvalidAgentConfidence { confidence })
    } else if !s.has_proposal(id) {
        Err(VotingError::ProposalNotFound { id })
    } else if s.proposal(id).status != ProposalStatus::AgentReview {
        Err(VotingError::InvalidStatus { expected: Expected::AgentReview, actual: s.proposal(id).status })
    } else if score >= 700 {
        Ok(ScoreOutcome::AutoAdvanceHighScore)
    } else if score < 300 && confidence > 900 {
        Ok(ScoreOutcome::AutoRejectLowScoreHighConfidence)
    } else {
        Ok(ScoreOutcome::AdvanceToVoting)
    }
}

/// The registry agent scores a proposal under review: a score of 700 or
/// more, or any score that is not both under 300 and held with confidence
/// over 900, opens the vote; otherwise the proposal is auto-rejected.
pub fn execute_submit_agent_score(
    state: &mut VotingState,
    sender: &String,
    now: u64,
    proposal_id: u64,
    score: u32,
    confidence: u32,
    recommendation: AgentRecommendation,
) -> (r: Result<ScoreOutcome, VotingError>)
    requires
        old(state).wf(),
        score_check(*old(state), *sender, proposal_id, score, confidence) is Ok
            && score_check(*old(state), *sender, proposal_id, score, confidence)
                != Ok::<ScoreOutcome, VotingError>(ScoreOutcome::AutoRejectLowScoreHighConfidence)
            ==> seconds_fit(spec_seconds(now) + old(state).config.voting_period_seconds),
    ensures
        r == score_check(*old(state), *sender, proposal_id, score, confidence),
        r is Err ==> *final(state) == *old(state),
        r matches Ok(outcome) ==> {
            let p = old(state).proposal(proposal_id);
            let q = final(state).proposal(proposal_id);
            let rejected = outcome == ScoreOutcome::AutoRejectLowScoreHighConfidence;
            &&& final(state).wf()
            &&& final(state).only_proposal_changed(*old(state), proposal_id)
            &&& q.same_submission(p)
            &&& q.agent_score == Some(score)
            &&& q.agent_confidence == Some(confidence)
            &&& q.agent_recommendation == Some(recommendation)
            &&& q.agent_scored_at == Some(now)
            &&& q.yes_votes == p.yes_votes
            &&& q.no_votes == p.no_votes
            &&& q.completed_at == p.completed_at
            &&& rejected ==> q.status == ProposalStatus::AutoRejected && q.voting_ends_at == p.voting_ends_at
            &&& !rejected ==> q.status == ProposalStatus::Voting
                && q.voting_ends_at == Some(voting_end(now, old(state).config.voting_period_seconds) as u64)
        },
{
    if *sender != state.config.registry_agent {
        return Err(VotingError::Unauthorized { action: Action::SubmitScore });
    }
    if score > 1000 {
        return Err(VotingError::InvalidAgentScore { score });
    }
    if confidence > 1000 {
        return Err(VotingError::InvalidAgentConfidence { confidence });
    }
    let i = load_proposal(state, proposal_id)?;
    if state.proposals[i].status != ProposalStatus::AgentReview {
        return Err(VotingError::InvalidStatus { expected: Expected::AgentReview, actual: state.proposals[i].status });
    }
    state.proposals[i].agent_score = Some(score);
    state.proposals[i].agent_confidence = Some(confidence);
    state.proposals[i].agent_recommendation = Some(recommendation);
    state.proposals[i].agent_scored_at = Some(now);
    let outcome = if score >= 700 {
        state.proposals[i].status = ProposalStatus::Voting;
        state.proposals[i].voting_ends_at = Some(from_seconds(seconds(now) + state.config.voting_period_seconds));
        ScoreOutcome::AutoAdvanceHighScore
    } else if score < 300 && confidence > 900 {
        state.proposals[i].status = ProposalStatus::AutoRejected;
        ScoreOutcome::AutoRejectLowScoreHighConfidence
    } else {
        state.proposals[i].status = ProposalStatus::Voting;
        state.proposals[i].voting_ends_at = Some(from_seconds(seconds(now) + state.config.voting_period_seconds));
        ScoreOutcome::AdvanceToVoting
    };
    proof { close_replace(*old(state), *state, proposal_id); }
    Ok(outcome)
}

/// The end, in whole seconds, of the override window after scoring.
pub open spec fn override_window_end(p: Proposal, window: u64) -> int {
    spec_seconds(p.agent_scored_at->Some_0) + window
}

pub open spec fn override_check(s: VotingState, sender: String, now: u64, id: u64) -> Result<(), VotingError> {
    if sender@ != s.config.admin@ {
        Err(VotingError::Unauthorized { action: Action::OverrideReject })
    } else if !s.has_proposal(id) {
        Err(VotingError::ProposalNotFound { id })
    } else {
        let p = s.proposal(id);
        if p.status != ProposalStatus::AutoRejected {
            Err(VotingError::InvalidStatus { expected: Expected::AutoRejected, actual: p.status })
        } else if p.agent_scored_at is None {
            Err(VotingError::ScoredAtMissing)
        } else if spec_seconds(now) > override_window_end(p, s.config.override_window_seconds) {
            Err(VotingError::OverrideWindowExpired)
        } else {
            Ok(())
        }
    }
}

/// The admin reopens an auto-rejected proposal for voting within the
/// override window.
pub fn execute_override_agent_reject(state: &mut VotingState, sender: &String, now: u64, proposal_id: u64)
    -> (r: Result<(), VotingError>)
    requires
        old(state).wf(),
        old(state).has_proposal(proposal_id) && old(state).proposal(proposal_id).agent_scored_at is Some
            ==> override_window_end(old(state).proposal(proposal_id), old(state).config.override_window_seconds) <= u64::MAX,
        override_check(*old(state), *sender, now, proposal_id) is Ok
            ==> seconds_fit(spec_seconds(now) + old(state).config.voting_period_seconds),
    ensures
        r == override_check(*old(state), *sender, now, proposal_id),
        r is Err ==> *final(state) == *old(state),
        r is Ok ==> {
            let p = old(state).proposal(proposal_id);
            let q = final(state).proposal(proposal_id);
            &&& final(state).wf()
            &&& final(state).only_proposal_changed(*old(state), proposal_id)
            &&& q.same_submission(p) && q.same_scoring(p)
            &&& q.status == ProposalStatus::Voting
            &&& q.voting_ends_at == Some(voting_end(now, old(state).config.voting_period_seconds) as u64)
            &&& q.yes_votes == p.yes_votes && q.no_votes == p.no_votes
            &&& q.completed_at == p.completed_at
        },
{
    if *sender != state.config.admin {
        return Err(VotingError::Unauthorized { action: Action::OverrideReject });
    }
    let i = load_proposal(state, proposal_id)?;
    if state.proposals[i].status != ProposalStatus::AutoRejected {
        return Err(VotingError::InvalidStatus { expected: Expected::AutoRejected, actual: state.proposals[i].status });
    }
    let scored_at = match state.proposals[i].agent_scored_at {
        Some(t) => t,
        None => { return Err(VotingError::ScoredAtMissing); },
    };
    let window_end = seconds(scored_at) + state.config.override_window_seconds;
    if seconds(now) > window_end {
        return Err(VotingError::OverrideWindowExpired);
    }
    state.proposals[i].status = ProposalStatus::Voting;
    state.proposals[i].voting_ends_at = Some(from_seconds(seconds(now) + state.config.voting_period_seconds));
    proof { close_replace(*old(state), *state, proposal_id); }
    Ok(())
}

// ── Voting ─────────────────────────────────────────────────────────────

pub open spec fn vote_check(s: VotingState, sender: String, now: u64, id: u64) -> Result<(), VotingError> {
    if !s.has_proposal(id) {
        Err(VotingError::ProposalNotFound { id })
    } else {
        let p = s.proposal(id);
        if p.status != ProposalStatus::Voting {
            Err(VotingError::InvalidStatus { expected: Expected::Voting, actual: p.status })
        } else if p.voting_ends_at is Some && spec_seconds(now) > spec_seconds(p.voting_ends_at->Some_0) {
            Err(VotingError::VotingPeriodEnded)
        } else if has_voted(s.votes@, id, sender@) {
            Err(VotingError::AlreadyVoted { id })
        } else {
            Ok(())
        }
    }
}

fn find_vote(votes: &Vec<Vote>, proposal_id: u64, voter: &String) -> (r: bool)
    ensures
        r == has_voted(votes@, proposal_id, voter@),
{
    let mut k: usize = 0;
    while k < votes.len()
        invariant
            k <= votes.len(),
            forall|j: int| 0 <= j < k ==> !(#[trigger] votes@[j].proposal_id == proposal_id && votes@[j].voter@ == voter@),
        decreases votes.len() - k,
    {
        if votes[k].proposal_id == proposal_id && votes[k].voter == *voter {
            return true;
        }
        k += 1;
    }
    false
}

/// Records a vote on a proposal in its voting period, once per voter, and
/// adds it to the tally. Returns the yes and no tallies.
pub fn execute_cast_vote(state: &mut VotingState, sender: &String, now: u64, proposal_id: u64, vote_yes: bool)
    -> (r: Result<(u64, u64), VotingError>)
    requires
        old(state).wf(),
        old(state).votes.len() + 1 < u64::MAX,
    ensures
        r is Ok <==> vote_check(*old(state), *sender, now, proposal_id) is Ok,
        r is Err ==> r->Err_0 == vote_check(*old(state), *sender, now, proposal_id)->Err_0
            && *final(state) == *old(state),
        r matches Ok((yes, no)) ==> {
            let p = old(state).proposal(proposal_id);
            let q = final(state).proposal(proposal_id);
            let n = old(state).votes.len() as int;
            &&& final(state).wf()
            &&& final(state).config == old(state).config
            &&& final(state).proposals@ == old(state).proposals@.update(proposal_id - 1, q)
            &&& final(state).votes@.len() == n + 1
            &&& final(state).votes@.take(n) == old(state).votes@
            &&& final(state).votes@[n].proposal_id == proposal_id
            &&& final(state).votes@[n].voter == *sender
            &&& final(state).votes@[n].yes == vote_yes
            &&& q.same_submission(p) && q.same_scoring(p)
            &&& q.status == p.status && q.voting_ends_at == p.voting_ends_at && q.completed_at == p.completed_at
            &&& q.yes_votes == p.yes_votes + (if vote_yes { 1int } else { 0 })
            &&& q.no_votes == p.no_votes + (if vote_yes { 0int } else { 1 })
            &&& yes == q.yes_votes && no == q.no_votes
        },
{
    let i = load_proposal(state, proposal_id)?;
    if state.proposals[i].status != ProposalStatus::Voting {
        return Err(VotingError::InvalidStatus { expected: Expected::Voting, actual: state.proposals[i].status });
    }
    if let Some(ends_at) = state.proposals[i].voting_ends_at {
        if seconds(now) > seconds(ends_at) {
            return Err(VotingError::VotingPeriodEnded);
        }
    }
    if find_vote(&state.votes, proposal_id, sender) {
        return Err(VotingError::AlreadyVoted { id: proposal_id });
    }
    let ghost old_state = *state;
    let v = Vote { proposal_id, voter: sender.clone(), yes: vote_yes };
    proof {
        lemma_count_votes_bounded(state.votes@, proposal_id);
        assert(state.proposals[i as int].id == i + 1);
    }
    state.votes.push(v);
    if vote_yes {
        state.proposals[i].yes_votes = state.proposals[i].yes_votes + 1;
    } else {
        state.proposals[i].no_votes = state.proposals[i].no_votes + 1;
    }
    proof {
        let nv = state.votes@[old_state.votes.len() as int];
        assert(state.votes@ =~= old_state.votes@.push(nv));
        assert(state.votes@.take(old_state.votes.len() as int) =~= old_state.votes@);
        assert(state.proposals@ =~= old_state.proposals@.update(proposal_id - 1, state.proposals@[i as int]));
        assert forall|j: int| 0 <= j < state.proposals.len() implies {
            &&& #[trigger] state.proposals[j].id == j + 1
            &&& state.proposals[j].yes_votes == count_votes(state.votes@, (j + 1) as u64, true)
            &&& state.proposals[j].no_votes == count_votes(state.votes@, (j + 1) as u64, false)
        } by {
            assert(old_state.proposals[j].id == j + 1);
            lemma_count_votes_push(old_state.votes@, nv, (j + 1) as u64, true);
            lemma_count_votes_push(old_state.votes@, nv, (j + 1) as u64, false);
        }
        assert forall|k: int| 0 <= k < state.votes.len() implies 1 <= #[trigger] state.votes[k].proposal_id <= state.proposals.len() by {
            if k < old_state.votes.len() {
                assert(state.votes[k] == old_state.votes[k]);
            }
        }
        assert forall|k1: int, k2: int|
            0 <= k1 < state.votes.len() && 0 <= k2 < state.votes.len() && k1 != k2
                && #[trigger] state.votes[k1].proposal_id == #[trigger] state.votes[k2].proposal_id
            implies state.votes[k1].voter@ != state.votes[k2].voter@ by {
            let n = old_state.votes.len() as int;
            if k1 < n && k2 < n {
                assert(state.votes[k1] == old_state.votes[k1]);
                assert(state.votes[k2] == old_state.votes[k2]);
            } else if k1 < n {
                assert(state.votes[k1] == old_state.votes[k1]);
                assert(!(old_state.votes[k1].proposal_id == proposal_id && old_state.votes[k1].voter@ == sender@));
            } else {
                assert(state.votes[k2] == old_state.votes[k2]);
                assert(!(old_state.votes[k2].proposal_id == proposal_id && old_state.votes[k2].voter@ == sender@));
            }
        }
    }
    Ok((state.proposals[i].yes_votes, state.proposals[i].no_votes))
}

// ── Finalize ───────────────────────────────────────────────────────────

pub open spec fn finalize_check(s: VotingState, now: u64, id: u64) -> Result<ProposalStatus, VotingError> {
    if !s.has_proposal(id) {
        Err(VotingError::ProposalNotFound { id })
    } else {
        let p = s.proposal(id);
        match p.status {
            ProposalStatus::Voting =>
                if p.voting_ends_at is Some && spec_seconds(now) <= spec_seconds(p.voting_ends_at->Some_0) {
                    Err(VotingError::VotingPeriodNotEnded)
                } else if p.yes_votes + p.no_votes == 0 {
                    Ok(ProposalStatus::Expired)
                } else if p.yes_votes > p.no_votes {
                    Ok(ProposalStatus::Approved)
                } else {
                    Ok(ProposalStatus::Rejected)
                },
            ProposalStatus::AutoRejected =>
                if p.agent_scored_at is None {
                    Err(VotingError::ScoredAtMissing)
                } else if spec_seconds(now) <= override_window_end(p, s.config.override_window_seconds) {
                    Err(VotingError::OverrideWindowActive)
                } else {
                    Ok(ProposalStatus::Rejected)
                },
            _ => Err(VotingError::InvalidStatus { expected: Expected::VotingOrAutoRejected, actual: p.status }),
        }
    }
}

/// The part of a deposit refunded for a final status: all of it on
/// approval, less 20% on rejection, less 5% on expiry.
pub open spec fn refund_for(deposit: u128, status: ProposalStatus) -> int {
    match status {
        ProposalStatus::Approved => deposit as int,
        ProposalStatus::Expired => deposit - ratio(deposit as int, EXPIRE_SLASH_BPS as int, 10_000),
        _ => deposit - ratio(deposit as int, REJECT_SLASH_BPS as int, 10_000),
    }
}

/// Finalizes a proposal after its vote (more yes than no votes approves, no
/// votes at all expires, otherwise rejects) or after the override window
/// of an auto-rejection (rejects). The proposer gets the refund for the
/// final status; the slashed part stays with the contract.
pub fn execute_finalize_proposal(state: &mut VotingState, now: u64, proposal_id: u64)
    -> (r: Result<Vec<Transfer>, VotingError>)
    requires
        old(state).wf(),
        old(state).has_proposal(proposal_id) && old(state).proposal(proposal_id).agent_scored_at is Some
            ==> override_window_end(old(state).proposal(proposal_id), old(state).config.override_window_seconds) <= u64::MAX,
    ensures
        r is Ok <==> finalize_check(*old(state), now, proposal_id) is Ok,
        r is Err ==> r->Err_0 == finalize_check(*old(state), now, proposal_id)->Err_0
            && *final(state) == *old(state),
        r matches Ok(transfers) ==> {
            let p = old(state).proposal(proposal_id);
            let q = final(state).proposal(proposal_id);
            let status = finalize_check(*old(state), now, proposal_id)->Ok_0;
            let refund = refund_for(p.deposit_amount, status);
            &&& final(state).wf()
            &&& final(state).only_proposal_changed(*old(state), proposal_id)
            &&& q.same_submission(p) && q.same_scoring(p)
            &&& q.voting_ends_at == p.voting_ends_at
            &&& q.yes_votes == p.yes_votes && q.no_votes == p.no_votes
            &&& q.status == status
            &&& q.completed_at == Some(now)
            &&& status == ProposalStatus::Approved ==>
                tv(transfers@) == seq![(p.proposer@, old(state).config.denom@, p.deposit_amount)]
            &&& status != ProposalStatus::Approved ==>
                tv(transfers@) == send_if(p.proposer@, old(state).config.denom@, refund as u128)
        },
{
    let i = load_proposal(state, proposal_id)?;
    let deposit = state.proposals[i].deposit_amount;
    let proposer = state.proposals[i].proposer.clone();
    let denom = state.config.denom.clone();
    let mut messages: Vec<Transfer> = Vec::new();
    proof {
        assert(state.proposals[i as int].id == i + 1);
        lemma_count_votes_bounded(state.votes@, proposal_id);
        lemma_ratio_le(deposit as int, EXPIRE_SLASH_BPS as int, 10_000);
        lemma_ratio_le(deposit as int, REJECT_SLASH_BPS as int, 10_000);
    }
    match state.proposals[i].status {
        ProposalStatus::Voting => {
            if let Some(ends_at) = state.proposals[i].voting_ends_at {
                if seconds(now) <= seconds(ends_at) {
                    return Err(VotingError::VotingPeriodNotEnded);
                }
            }
            let total_votes = state.proposals[i].yes_votes + state.proposals[i].no_votes;
            if total_votes == 0 {
                let slash = multiply_ratio(deposit, EXPIRE_SLASH_BPS, 10_000);
                let refund = deposit - slash;
                state.proposals[i].status = ProposalStatus::Expired;
                state.proposals[i].completed_at = Some(now);
                send_nonzero(&mut messages, &proposer, &denom, refund);
            } else if state.proposals[i].yes_votes > state.proposals[i].no_votes {
                state.proposals[i].status = ProposalStatus::Approved;
                state.proposals[i].completed_at = Some(now);
                send(&mut messages, &proposer, &denom, deposit);
            } else {
                let slash = multiply_ratio(deposit, REJECT_SLASH_BPS, 10_000);
                let refund = deposit - slash;
                state.proposals[i].status = ProposalStatus::Rejected;
                state.proposals[i].completed_at = Some(now);
                send_nonzero(&mut messages, &proposer, &denom, refund);
            }
        },
        ProposalStatus::AutoRejected => {
            let scored_at = match state.proposals[i].agent_scored_at {
                Some(t) => t,
                None => { return Err(VotingError::ScoredAtMissing); },
            };
            let window_end = seconds(scored_at) + state.config.override_window_seconds;
            if seconds(now) <= window_end {
                return Err(VotingError::OverrideWindowActive);
            }
            let slash = multiply_ratio(deposit, REJECT_SLASH_BPS, 10_000);
            let refund = deposit - slash;
            state.proposals[i].status = ProposalStatus::Rejected;
            state.proposals[i].completed_at = Some(now);
            send_nonzero(&mut messages, &proposer, &denom, refund);
        },
        _ => {
            return Err(VotingError::InvalidStatus {
                expected: Expected::VotingOrAutoRejected,
                actual: state.proposals[i].status,
            });
        },
    }
    proof { close_replace(*old(state), *state, proposal_id); }
    Ok(messages)
}

// ── Configuration and queries ──────────────────────────────────────────

pub struct ConfigUpdate {
    pub registry_agent: Option<CheckedAddr>,
    pub deposit_amount: Option<u128>,
    pub voting_period_seconds: Option<u64>,
    pub agent_review_timeout_seconds: Option<u64>,
    pub override_window_seconds: Option<u64>,
}

/// The admin replaces any of the parameters.
pub fn execute_update_config(state: &mut VotingState, sender: &String, update: ConfigUpdate)
    -> (r: Result<(), VotingError>)
    requires
        old(state).wf(),
    ensures
        sender@ != old(state).config.admin@ ==> r == Err::<(), VotingError>(
            VotingError::Unauthorized { action: Action::UpdateConfig },
        ),
        sender@ == old(state).config.admin@ && update.registry_agent is Some && update.registry_agent->Some_0 is Err
            ==> r == Err::<(), VotingError>(
                VotingError::InvalidAddress { address: update.registry_agent->Some_0->Err_0 },
            ),
        r is Ok <==> sender@ == old(state).config.admin@
            && !(update.registry_agent is Some && update.registry_agent->Some_0 is Err),
        r is Err ==> *final(state) == *old(state),
        r is Ok ==> {
            let c = old(state).config;
            let n = final(state).config;
            &&& final(state).wf()
            &&& final(state).proposals == old(state).proposals
            &&& final(state).votes == old(state).votes
            &&& n.admin == c.admin
            &&& n.denom == c.denom
            &&& n.registry_agent == (match update.registry_agent { Some(Ok(a)) => a, _ => c.registry_agent })
            &&& n.deposit_amount == opt_or(update.deposit_amount, c.deposit_amount)
            &&& n.voting_period_seconds == opt_or(update.voting_period_seconds, c.voting_period_seconds)
            &&& n.agent_review_timeout_seconds == opt_or(update.agent_review_timeout_seconds, c.agent_review_timeout_seconds)
            &&& n.override_window_seconds == opt_or(update.override_window_seconds, c.override_window_seconds)
        },
{
    if *sender != state.config.admin {
        return Err(VotingError::Unauthorized { action: Action::UpdateConfig });
    }
    if let Some(a) = &update.registry_agent {
        let agent = checked_addr(a)?;
        state.config.registry_agent = agent;
    }
    let c = &mut state.config;
    c.deposit_amount = match update.deposit_amount { Some(v) => v, None => c.deposit_amount };
    c.voting_period_seconds = match update.voting_period_seconds { Some(v) => v, None => c.voting_period_seconds };
    c.agent_review_timeout_seconds = match update.agent_review_timeout_seconds {
        Some(v) => v,
        None => c.agent_review_timeout_seconds,
    };
    c.override_window_seconds = match update.override_window_seconds { Some(v) => v, None => c.override_window_seconds };
    assert(state.proposals == old(state).proposals && state.votes == old(state).votes);
    Ok(())
}

/// Which proposals a listing keeps.
pub enum ProposalFilter {
    Status(Option<ProposalStatus>),
    Admin(String),
}

pub open spec fn proposal_matches(p: Proposal, f: ProposalFilter) -> bool {
    match f {
        ProposalFilter::Status(None) => true,
        ProposalFilter::Status(Some(st)) => p.status == st,
        ProposalFilter::Admin(a) => p.admin_address@ == a@,
    }
}

pub open spec fn proposal_ids(s: Seq<Proposal>) -> Seq<u64> {
    s.map_values(|p: Proposal| p.id)
}

pub open spec fn proposal_flags(s: Seq<Proposal>, f: ProposalFilter) -> Seq<bool> {
    s.map_values(|p: Proposal| proposal_matches(p, f))
}

/// The proposals a listing returns, by id: those after `start_after` that
/// the filter keeps, at most `limit` (default 10, at most 30).
pub open spec fn listed(s: Seq<Proposal>, f: ProposalFilter, start_after: Option<u64>, limit: Option<u32>) -> Seq<u64> {
    let start = match start_after { Some(a) => a + 1, None => 0 };
    first_n(kept_ids(proposal_ids(s), proposal_flags(s, f), 0, start), capped_limit(limit, DEFAULT_QUERY_LIMIT, MAX_QUERY_LIMIT))
}

fn select_proposals(state: &VotingState, f: &ProposalFilter, start_after: Option<u64>, limit: Option<u32>)
    -> (r: Vec<u64>)
    ensures
        r@ == listed(state.proposals@, *f, start_after, limit),
{
    let mut ids: Vec<u64> = Vec::new();
    let mut keep: Vec<bool> = Vec::new();
    let mut i: usize = 0;
    while i < state.proposals.len()
        invariant
            i <= state.proposals.len(),
            ids@ == proposal_ids(state.proposals@.take(i as int)),
            keep@ == proposal_flags(state.proposals@.take(i as int), *f),
        decreases state.proposals.len() - i,
    {
        let p = &state.proposals[i];
        let k = match f {
            ProposalFilter::Status(None) => true,
            ProposalFilter::Status(Some(st)) => p.status == *st,
            ProposalFilter::Admin(a) => p.admin_address == *a,
        };
        ids.push(p.id);
        keep.push(k);
        assert(state.proposals@.take(i as int + 1) =~= state.proposals@.take(i as int).push(*p));
        assert(ids@ =~= proposal_ids(state.proposals@.take(i as int + 1)));
        assert(keep@ =~= proposal_flags(state.proposals@.take(i as int + 1), *f));
        i += 1;
    }
    assert(state.proposals@.take(i as int) =~= state.proposals@);
    let lim = cap_limit(limit, DEFAULT_QUERY_LIMIT, MAX_QUERY_LIMIT);
    match start_after {
        Some(a) => {
            if a == u64::MAX {
                // Nothing lies after the largest id.
                let out: Vec<u64> = Vec::new();
                proof { lemma_nothing_after_max(proposal_ids(state.proposals@), proposal_flags(state.proposals@, *f), 0); }
                assert(out@ =~= listed(state.proposals@, *f, start_after, limit));
                return out;
            }
            page(&ids, &keep, a + 1, lim)
        },
        None => page(&ids, &keep, 0, lim),
    }
}

proof fn lemma_nothing_after_max(ids: Seq<u64>, keep: Seq<bool>, i: int)
    ensures
        kept_ids(ids, keep, i, u64::MAX + 1) == Seq::<u64>::empty(),
    decreases ids.len() - i,
{
    if 0 <= i < ids.len() {
        lemma_nothing_after_max(ids, keep, i + 1);
    }
}

/// Proposals by status (all when `None`), one page, in id order.
pub fn query_proposals(state: &VotingState, status: Option<ProposalStatus>, start_after: Option<u64>, limit: Option<u32>)
    -> (r: Vec<u64>)
    ensures
        r@ == listed(state.proposals@, ProposalFilter::Status(status), start_after, limit),
{
    select_proposals(state, &ProposalFilter::Status(status), start_after, limit)
}

/// Proposals of a credit-class admin, one page, in id order.
pub fn query_proposals_by_admin(state: &VotingState, admin_address: CheckedAddr, start_after: Option<u64>, limit: Option<u32>)
    -> (r: Result<Vec<u64>, VotingError>)
    ensures
        admin_address is Err ==> r == Err::<Vec<u64>, VotingError>(
            VotingError::InvalidAddress { address: admin_address->Err_0 },
        ),
        admin_address matches Ok(a) ==> (r matches Ok(ids)
            && ids@ == listed(state.proposals@, ProposalFilter::Admin(a), start_after, limit)),
{
    let a = checked_addr(&admin_address)?;
    Ok(select_proposals(state, &ProposalFilter::Admin(a), start_after, limit))
}

// ── Laws ───────────────────────────────────────────────────────────────

/// A finalized deposit is split without loss: the refund and the slashed
/// part add up to the deposit, and the refund never exceeds it.
pub proof fn law_refund_plus_slash_is_deposit(deposit: u128, status: ProposalStatus)
    ensures
        0 <= refund_for(deposit, status) <= deposit,
        status == ProposalStatus::Expired ==>
            refund_for(deposit, status) + ratio(deposit as int, EXPIRE_SLASH_BPS as int, 10_000) == deposit,
        status == ProposalStatus::Rejected ==>
            refund_for(deposit, status) + ratio(deposit as int, REJECT_SLASH_BPS as int, 10_000) == deposit,
{
    lemma_ratio_le(deposit as int, EXPIRE_SLASH_BPS as int, 10_000);
    lemma_ratio_le(deposit as int, REJECT_SLASH_BPS as int, 10_000);
}

/// In every reachable state each proposal's tallies are exactly the votes
/// recorded for it, and no voter has two votes on one proposal: a vote is
/// counted once.
pub proof fn law_tally_counts_each_vote_once(s: VotingState, id: u64)
    requires
        s.wf(),
        s.has_proposal(id),
    ensures
        s.proposal(id).yes_votes == count_votes(s.votes@, id, true),
        s.proposal(id).no_votes == count_votes(s.votes@, id, false),
        s.proposal(id).yes_votes + s.proposal(id).no_votes <= s.votes.len(),
        forall|k1: int, k2: int|
            0 <= k1 < s.votes.len() && 0 <= k2 < s.votes.len() && k1 != k2
                && s.votes[k1].proposal_id == id && s.votes[k2].proposal_id == id
                ==> s.votes[k1].voter@ != s.votes[k2].voter@,
{
    assert(s.proposals[id - 1].id == id);
    lemma_count_votes_bounded(s.votes@, id);
}

/// A finished vote is decided by the recorded votes: it is approved
/// exactly when strictly more yes than no votes were cast, expires exactly
/// when none were cast, and is rejected otherwise, a tie included. An
/// approval refunds the whole deposit, a rejection all but 20% of it and an
/// expiry all but 5% of it; an auto-rejection that outlived its override
/// window is rejected.
pub proof fn law_majority_decides(s: VotingState, now: u64, id: u64)
    requires
        s.wf(),
        finalize_check(s, now, id) is Ok,
    ensures
        ({
            let p = s.proposal(id);
            let yes = count_votes(s.votes@, id, true);
            let no = count_votes(s.votes@, id, false);
            let status = finalize_check(s, now, id)->Ok_0;
            let deposit = p.deposit_amount as int;
            &&& p.status == ProposalStatus::Voting ==> {
                &&& (status == ProposalStatus::Approved <==> yes > no)
                &&& (status == ProposalStatus::Expired <==> yes + no == 0)
                &&& (status == ProposalStatus::Rejected <==> 0 < yes + no && yes <= no)
            }
            &&& p.status == ProposalStatus::AutoRejected ==> status == ProposalStatus::Rejected
            &&& status == ProposalStatus::Approved ==> refund_for(p.deposit_amount, status) == deposit
            &&& status == ProposalStatus::Rejected ==> refund_for(p.deposit_amount, status) == deposit - deposit * 2000 / 10_000
            &&& status == ProposalStatus::Expired ==> refund_for(p.deposit_amount, status) == deposit - deposit * 500 / 10_000
        }),
{
    assert(s.proposals[id - 1].id == id);
}

// ── Names ──────────────────────────────────────────────────────────────

/// The name of a proposal status.
pub open spec fn proposal_status_label(v: ProposalStatus) -> Seq<char> {
    match v {
        ProposalStatus::Draft => "Draft"@,
        ProposalStatus::AgentReview => "AgentReview"@,
        ProposalStatus::Voting => "Voting"@,
        ProposalStatus::Approved => "Approved"@,
        ProposalStatus::Rejected => "Rejected"@,
        ProposalStatus::Expired => "Expired"@,
        ProposalStatus::AutoRejected => "AutoRejected"@,
    }
}

impl ProposalStatus {
    /// The variant's name, as it appears in messages and attributes.
    pub fn label(&self) -> (r: &'static str)
        ensures
            r@ == proposal_status_label(*self),
    {
        match self {
            ProposalStatus::Draft => "Draft",
            ProposalStatus::AgentReview => "AgentReview",
            ProposalStatus::Voting => "Voting",
            ProposalStatus::Approved => "Approved",
            ProposalStatus::Rejected => "Rejected",
            ProposalStatus::Expired => "Expired",
            ProposalStatus::AutoRejected => "AutoRejected",
        }
    }
}

/// The name of an agent recommendation.
pub open spec fn recommendation_label(v: AgentRecommendation) -> Seq<char> {
    match v {
        AgentRecommendation::Approve => "Approve"@,
        AgentRecommendation::Conditional => "Conditional"@,
        AgentRecommendation::Reject => "Reject"@,
    }
}

impl AgentRecommendation {
    /// The variant's name, as it appears in messages and attributes.
    pub fn label(&self) -> (r: &'static str)
        ensures
            r@ == recommendation_label(*self),
    {
        match self {
            AgentRecommendation::Approve => "Approve",
            AgentRecommendation::Conditional => "Conditional",
            AgentRecommendation::Reject => "Reject",
        }
    }
}

} // verus!
