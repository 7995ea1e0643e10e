//! Reputation signals: signalers endorse a subject in a category with
//! evidence; a signal activates after a delay, may be challenged within a
//! window, and an admin or arbiter settles the challenge. Only active and
//! upheld signals count toward a subject's reputation.

use vstd::prelude::*;
use vstd::string::*;
use vstd::utf8::encode_utf8;
use crate::paging::{cap_limit, capped_limit, first_n};
use crate::money::{CheckedAddr, Coin, Transfer, TransferView, first_amount_of, find_amount, from_seconds, seconds, seconds_fit, send_nonzero, send_if, spec_seconds, tv};

verus! {

/// Shortest accepted challenge rationale, in bytes.
pub const MIN_RATIONALE_BYTES: usize = 50;

#[derive(Clone, Copy, Debug, PartialEq, Eq, Structural)]
pub enum SubjectType {
    CreditClass,
    Project,
    Verifier,
    Methodology,
    Address,
}

/// The lifecycle of a signal.
#[derive(Clone, Copy, Debug, PartialEq, Eq, Structural)]
pub enum SignalStatus {
    /// Within its activation delay.
    Submitted,
    /// Counts toward the subject's reputation.
    Active,
    /// Under challenge; does not count.
    Challenged,
    /// Its challenge outlived the resolution deadline.
    Escalated,
    /// Its challenge was rejected; counts again.
    ResolvedValid,
    /// Its challenge was upheld (terminal).
    ResolvedInvalid,
    /// Withdrawn by its signaler (terminal).
    Withdrawn,
    /// Invalidated by the admin (terminal).
    Invalidated,
}

pub open spec fn terminal(s: SignalStatus) -> bool {
    s == SignalStatus::ResolvedInvalid || s == SignalStatus::Withdrawn || s == SignalStatus::Invalidated
}

pub open spec fn counts(s: SignalStatus) -> bool {
    s == SignalStatus::Active || s == SignalStatus::ResolvedValid
}

impl SignalStatus {
    /// Whether no further transition is allowed.
    pub fn is_terminal(&self) -> (r: bool)
        ensures
            r == terminal(*self),
    {
        match self {
            SignalStatus::ResolvedInvalid | SignalStatus::Withdrawn | SignalStatus::Invalidated => true,
            _ => false,
        }
    }

    /// Whether the signal counts toward its subject's reputation.
    pub fn contributes_to_score(&self) -> (r: bool)
        ensures
            r == counts(*self),
    {
        match self {
            SignalStatus::Active | SignalStatus::ResolvedValid => true,
            _ => false,
        }
    }
}

#[derive(Clone)]
pub struct Evidence {
    pub koi_links: Vec<String>,
    pub ledger_refs: Vec<String>,
    pub web_links: Vec<String>,
}

impl Evidence {
    pub open spec fn spec_has_required_refs(&self) -> bool {
        self.koi_links@.len() > 0 || self.ledger_refs@.len() > 0
    }

    /// Evidence needs at least one knowledge-graph link or ledger reference.
    pub fn has_required_refs(&self) -> (r: bool)
        ensures
            r == self.spec_has_required_refs(),
    {
        self.koi_links.len() != 0 || self.ledger_refs.len() != 0
    }
}

#[derive(Clone)]
pub struct Signal {
    pub id: u64,
    pub signaler: String,
    pub subject_type: SubjectType,
    pub subject_id: String,
    pub category: String,
    pub endorsement_level: u8,
    pub evidence: Evidence,
    pub status: SignalStatus,
    pub submitted_at: u64,
    pub activates_at: u64,
}

#[derive(Clone, Copy, Debug, PartialEq, Eq, Structural)]
pub enum ChallengeOutcome {
    Pending,
    Valid,
    Invalid,
}

#[derive(Clone)]
pub struct Challenge {
    pub id: u64,
    pub signal_id: u64,
    pub challenger: String,
    pub rationale: String,
    pub evidence: Evidence,
    pub bond_amount: u128,
    pub outcome: ChallengeOutcome,
    pub challenged_at: u64,
    pub resolution_deadline: u64,
    pub resolution_rationale: Option<String>,
}

#[derive(Clone)]
pub struct Config {
    pub admin: String,
    pub activation_delay_seconds: u64,
    pub challenge_window_seconds: u64,
    pub resolution_deadline_seconds: u64,
    pub challenge_bond_denom: String,
    pub challenge_bond_amount: u128,
    pub decay_half_life_seconds: u64,
    pub default_min_stake: u128,
    pub arbiters: Vec<String>,
}

/// A per-category minimum stake.
#[derive(Clone)]
pub struct CategoryStake {
    pub category: String,
    pub min_stake: u128,
}

pub struct InstantiateMsg {
    pub admin: CheckedAddr,
    pub activation_delay_seconds: Option<u64>,
    pub challenge_window_seconds: Option<u64>,
    pub resolution_deadline_seconds: Option<u64>,
    pub challenge_bond_denom: Option<String>,
    pub challenge_bond_amount: Option<u128>,
    pub decay_half_life_seconds: Option<u64>,
    pub default_min_stake: Option<u128>,
}

/// Everything the contract stores: configuration, signals and challenges
/// by id (id `i + 1` at index `i`), and the per-category minimum stakes
/// (the first entry of a category is the one that counts).
#[derive(Clone)]
pub struct ReputationState {
    pub config: Config,
    pub signals: Vec<Signal>,
    pub challenges: Vec<Challenge>,
    pub category_min_stakes: Vec<CategoryStake>,
}

#[derive(Debug, PartialEq, Eq)]
pub enum ReputationError {
    Unauthorized,
    InvalidEndorsementLevel { level: u8 },
    SignalNotFound { id: u64 },
    ChallengeNotFound { id: u64 },
    SignalTerminal { id: u64 },
    SignalNotChallengeable { id: u64 },
    SignalAlreadyChallenged { id: u64 },
    SelfChallenge,
    ChallengeWindowExpired { id: u64 },
    InsufficientBond { required: u128, sent: u128 },
    WrongBondDenom { expected: String, got: String },
    InsufficientEvidence,
    RationaleTooShort,
    NotSignalOwner { id: u64 },
    WithdrawWhileChallenged { id: u64 },
    ChallengeNotPending { id: u64 },
    InvalidationRationaleRequired,
    SignalNotYetActive { id: u64 },
    DeadlineNotExceeded { id: u64 },
    NotResolver,
    InvalidAddress { address: String },
}

/// Whether signal `sid` has a pending challenge.
pub open spec fn has_pending(cs: Seq<Challenge>, sid: u64) -> bool {
    exists|k: int| 0 <= k < cs.len() && #[trigger] cs[k].signal_id == sid && cs[k].outcome == ChallengeOutcome::Pending
}

/// A signal under challenge: challenged, or escalated past its deadline.
pub open spec fn under_challenge(st: SignalStatus) -> bool {
    st == SignalStatus::Challenged || st == SignalStatus::Escalated
}

/// A status a signal with a pending challenge can have: under challenge,
/// or invalidated by the admin while under challenge.
pub open spec fn may_hold_challenge(st: SignalStatus) -> bool {
    under_challenge(st) || st == SignalStatus::Invalidated
}

/// Signal statuses and challenges agree: a signal under challenge has a
/// pending challenge, and the signal of a pending challenge is under
/// challenge or was invalidated while under challenge.
#[verifier::opaque]
pub open spec fn challenges_agree(signals: Seq<Signal>, cs: Seq<Challenge>) -> bool {
    &&& forall|i: int| 0 <= i < signals.len() && under_challenge(#[trigger] signals[i].status)
        ==> has_pending(cs, signals[i].id)
    &&& forall|k: int| 0 <= k < cs.len() && (#[trigger] cs[k]).outcome == ChallengeOutcome::Pending
        ==> 1 <= cs[k].signal_id <= signals.len() && may_hold_challenge(signals[cs[k].signal_id - 1].status)
}

impl ReputationState {
    pub open spec fn wf(self) -> bool {
        &&& challenges_agree(self.signals@, self.challenges@)
        &&& self.signals.len() < u64::MAX
        &&& self.challenges.len() < u64::MAX
        &&& forall|i: int| 0 <= i < self.signals.len() ==> #[trigger] self.signals[i].id == i + 1
        &&& forall|i: int|
            0 <= i < self.challenges.len() ==> {
                &&& #[trigger] self.challenges[i].id == i + 1
                &&& 1 <= self.challenges[i].signal_id <= self.signals.len()
            }
        // A signal has at most one pending challenge.
        &&& forall|k1: int, k2: int|
            0 <= k1 < self.challenges.len() && 0 <= k2 < self.challenges.len() && k1 != k2
                && self.challenges[k1].outcome == ChallengeOutcome::Pending
                && self.challenges[k2].outcome == ChallengeOutcome::Pending
                ==> #[trigger] self.challenges[k1].signal_id != #[trigger] self.challenges[k2].signal_id
    }

    pub open spec fn has_signal(self, id: u64) -> bool {
        1 <= id <= self.signals.len()
    }

    pub open spec fn signal(self, id: u64) -> Signal {
        self.signals[id - 1]
    }

    pub open spec fn has_challenge(self, id: u64) -> bool {
        1 <= id <= self.challenges.len()
    }

    pub open spec fn challenge(self, id: u64) -> Challenge {
        self.challenges[id - 1]
    }
}

impl Signal {
    /// Everything but the status.
    pub open spec fn same_claim(self, s: Signal) -> bool {
        &&& self.id == s.id
        &&& self.signaler == s.signaler
        &&& self.subject_type == s.subject_type
        &&& self.subject_id == s.subject_id
        &&& self.category == s.category
        &&& self.endorsement_level == s.endorsement_level
        &&& self.evidence == s.evidence
        &&& self.submitted_at == s.submitted_at
        &&& self.activates_at == s.activates_at
    }
}

fn checked_addr(a: &CheckedAddr) -> (r: Result<String, ReputationError>)
    ensures
        match *a {
            Ok(s) => r == Ok::<String, ReputationError>(s),
            Err(s) => r == Err::<String, ReputationError>(ReputationError::InvalidAddress { address: s }),
        },
{
    match a {
        Ok(s) => Ok(s.clone()),
        Err(s) => Err(ReputationError::InvalidAddress { address: s.clone() }),
    }
}

// ── Subject keys ───────────────────────────────────────────────────────

pub open spec fn subject_type_label(t: SubjectType) -> Seq<char> {
    match t {
        SubjectType::CreditClass => "CreditClass"@,
        SubjectType::Project => "Project"@,
        SubjectType::Verifier => "Verifier"@,
        SubjectType::Methodology => "Methodology"@,
        SubjectType::Address => "Address"@,
    }
}

/// `"{type}:{subject_id}:{category}"`, the key under which a subject's
/// signals are indexed.
pub open spec fn key_of(t: SubjectType, subject_id: Seq<char>, category: Seq<char>) -> Seq<char> {
    subject_type_label(t) + ":"@ + subject_id + ":"@ + category
}

impl SubjectType {
    /// The type's name, as it appears in subject keys and messages.
    pub fn label(&self) -> (r: &'static str)
        ensures
            r@ == subject_type_label(*self),
    {
        match self {
            SubjectType::CreditClass => "CreditClass",
            SubjectType::Project => "Project",
            SubjectType::Verifier => "Verifier",
            SubjectType::Methodology => "Methodology",
            SubjectType::Address => "Address",
        }
    }
}

/// The index key of a subject: its type, id and category joined by `:`.
pub fn subject_key(subject_type: &SubjectType, subject_id: &str, category: &str) -> (r: String)
    ensures
        r@ == key_of(*subject_type, subject_id@, category@),
{
    let mut key = String::from_str(subject_type.label());
    key.append(":");
    key.append(subject_id);
    key.append(":");
    key.append(category);
    key
}


// ── Instantiate ────────────────────────────────────────────────────────

pub open spec fn opt_or<T>(o: Option<T>, d: T) -> T {
    match o {
        Some(v) => v,
        None => d,
    }
}

/// Creates the state: the admin given (validated), a 24h activation
/// delay, a 180-day challenge window, a 14-day resolution deadline, a
/// zero challenge bond in `uregen`, a 14-day decay half-life and a zero
/// minimum stake unless given; no arbiters, signals or challenges.
pub fn instantiate(msg: InstantiateMsg) -> (r: Result<ReputationState, ReputationError>)
    ensures
        msg.admin is Err ==> r == Err::<ReputationState, ReputationError>(
            ReputationError::InvalidAddress { address: msg.admin->Err_0 },
        ),
        msg.admin matches Ok(admin) ==> r matches Ok(s) && {
            &&& s.wf()
            &&& s.signals@.len() == 0 && s.challenges@.len() == 0 && s.category_min_stakes@.len() == 0
            &&& s.config.admin == admin
            &&& s.config.activation_delay_seconds == opt_or(msg.activation_delay_seconds, 86_400u64)
            &&& s.config.challenge_window_seconds == opt_or(msg.challenge_window_seconds, 15_552_000u64)
            &&& s.config.resolution_deadline_seconds == opt_or(msg.resolution_deadline_seconds, 1_209_600u64)
            &&& s.config.challenge_bond_denom@ == (match msg.challenge_bond_denom {
                Some(d) => d@,
                None => "uregen"@,
            })
            &&& s.config.challenge_bond_amount == opt_or(msg.challenge_bond_amount, 0u128)
            &&& s.config.decay_half_life_seconds == opt_or(msg.decay_half_life_seconds, 1_209_600u64)
            &&& s.config.default_min_stake == opt_or(msg.default_min_stake, 0u128)
            &&& s.config.arbiters@.len() == 0
        },
{
    let admin = checked_addr(&msg.admin)?;
    let config = Config {
        admin,
        activation_delay_seconds: match msg.activation_delay_seconds { Some(v) => v, None => 86_400 },
        challenge_window_seconds: match msg.challenge_window_seconds { Some(v) => v, None => 15_552_000 },
        resolution_deadline_seconds: match msg.resolution_deadline_seconds { Some(v) => v, None => 1_209_600 },
        challenge_bond_denom: match msg.challenge_bond_denom { Some(d) => d, None => String::from_str("uregen") },
        challenge_bond_amount: match msg.challenge_bond_amount { Some(v) => v, None => 0 },
        decay_half_life_seconds: match msg.decay_half_life_seconds { Some(v) => v, None => 1_209_600 },
        default_min_stake: match msg.default_min_stake { Some(v) => v, None => 0 },
        arbiters: Vec::new(),
    };
    let state = ReputationState { config, signals: Vec::new(), challenges: Vec::new(), category_min_stakes: Vec::new() };
    proof {
        reveal(challenges_agree);
    }
    Ok(state)
}

// ── Signals ────────────────────────────────────────────────────────────

pub open spec fn submit_check(
    s: ReputationState,
    funds: Seq<Coin>,
    category: String,
    level: u8,
    evidence: Evidence,
) -> Result<(), ReputationError> {
    if level < 1 || level > 5 {
        Err(ReputationError::InvalidEndorsementLevel { level })
    } else if !evidence.spec_has_required_refs() {
        Err(ReputationError::InsufficientEvidence)
    } else if bond_sent(s, funds) < min_stake_of(s, category@) {
        Err(ReputationError::InsufficientBond { required: min_stake_of(s, category@), sent: bond_sent(s, funds) })
    } else {
        Ok(())
    }
}

/// A signaler endorses a subject in a category at level 1 to 5, with
/// evidence and at least the category's minimum stake attached (in the
/// bond denomination); the signal activates after the activation delay.
/// Returns the new id.
#[verifier::spinoff_prover]
pub fn exec_submit_signal(
    state: &mut ReputationState,
    sender: &String,
    now: u64,
    funds: &Vec<Coin>,
    subject_type: SubjectType,
    subject_id: String,
    category: String,
    endorsement_level: u8,
    evidence: Evidence,
) -> (r: Result<u64, ReputationError>)
    requires
        old(state).wf(),
        old(state).signals.len() + 1 < u64::MAX,
        submit_check(*old(state), funds@, category, endorsement_level, evidence) is Ok
            ==> seconds_fit(spec_seconds(now) + old(state).config.activation_delay_seconds),
    ensures
        r is Ok <==> submit_check(*old(state), funds@, category, endorsement_level, evidence) is Ok,
        r is Err ==> r->Err_0 == submit_check(*old(state), funds@, category, endorsement_level, evidence)->Err_0
            && *final(state) == *old(state),
        r matches Ok(id) ==> {
            let n = old(state).signals.len() as int;
            let sig = final(state).signals@[n];
            &&& final(state).wf()
            &&& final(state).config == old(state).config
            &&& final(state).challenges == old(state).challenges
            &&& final(state).category_min_stakes == old(state).category_min_stakes
            &&& final(state).signals@.len() == n + 1
            &&& final(state).signals@.take(n) == old(state).signals@
            &&& id == n + 1
            &&& sig.id == id && sig.signaler == *sender && sig.subject_type == subject_type
            &&& sig.subject_id == subject_id && sig.category == category
            &&& sig.endorsement_level == endorsement_level && sig.evidence == evidence
            &&& sig.status == SignalStatus::Submitted && sig.submitted_at == now
            &&& sig.activates_at == (spec_seconds(now) + old(state).config.activation_delay_seconds) * 1_000_000_000
        },
{
    if endorsement_level < 1 || endorsement_level > 5 {
        return Err(ReputationError::InvalidEndorsementLevel { level: endorsement_level });
    }
    if !evidence.has_required_refs() {
        return Err(ReputationError::InsufficientEvidence);
    }
    let required = query_category_min_stake(state, &category);
    let sent = match find_amount(funds, &state.config.challenge_bond_denom) {
        Some(a) => a,
        None => 0,
    };
    if sent < required {
        return Err(ReputationError::InsufficientBond { required, sent });
    }
    let id = state.signals.len() as u64 + 1;
    let activates_at = from_seconds(seconds(now) + state.config.activation_delay_seconds);
    let ghost old_signals = state.signals@;
    let sig = Signal {
        id,
        signaler: sender.clone(),
        subject_type,
        subject_id,
        category,
        endorsement_level,
        evidence,
        status: SignalStatus::Submitted,
        submitted_at: now,
        activates_at,
    };
    let ghost new_sig = sig;
    state.signals.push(sig);
    proof {
        assert(state.signals@[old_signals.len() as int] == new_sig);
        assert(state.signals@.take(old_signals.len() as int) =~= old_signals);
        assert forall|i: int| 0 <= i < state.signals.len() implies #[trigger] state.signals[i].id == i + 1 by {
            if i < old_signals.len() {
                assert(state.signals[i] == old_signals[i]);
            }
        }
        assert forall|i: int| 0 <= i < state.challenges.len() implies {
            &&& #[trigger] state.challenges[i].id == i + 1
            &&& 1 <= state.challenges[i].signal_id <= state.signals.len()
        } by {
            assert(old(state).challenges[i].id == i + 1);
        }
        assert(state.signals.len() < u64::MAX);
        assert(state.challenges.len() < u64::MAX);
        assert(forall|k1: int, k2: int|
            0 <= k1 < state.challenges.len() && 0 <= k2 < state.challenges.len() && k1 != k2
                && state.challenges[k1].outcome == ChallengeOutcome::Pending
                && state.challenges[k2].outcome == ChallengeOutcome::Pending
                ==> #[trigger] state.challenges[k1].signal_id != #[trigger] state.challenges[k2].signal_id);
        lemma_agree_new_signal(*old(state), *state);
        assert(state.wf());
        assert(state.signals@.take(old_signals.len() as int) == old(state).signals@);
        assert(state.signals@[old_signals.len() as int].activates_at
            == (spec_seconds(now) + old(state).config.activation_delay_seconds) * 1_000_000_000);
    }
    Ok(id)
}

/// The index of signal `id`, or the not-found error.
pub fn load_signal(state: &ReputationState, id: u64) -> (r: Result<usize, ReputationError>)
    ensures
        r is Ok <==> state.has_signal(id),
        r matches Ok(i) ==> i == id - 1,
        r is Err ==> r == Err::<usize, ReputationError>(ReputationError::SignalNotFound { id }),
{
    if id == 0 || id > state.signals.len() as u64 {
        return Err(ReputationError::SignalNotFound { id });
    }
    Ok((id - 1) as usize)
}

/// The state with signal `id` moved to `status`.
pub open spec fn with_status(s: ReputationState, id: u64, status: SignalStatus) -> Seq<Signal> {
    s.signals@.update(id - 1, Signal { status, ..s.signal(id) })
}

/// Changing a signal's status keeps the state well formed.
proof fn lemma_status_change_keeps_wf(old_state: ReputationState, s: ReputationState, id: u64)
    requires
        old_state.wf(),
        old_state.has_signal(id),
        s.config == old_state.config,
        s.challenges == old_state.challenges,
        s.signals@ == with_status(old_state, id, s.signal(id).status),
        under_challenge(s.signal(id).status) ==> has_pending(s.challenges@, id),
        may_hold_challenge(old_state.signal(id).status) ==> may_hold_challenge(s.signal(id).status),
    ensures
        s.wf(),
{
    lemma_agree_status_change(old_state, s, id);
    assert forall|i: int| 0 <= i < s.signals.len() implies #[trigger] s.signals[i].id == i + 1 by {
        assert(old_state.signals[i].id == i + 1);
    }
    assert forall|i: int| 0 <= i < s.challenges.len() implies {
        &&& #[trigger] s.challenges[i].id == i + 1
        &&& 1 <= s.challenges[i].signal_id <= s.signals.len()
    } by {
        assert(old_state.challenges[i].id == i + 1);
    }
}

/// Changing a signal's status, into one under challenge only where a
/// challenge is pending and out of one that may hold a challenge only into
/// another, keeps signal statuses and challenges in agreement.
proof fn lemma_agree_status_change(old_state: ReputationState, s: ReputationState, id: u64)
    requires
        old_state.wf(),
        old_state.has_signal(id),
        s.challenges == old_state.challenges,
        s.signals@ == with_status(old_state, id, s.signal(id).status),
        under_challenge(s.signal(id).status) ==> has_pending(s.challenges@, id),
        may_hold_challenge(old_state.signal(id).status) ==> may_hold_challenge(s.signal(id).status),
    ensures
        challenges_agree(s.signals@, s.challenges@),
{
    reveal(challenges_agree);
    assert(s.challenges@ == old_state.challenges@);
    assert(old_state.signals[id - 1].id == id);
    assert forall|i: int| 0 <= i < s.signals@.len() && under_challenge(#[trigger] s.signals@[i].status)
        implies has_pending(s.challenges@, s.signals@[i].id) by {
        assert(old_state.signals[i].id == i + 1);
        if i != id - 1 {
            assert(s.signals@[i] == old_state.signals@[i]);
        }
    }
    assert forall|k: int| 0 <= k < s.challenges@.len() && (#[trigger] s.challenges@[k]).outcome == ChallengeOutcome::Pending
        implies 1 <= s.challenges@[k].signal_id <= s.signals@.len()
            && may_hold_challenge(s.signals@[s.challenges@[k].signal_id - 1].status) by {
        assert(old_state.challenges@[k] == s.challenges@[k]);
    }
}

/// A new submitted signal keeps signal statuses and challenges in
/// agreement.
proof fn lemma_agree_new_signal(old_state: ReputationState, s: ReputationState)
    requires
        old_state.wf(),
        s.challenges@ == old_state.challenges@,
        s.signals@.len() == old_state.signals@.len() + 1,
        s.signals@.take(old_state.signals@.len() as int) == old_state.signals@,
        !under_challenge(s.signals@[old_state.signals@.len() as int].status),
    ensures
        challenges_agree(s.signals@, s.challenges@),
{
    reveal(challenges_agree);
    let n = old_state.signals@.len() as int;
    assert forall|i: int| 0 <= i < s.signals@.len() && under_challenge(#[trigger] s.signals@[i].status)
        implies has_pending(s.challenges@, s.signals@[i].id) by {
        assert(i < n);
        assert(s.signals@[i] == s.signals@.take(n)[i]);
    }
    assert forall|k: int| 0 <= k < s.challenges@.len() && (#[trigger] s.challenges@[k]).outcome == ChallengeOutcome::Pending
        implies 1 <= s.challenges@[k].signal_id <= s.signals@.len()
            && may_hold_challenge(s.signals@[s.challenges@[k].signal_id - 1].status) by {
        let j = s.challenges@[k].signal_id - 1;
        assert(old_state.challenges@[k] == s.challenges@[k]);
        assert(s.signals@[j] == s.signals@.take(n)[j]);
    }
}

/// A new pending challenge on an unchallenged signal, which becomes
/// challenged, keeps signal statuses and challenges in agreement.
proof fn lemma_agree_new_challenge(old_state: ReputationState, s: ReputationState, sid: u64)
    requires
        old_state.wf(),
        old_state.has_signal(sid),
        !has_pending(old_state.challenges@, sid),
        s.signals@ == with_status(old_state, sid, SignalStatus::Challenged),
        s.challenges@.len() == old_state.challenges@.len() + 1,
        s.challenges@.take(old_state.challenges@.len() as int) == old_state.challenges@,
        s.challenges@[old_state.challenges@.len() as int].signal_id == sid,
        s.challenges@[old_state.challenges@.len() as int].outcome == ChallengeOutcome::Pending,
    ensures
        challenges_agree(s.signals@, s.challenges@),
{
    reveal(challenges_agree);
    let n = old_state.challenges@.len() as int;
    assert forall|i: int| 0 <= i < s.signals@.len() && under_challenge(#[trigger] s.signals@[i].status)
        implies has_pending(s.challenges@, s.signals@[i].id) by {
        assert(old_state.signals@[i].id == i + 1);
        if i == sid - 1 {
            assert(s.challenges@[n].signal_id == s.signals@[i].id);
        } else {
            assert(s.signals@[i] == old_state.signals@[i]);
            let k = choose|k: int| 0 <= k < old_state.challenges@.len() && #[trigger] old_state.challenges@[k].signal_id == old_state.signals@[i].id
                && old_state.challenges@[k].outcome == ChallengeOutcome::Pending;
            assert(s.challenges@[k] == s.challenges@.take(n)[k]);
            assert(s.challenges@[k].signal_id == s.signals@[i].id);
        }
    }
    assert forall|k: int| 0 <= k < s.challenges@.len() && (#[trigger] s.challenges@[k]).outcome == ChallengeOutcome::Pending
        implies 1 <= s.challenges@[k].signal_id <= s.signals@.len()
            && may_hold_challenge(s.signals@[s.challenges@[k].signal_id - 1].status) by {
        if k < n {
            assert(s.challenges@[k] == s.challenges@.take(n)[k]);
            assert(old_state.challenges@[k] == s.challenges@[k]);
            assert(s.challenges@[k].signal_id != sid);
        }
    }
}

/// Settling a pending challenge, with its signal resolved unless it is
/// already terminal, keeps signal statuses and challenges in agreement.
proof fn lemma_agree_settled(old_state: ReputationState, s: ReputationState, ci: int, valid: bool)
    requires
        old_state.wf(),
        0 <= ci < old_state.challenges@.len(),
        old_state.challenges@[ci].outcome == ChallengeOutcome::Pending,
        s.challenges@.len() == old_state.challenges@.len(),
        forall|k: int| 0 <= k < s.challenges@.len() && k != ci ==> s.challenges@[k] == old_state.challenges@[k],
        s.challenges@[ci].outcome != ChallengeOutcome::Pending,
        s.signals@ == settled_signals(old_state, old_state.challenges@[ci].signal_id, valid),
    ensures
        challenges_agree(s.signals@, s.challenges@),
{
    reveal(challenges_agree);
    let sid = old_state.challenges@[ci].signal_id;
    assert(1 <= sid <= old_state.signals@.len());
    assert(old_state.signals@[sid - 1].id == sid);
    assert forall|i: int| 0 <= i < s.signals@.len() && under_challenge(#[trigger] s.signals@[i].status)
        implies has_pending(s.challenges@, s.signals@[i].id) by {
        assert(old_state.signals@[i].id == i + 1);
        assert(i != sid - 1);
        assert(s.signals@[i] == old_state.signals@[i]);
        let k = choose|k: int| 0 <= k < old_state.challenges@.len() && #[trigger] old_state.challenges@[k].signal_id == old_state.signals@[i].id
            && old_state.challenges@[k].outcome == ChallengeOutcome::Pending;
        assert(k != ci);
        assert(s.challenges@[k] == old_state.challenges@[k]);
    }
    assert forall|k: int| 0 <= k < s.challenges@.len() && (#[trigger] s.challenges@[k]).outcome == ChallengeOutcome::Pending
        implies 1 <= s.challenges@[k].signal_id <= s.signals@.len()
            && may_hold_challenge(s.signals@[s.challenges@[k].signal_id - 1].status) by {
        assert(k != ci);
        assert(s.challenges@[k] == old_state.challenges@[k]);
        assert(old_state.challenges@[k].signal_id != sid);
    }
}

pub open spec fn activate_check(s: ReputationState, now: u64, id: u64) -> Result<(), ReputationError> {
    if !s.has_signal(id) {
        Err(ReputationError::SignalNotFound { id })
    } else if s.signal(id).status != SignalStatus::Submitted || now < s.signal(id).activates_at {
        Err(ReputationError::SignalNotYetActive { id })
    } else {
        Ok(())
    }
}

/// Anyone activates a submitted signal once its delay has passed.
pub fn exec_activate_signal(state: &mut ReputationState, now: u64, signal_id: u64) -> (r: Result<(), ReputationError>)
    requires
        old(state).wf(),
    ensures
        r == activate_check(*old(state), now, signal_id),
        r is Err ==> *final(state) == *old(state),
        r is Ok ==> final(state).wf() && final(state).config == old(state).config
            && final(state).challenges == old(state).challenges
            && final(state).category_min_stakes == old(state).category_min_stakes
            && final(state).signals@ == with_status(*old(state), signal_id, SignalStatus::Active),
{
    let i = load_signal(state, signal_id)?;
    if state.signals[i].status != SignalStatus::Submitted {
        return Err(ReputationError::SignalNotYetActive { id: signal_id });
    }
    if now < state.signals[i].activates_at {
        return Err(ReputationError::SignalNotYetActive { id: signal_id });
    }
    let ghost old_state = *state;
    state.signals[i].status = SignalStatus::Active;
    proof {
        assert(state.signals@ =~= with_status(old_state, signal_id, SignalStatus::Active));
        lemma_status_change_keeps_wf(old_state, *state, signal_id);
    }
    Ok(())
}

pub open spec fn withdraw_check(s: ReputationState, sender: String, id: u64) -> Result<(), ReputationError> {
    if !s.has_signal(id) {
        Err(ReputationError::SignalNotFound { id })
    } else if sender@ != s.signal(id).signaler@ {
        Err(ReputationError::NotSignalOwner { id })
    } else if terminal(s.signal(id).status) {
        Err(ReputationError::SignalTerminal { id })
    } else if s.signal(id).status == SignalStatus::Challenged || s.signal(id).status == SignalStatus::Escalated {
        Err(ReputationError::WithdrawWhileChallenged { id })
    } else {
        Ok(())
    }
}

/// The signaler withdraws a signal that is neither terminal nor under
/// challenge.
pub fn exec_withdraw_signal(state: &mut ReputationState, sender: &String, signal_id: u64) -> (r: Result<(), ReputationError>)
    requires
        old(state).wf(),
    ensures
        r == withdraw_check(*old(state), *sender, signal_id),
        r is Err ==> *final(state) == *old(state),
        r is Ok ==> final(state).wf() && final(state).config == old(state).config
            && final(state).challenges == old(state).challenges
            && final(state).category_min_stakes == old(state).category_min_stakes
            && final(state).signals@ == with_status(*old(state), signal_id, SignalStatus::Withdrawn),
{
    let i = load_signal(state, signal_id)?;
    if *sender != state.signals[i].signaler {
        return Err(ReputationError::NotSignalOwner { id: signal_id });
    }
    if state.signals[i].status.is_terminal() {
        return Err(ReputationError::SignalTerminal { id: signal_id });
    }
    let status = state.signals[i].status;
    if status == SignalStatus::Challenged || status == SignalStatus::Escalated {
        return Err(ReputationError::WithdrawWhileChallenged { id: signal_id });
    }
    let ghost old_state = *state;
    state.signals[i].status = SignalStatus::Withdrawn;
    proof {
        assert(state.signals@ =~= with_status(old_state, signal_id, SignalStatus::Withdrawn));
        lemma_status_change_keeps_wf(old_state, *state, signal_id);
    }
    Ok(())
}


// ── Challenges ─────────────────────────────────────────────────────────

/// The position of the pending challenge of signal `sid`, if any.
pub fn find_pending(cs: &Vec<Challenge>, sid: u64) -> (r: Option<usize>)
    ensures
        r is None <==> !has_pending(cs@, sid),
        r matches Some(k) ==> k < cs.len() && cs@[k as int].signal_id == sid
            && cs@[k as int].outcome == ChallengeOutcome::Pending,
{
    let mut k: usize = 0;
    while k < cs.len()
        invariant
            k <= cs.len(),
            forall|j: int| 0 <= j < k ==> !(#[trigger] cs@[j].signal_id == sid && cs@[j].outcome == ChallengeOutcome::Pending),
        decreases cs.len() - k,
    {
        if cs[k].signal_id == sid && cs[k].outcome == ChallengeOutcome::Pending {
            return Some(k);
        }
        k += 1;
    }
    None
}

/// Byte length of a text.
pub open spec fn byte_len(s: String) -> int {
    encode_utf8(s@).len() as usize as int
}

/// The end of a signal's challenge window.
pub open spec fn window_end(s: ReputationState, id: u64) -> int {
    (spec_seconds(s.signal(id).submitted_at) + s.config.challenge_window_seconds) * 1_000_000_000
}

/// The amount attached in the bond denomination (the first such coin), or
/// 0: a challenge's bond, or a signal's stake.
pub open spec fn bond_sent(s: ReputationState, funds: Seq<Coin>) -> u128 {
    match first_amount_of(funds, s.config.challenge_bond_denom@) {
        Some(a) => a,
        None => 0,
    }
}

pub open spec fn challenge_check(
    s: ReputationState,
    sender: String,
    now: u64,
    funds: Seq<Coin>,
    id: u64,
    rationale: String,
    evidence: Evidence,
) -> Result<(), ReputationError> {
    if !s.has_signal(id) {
        Err(ReputationError::SignalNotFound { id })
    } else if has_pending(s.challenges@, id) {
        Err(ReputationError::SignalAlreadyChallenged { id })
    } else if s.signal(id).status != SignalStatus::Submitted && s.signal(id).status != SignalStatus::Active {
        Err(ReputationError::SignalNotChallengeable { id })
    } else if sender@ == s.signal(id).signaler@ {
        Err(ReputationError::SelfChallenge)
    } else if now > window_end(s, id) {
        Err(ReputationError::ChallengeWindowExpired { id })
    } else if !evidence.spec_has_required_refs() {
        Err(ReputationError::InsufficientEvidence)
    } else if byte_len(rationale) < MIN_RATIONALE_BYTES {
        Err(ReputationError::RationaleTooShort)
    } else if s.config.challenge_bond_amount != 0 && bond_sent(s, funds) < s.config.challenge_bond_amount {
        Err(ReputationError::InsufficientBond { required: s.config.challenge_bond_amount, sent: bond_sent(s, funds) })
    } else {
        Ok(())
    }
}

/// Whether the timestamps a challenge computes fit: its window end once the
/// signal is found challengeable by someone else, its resolution deadline
/// once it is accepted.
pub open spec fn challenge_fits(
    s: ReputationState,
    sender: String,
    now: u64,
    funds: Seq<Coin>,
    id: u64,
    rationale: String,
    evidence: Evidence,
) -> bool {
    &&& (s.has_signal(id) && !has_pending(s.challenges@, id)
        && (s.signal(id).status == SignalStatus::Submitted || s.signal(id).status == SignalStatus::Active)
        && sender@ != s.signal(id).signaler@)
        ==> seconds_fit(spec_seconds(s.signal(id).submitted_at) + s.config.challenge_window_seconds)
    &&& challenge_check(s, sender, now, funds, id, rationale, evidence) is Ok
        ==> seconds_fit(spec_seconds(now) + s.config.resolution_deadline_seconds)
}

/// Anyone but the signaler challenges a submitted or active signal within
/// its window, with evidence, a rationale of at least 50 bytes and the
/// configured bond; the signal is challenged until the challenge is
/// settled. Returns the challenge id.
#[verifier::spinoff_prover]
#[verifier::rlimit(30)]
pub fn exec_submit_challenge(
    state: &mut ReputationState,
    sender: &String,
    now: u64,
    funds: &Vec<Coin>,
    signal_id: u64,
    rationale: String,
    evidence: Evidence,
) -> (r: Result<u64, ReputationError>)
    requires
        old(state).wf(),
        old(state).challenges.len() + 1 < u64::MAX,
        challenge_fits(*old(state), *sender, now, funds@, signal_id, rationale, evidence),
    ensures
        r is Ok <==> challenge_check(*old(state), *sender, now, funds@, signal_id, rationale, evidence) is Ok,
        r is Err ==> r->Err_0 == challenge_check(*old(state), *sender, now, funds@, signal_id, rationale, evidence)->Err_0
            && *final(state) == *old(state),
        r matches Ok(cid) ==> {
            let n = old(state).challenges.len() as int;
            let c = final(state).challenges@[n];
            &&& final(state).wf()
            &&& final(state).config == old(state).config
            &&& final(state).category_min_stakes == old(state).category_min_stakes
            &&& final(state).signals@ == with_status(*old(state), signal_id, SignalStatus::Challenged)
            &&& final(state).challenges@.len() == n + 1
            &&& final(state).challenges@.take(n) == old(state).challenges@
            &&& cid == n + 1
            &&& c.id == cid && c.signal_id == signal_id && c.challenger == *sender
            &&& c.rationale == rationale && c.evidence == evidence
            &&& c.bond_amount == old(state).config.challenge_bond_amount
            &&& c.outcome == ChallengeOutcome::Pending && c.challenged_at == now
            &&& c.resolution_deadline == (spec_seconds(now) + old(state).config.resolution_deadline_seconds) * 1_000_000_000
            &&& c.resolution_rationale is None
        },
{
    let i = load_signal(state, signal_id)?;
    if find_pending(&state.challenges, signal_id).is_some() {
        return Err(ReputationError::SignalAlreadyChallenged { id: signal_id });
    }
    let status = state.signals[i].status;
    if status != SignalStatus::Submitted && status != SignalStatus::Active {
        return Err(ReputationError::SignalNotChallengeable { id: signal_id });
    }
    if *sender == state.signals[i].signaler {
        return Err(ReputationError::SelfChallenge);
    }
    let deadline = from_seconds(seconds(state.signals[i].submitted_at) + state.config.challenge_window_seconds);
    if now > deadline {
        return Err(ReputationError::ChallengeWindowExpired { id: signal_id });
    }
    if !evidence.has_required_refs() {
        return Err(ReputationError::InsufficientEvidence);
    }
    if rationale.as_str().len() < MIN_RATIONALE_BYTES {
        return Err(ReputationError::RationaleTooShort);
    }
    if state.config.challenge_bond_amount != 0 {
        let sent = match find_amount(funds, &state.config.challenge_bond_denom) {
            Some(a) => a,
            None => 0,
        };
        if sent < state.config.challenge_bond_amount {
            return Err(ReputationError::InsufficientBond { required: state.config.challenge_bond_amount, sent });
        }
    }
    let cid = state.challenges.len() as u64 + 1;
    let resolution_deadline = from_seconds(seconds(now) + state.config.resolution_deadline_seconds);
    let ghost old_state = *state;
    let c = Challenge {
        id: cid,
        signal_id,
        challenger: sender.clone(),
        rationale,
        evidence,
        bond_amount: state.config.challenge_bond_amount,
        outcome: ChallengeOutcome::Pending,
        challenged_at: now,
        resolution_deadline,
        resolution_rationale: None,
    };
    let ghost new_c = c;
    state.challenges.push(c);
    state.signals[i].status = SignalStatus::Challenged;
    proof {
        let nc = old_state.challenges.len() as int;
        assert(state.challenges@[nc] == new_c);
        assert(state.challenges@.take(nc) =~= old_state.challenges@);
        assert(state.signals@ =~= with_status(old_state, signal_id, SignalStatus::Challenged));
        assert forall|j: int| 0 <= j < state.signals.len() implies #[trigger] state.signals[j].id == j + 1 by {
            assert(old_state.signals[j].id == j + 1);
        }
        assert forall|j: int| 0 <= j < state.challenges.len() implies {
            &&& #[trigger] state.challenges[j].id == j + 1
            &&& 1 <= state.challenges[j].signal_id <= state.signals.len()
        } by {
            if j < nc {
                assert(state.challenges[j] == old_state.challenges[j]);
                assert(old_state.challenges[j].id == j + 1);
            }
        }
        assert forall|k1: int, k2: int|
            0 <= k1 < state.challenges.len() && 0 <= k2 < state.challenges.len() && k1 != k2
                && state.challenges[k1].outcome == ChallengeOutcome::Pending
                && state.challenges[k2].outcome == ChallengeOutcome::Pending
            implies #[trigger] state.challenges[k1].signal_id != #[trigger] state.challenges[k2].signal_id by {
            if k1 < nc {
                assert(state.challenges[k1] == old_state.challenges[k1]);
            }
            if k2 < nc {
                assert(state.challenges[k2] == old_state.challenges[k2]);
            }
            if k1 == nc {
                assert(!(old_state.challenges[k2].signal_id == signal_id && old_state.challenges[k2].outcome == ChallengeOutcome::Pending));
            }
            if k2 == nc {
                assert(!(old_state.challenges[k1].signal_id == signal_id && old_state.challenges[k1].outcome == ChallengeOutcome::Pending));
            }
        }
        lemma_agree_new_challenge(old_state, *state, signal_id);
        assert(state.wf());
    }
    Ok(cid)
}

/// The index of challenge `id`, or the not-found error.
pub fn load_challenge(state: &ReputationState, id: u64) -> (r: Result<usize, ReputationError>)
    ensures
        r is Ok <==> state.has_challenge(id),
        r matches Ok(i) ==> i == id - 1,
        r is Err ==> r == Err::<usize, ReputationError>(ReputationError::ChallengeNotFound { id }),
{
    if id == 0 || id > state.challenges.len() as u64 {
        return Err(ReputationError::ChallengeNotFound { id });
    }
    Ok((id - 1) as usize)
}

pub open spec fn is_arbiter(c: Config, who: String) -> bool {
    exists|k: int| 0 <= k < c.arbiters.len() && #[trigger] c.arbiters@[k]@ == who@
}

/// Whether `who` is listed as an arbiter.
pub fn arbiter_listed(config: &Config, who: &String) -> (r: bool)
    ensures
        r == is_arbiter(*config, *who),
{
    let mut k: usize = 0;
    while k < config.arbiters.len()
        invariant
            k <= config.arbiters.len(),
            forall|j: int| 0 <= j < k ==> #[trigger] config.arbiters@[j]@ != who@,
        decreases config.arbiters.len() - k,
    {
        if config.arbiters[k] == *who {
            return true;
        }
        k += 1;
    }
    false
}

pub open spec fn resolve_check(s: ReputationState, sender: String, cid: u64) -> Result<(), ReputationError> {
    if sender@ != s.config.admin@ && !is_arbiter(s.config, sender) {
        Err(ReputationError::NotResolver)
    } else if !s.has_challenge(cid) {
        Err(ReputationError::ChallengeNotFound { id: cid })
    } else if s.challenge(cid).outcome != ChallengeOutcome::Pending {
        Err(ReputationError::ChallengeNotPending { id: cid })
    } else {
        Ok(())
    }
}

/// The signals after a challenge on `signal_id` is settled: the signal is
/// resolved valid or invalid, unless it is already terminal (withdrawn,
/// invalidated or resolved invalid), in which case it stays as it is.
pub open spec fn settled_signals(s: ReputationState, signal_id: u64, valid: bool) -> Seq<Signal> {
    if terminal(s.signal(signal_id).status) {
        s.signals@
    } else {
        with_status(s, signal_id, if valid { SignalStatus::ResolvedValid } else { SignalStatus::ResolvedInvalid })
    }
}

/// The admin or an arbiter settles a pending challenge. Upheld signal: the
/// signal is resolved valid and the bond stays with the contract. Rejected
/// signal: the signal is resolved invalid and a non-zero bond goes back to
/// the challenger, in the currently configured bond denomination. A signal
/// that became terminal while challenged keeps its status: only the
/// challenge is settled.
pub fn exec_resolve_challenge(
    state: &mut ReputationState,
    sender: &String,
    challenge_id: u64,
    outcome_valid: bool,
    rationale: String,
) -> (r: Result<Vec<Transfer>, ReputationError>)
    requires
        old(state).wf(),
    ensures
        r is Ok <==> resolve_check(*old(state), *sender, challenge_id) is Ok,
        r is Err ==> r->Err_0 == resolve_check(*old(state), *sender, challenge_id)->Err_0
            && *final(state) == *old(state),
        r matches Ok(transfers) ==> {
            let c = old(state).challenge(challenge_id);
            &&& final(state).wf()
            &&& final(state).config == old(state).config
            &&& final(state).category_min_stakes == old(state).category_min_stakes
            &&& final(state).challenges@ == old(state).challenges@.update(challenge_id - 1, Challenge {
                outcome: if outcome_valid { ChallengeOutcome::Valid } else { ChallengeOutcome::Invalid },
                resolution_rationale: Some(rationale),
                ..c
            })
            &&& final(state).signals@ == settled_signals(*old(state), c.signal_id, outcome_valid)
            &&& tv(transfers@) == if outcome_valid {
                Seq::<TransferView>::empty()
            } else {
                send_if(c.challenger@, old(state).config.challenge_bond_denom@, c.bond_amount)
            }
        },
{
    if *sender != state.config.admin && !arbiter_listed(&state.config, sender) {
        return Err(ReputationError::NotResolver);
    }
    let ci = load_challenge(state, challenge_id)?;
    if state.challenges[ci].outcome != ChallengeOutcome::Pending {
        return Err(ReputationError::ChallengeNotPending { id: challenge_id });
    }
    proof {
        assert(old(state).challenges[ci as int].id == ci + 1);
    }
    let si = (state.challenges[ci].signal_id - 1) as usize;
    let mut transfers: Vec<Transfer> = Vec::new();
    if !outcome_valid {
        send_nonzero(&mut transfers, &state.challenges[ci].challenger, &state.config.challenge_bond_denom,
            state.challenges[ci].bond_amount);
    }
    assert(tv(transfers@) =~= if outcome_valid {
        Seq::<TransferView>::empty()
    } else {
        send_if(state.challenges@[ci as int].challenger@, state.config.challenge_bond_denom@, state.challenges@[ci as int].bond_amount)
    });
    let ghost old_state = *state;
    state.challenges[ci].outcome = if outcome_valid { ChallengeOutcome::Valid } else { ChallengeOutcome::Invalid };
    state.challenges[ci].resolution_rationale = Some(rationale);
    if !state.signals[si].status.is_terminal() {
        state.signals[si].status = if outcome_valid { SignalStatus::ResolvedValid } else { SignalStatus::ResolvedInvalid };
    }
    proof {
        let sid = old_state.challenges[ci as int].signal_id;
        assert(old_state.signals[si as int].id == sid);
        if !terminal(old_state.signals[si as int].status) {
            assert(state.signals@ =~= with_status(old_state, sid, state.signals@[si as int].status));
        } else {
            assert(state.signals@ =~= old_state.signals@);
        }
        assert(state.challenges@ =~= old_state.challenges@.update(ci as int, state.challenges@[ci as int]));
        assert forall|j: int| 0 <= j < state.signals.len() implies #[trigger] state.signals[j].id == j + 1 by {
            assert(old_state.signals[j].id == j + 1);
        }
        assert forall|j: int| 0 <= j < state.challenges.len() implies {
            &&& #[trigger] state.challenges[j].id == j + 1
            &&& 1 <= state.challenges[j].signal_id <= state.signals.len()
        } by {
            assert(old_state.challenges[j].id == j + 1);
        }
        assert forall|k1: int, k2: int|
            0 <= k1 < state.challenges.len() && 0 <= k2 < state.challenges.len() && k1 != k2
                && state.challenges[k1].outcome == ChallengeOutcome::Pending
                && state.challenges[k2].outcome == ChallengeOutcome::Pending
            implies #[trigger] state.challenges[k1].signal_id != #[trigger] state.challenges[k2].signal_id by {
            assert(state.challenges[k1] == old_state.challenges[k1]);
            assert(state.challenges[k2] == old_state.challenges[k2]);
        }
        assert(state.signals@ == settled_signals(old_state, sid, outcome_valid));
        lemma_agree_settled(old_state, *state, ci as int, outcome_valid);
    }
    Ok(transfers)
}

pub open spec fn escalate_check(s: ReputationState, now: u64, cid: u64) -> Result<(), ReputationError> {
    if !s.has_challenge(cid) {
        Err(ReputationError::ChallengeNotFound { id: cid })
    } else if s.challenge(cid).outcome != ChallengeOutcome::Pending {
        Err(ReputationError::ChallengeNotPending { id: cid })
    } else if now <= s.challenge(cid).resolution_deadline {
        Err(ReputationError::DeadlineNotExceeded { id: cid })
    } else if terminal(s.signal(s.challenge(cid).signal_id).status) {
        Err(ReputationError::SignalTerminal { id: s.challenge(cid).signal_id })
    } else {
        Ok(())
    }
}

/// Anyone escalates a pending challenge past its resolution deadline: its
/// signal becomes escalated; the challenge stays pending. A signal that
/// became terminal while challenged is not escalated.
pub fn exec_escalate_challenge(state: &mut ReputationState, now: u64, challenge_id: u64) -> (r: Result<(), ReputationError>)
    requires
        old(state).wf(),
    ensures
        r == escalate_check(*old(state), now, challenge_id),
        r is Err ==> *final(state) == *old(state),
        r is Ok ==> final(state).wf() && final(state).config == old(state).config
            && final(state).challenges == old(state).challenges
            && final(state).category_min_stakes == old(state).category_min_stakes
            && final(state).signals@ == with_status(*old(state), old(state).challenge(challenge_id).signal_id,
                SignalStatus::Escalated),
{
    let ci = load_challenge(state, challenge_id)?;
    if state.challenges[ci].outcome != ChallengeOutcome::Pending {
        return Err(ReputationError::ChallengeNotPending { id: challenge_id });
    }
    if now <= state.challenges[ci].resolution_deadline {
        return Err(ReputationError::DeadlineNotExceeded { id: challenge_id });
    }
    proof {
        assert(old(state).challenges[ci as int].id == ci + 1);
    }
    let si = (state.challenges[ci].signal_id - 1) as usize;
    proof {
        assert(old(state).signals[si as int].id == si + 1);
    }
    if state.signals[si].status.is_terminal() {
        return Err(ReputationError::SignalTerminal { id: state.challenges[ci].signal_id });
    }
    let ghost old_state = *state;
    state.signals[si].status = SignalStatus::Escalated;
    proof {
        let sid = old_state.challenges[ci as int].signal_id;
        assert(state.signals@ =~= with_status(old_state, sid, SignalStatus::Escalated));
        lemma_status_change_keeps_wf(old_state, *state, sid);
    }
    Ok(())
}

pub open spec fn invalidate_check(s: ReputationState, sender: String, id: u64, rationale: String) -> Result<(), ReputationError> {
    if sender@ != s.config.admin@ {
        Err(ReputationError::Unauthorized)
    } else if rationale@.len() == 0 {
        Err(ReputationError::InvalidationRationaleRequired)
    } else if !s.has_signal(id) {
        Err(ReputationError::SignalNotFound { id })
    } else if terminal(s.signal(id).status) {
        Err(ReputationError::SignalTerminal { id })
    } else {
        Ok(())
    }
}

/// The admin invalidates a signal that is not terminal, with a rationale.
pub fn exec_invalidate_signal(state: &mut ReputationState, sender: &String, signal_id: u64, rationale: String)
    -> (r: Result<(), ReputationError>)
    requires
        old(state).wf(),
    ensures
        r == invalidate_check(*old(state), *sender, signal_id, rationale),
        r is Err ==> *final(state) == *old(state),
        r is Ok ==> final(state).wf() && final(state).config == old(state).config
            && final(state).challenges == old(state).challenges
            && final(state).category_min_stakes == old(state).category_min_stakes
            && final(state).signals@ == with_status(*old(state), signal_id, SignalStatus::Invalidated),
{
    if *sender != state.config.admin {
        return Err(ReputationError::Unauthorized);
    }
    if rationale.as_str().is_empty() {
        return Err(ReputationError::InvalidationRationaleRequired);
    }
    let i = load_signal(state, signal_id)?;
    if state.signals[i].status.is_terminal() {
        return Err(ReputationError::SignalTerminal { id: signal_id });
    }
    let ghost old_state = *state;
    state.signals[i].status = SignalStatus::Invalidated;
    proof {
        assert(state.signals@ =~= with_status(old_state, signal_id, SignalStatus::Invalidated));
        lemma_status_change_keeps_wf(old_state, *state, signal_id);
    }
    Ok(())
}


// ── Governance ─────────────────────────────────────────────────────────

pub struct ConfigUpdate {
    pub activation_delay_seconds: Option<u64>,
    pub challenge_window_seconds: Option<u64>,
    pub resolution_deadline_seconds: Option<u64>,
    pub challenge_bond_denom: Option<String>,
    pub challenge_bond_amount: Option<u128>,
    pub decay_half_life_seconds: Option<u64>,
    pub default_min_stake: Option<u128>,
}

/// The admin updates timing, bond and stake parameters.
pub fn exec_update_config(state: &mut ReputationState, sender: &String, update: ConfigUpdate) -> (r: Result<(), ReputationError>)
    requires
        old(state).wf(),
    ensures
        r is Ok <==> sender@ == old(state).config.admin@,
        r is Err ==> r == Err::<(), ReputationError>(ReputationError::Unauthorized) && *final(state) == *old(state),
        r is Ok ==> {
            let c = old(state).config;
            let n = final(state).config;
            &&& final(state).wf()
            &&& final(state).signals == old(state).signals
            &&& final(state).challenges == old(state).challenges
            &&& final(state).category_min_stakes == old(state).category_min_stakes
            &&& n.admin == c.admin && n.arbiters == c.arbiters
            &&& n.activation_delay_seconds == opt_or(update.activation_delay_seconds, c.activation_delay_seconds)
            &&& n.challenge_window_seconds == opt_or(update.challenge_window_seconds, c.challenge_window_seconds)
            &&& n.resolution_deadline_seconds == opt_or(update.resolution_deadline_seconds, c.resolution_deadline_seconds)
            &&& n.challenge_bond_denom == opt_or(update.challenge_bond_denom, c.challenge_bond_denom)
            &&& n.challenge_bond_amount == opt_or(update.challenge_bond_amount, c.challenge_bond_amount)
            &&& n.decay_half_life_seconds == opt_or(update.decay_half_life_seconds, c.decay_half_life_seconds)
            &&& n.default_min_stake == opt_or(update.default_min_stake, c.default_min_stake)
        },
{
    if *sender != state.config.admin {
        return Err(ReputationError::Unauthorized);
    }
    let ConfigUpdate {
        activation_delay_seconds,
        challenge_window_seconds,
        resolution_deadline_seconds,
        challenge_bond_denom,
        challenge_bond_amount,
        decay_half_life_seconds,
        default_min_stake,
    } = update;
    let c = &mut state.config;
    c.activation_delay_seconds = match activation_delay_seconds { Some(v) => v, None => c.activation_delay_seconds };
    c.challenge_window_seconds = match challenge_window_seconds { Some(v) => v, None => c.challenge_window_seconds };
    c.resolution_deadline_seconds = match resolution_deadline_seconds {
        Some(v) => v,
        None => c.resolution_deadline_seconds,
    };
    if let Some(d) = challenge_bond_denom {
        c.challenge_bond_denom = d;
    }
    c.challenge_bond_amount = match challenge_bond_amount { Some(v) => v, None => c.challenge_bond_amount };
    c.decay_half_life_seconds = match decay_half_life_seconds { Some(v) => v, None => c.decay_half_life_seconds };
    c.default_min_stake = match default_min_stake { Some(v) => v, None => c.default_min_stake };
    assert(state.signals == old(state).signals && state.challenges == old(state).challenges);
    Ok(())
}

/// The first entry of a category among the minimum stakes, or -1.
pub open spec fn stake_index(s: Seq<CategoryStake>, category: Seq<char>, i: int) -> int
    decreases s.len() - i,
{
    if i < 0 || i >= s.len() {
        -1
    } else if s[i].category@ == category {
        i
    } else {
        stake_index(s, category, i + 1)
    }
}

proof fn lemma_stake_index(s: Seq<CategoryStake>, category: Seq<char>, i: int)
    requires
        0 <= i,
    ensures
        ({
            let k = stake_index(s, category, i);
            &&& k == -1 || (i <= k < s.len() && s[k].category@ == category)
            &&& k == -1 ==> forall|j: int| i <= j < s.len() ==> #[trigger] s[j].category@ != category
            &&& k != -1 ==> forall|j: int| i <= j < k ==> #[trigger] s[j].category@ != category
        }),
    decreases s.len() - i,
{
    if i < s.len() && s[i].category@ != category {
        lemma_stake_index(s, category, i + 1);
    }
}

/// The position of a category's minimum stake, if one is set.
fn find_stake(s: &Vec<CategoryStake>, category: &String) -> (r: Option<usize>)
    ensures
        match r {
            Some(k) => k as int == stake_index(s@, category@, 0),
            None => stake_index(s@, category@, 0) == -1,
        },
{
    let mut k: usize = 0;
    while k < s.len()
        invariant
            k <= s.len(),
            stake_index(s@, category@, 0) == stake_index(s@, category@, k as int),
        decreases s.len() - k,
    {
        if s[k].category == *category {
            return Some(k);
        }
        k += 1;
    }
    None
}

/// The minimum stake of a category: its own, or the default.
pub open spec fn min_stake_of(s: ReputationState, category: Seq<char>) -> u128 {
    let k = stake_index(s.category_min_stakes@, category, 0);
    if k == -1 { s.config.default_min_stake } else { s.category_min_stakes@[k].min_stake }
}

/// The admin sets a category's minimum stake.
pub fn exec_set_category_min_stake(state: &mut ReputationState, sender: &String, category: String, min_stake: u128)
    -> (r: Result<(), ReputationError>)
    requires
        old(state).wf(),
    ensures
        r is Ok <==> sender@ == old(state).config.admin@,
        r is Err ==> r == Err::<(), ReputationError>(ReputationError::Unauthorized) && *final(state) == *old(state),
        r is Ok ==> {
            &&& final(state).wf()
            &&& final(state).config == old(state).config
            &&& final(state).signals == old(state).signals
            &&& final(state).challenges == old(state).challenges
            &&& min_stake_of(*final(state), category@) == min_stake
            &&& forall|other: Seq<char>| other != category@
                ==> min_stake_of(*final(state), other) == min_stake_of(*old(state), other)
        },
{
    if *sender != state.config.admin {
        return Err(ReputationError::Unauthorized);
    }
    let ghost old_stakes = state.category_min_stakes@;
    proof {
        lemma_stake_index(old_stakes, category@, 0);
    }
    match find_stake(&state.category_min_stakes, &category) {
        Some(k) => {
            state.category_min_stakes[k].min_stake = min_stake;
            proof {
                let new_stakes = state.category_min_stakes@;
                lemma_stake_index(new_stakes, category@, 0);
                let b = stake_index(new_stakes, category@, 0);
                assert(new_stakes[k as int].category@ == category@);
                if b != -1 && b < k {
                    assert(old_stakes[b].category@ != category@);
                }
                assert(b == k);
                assert forall|other: Seq<char>| other != category@
                    implies min_stake_of(*state, other) == min_stake_of(*old(state), other) by {
                    lemma_stake_index(old_stakes, other, 0);
                    lemma_stake_index(new_stakes, other, 0);
                    let a = stake_index(old_stakes, other, 0);
                    let b = stake_index(new_stakes, other, 0);
                    if a != -1 {
                        assert(new_stakes[a].category@ == other);
                    }
                    if b != -1 {
                        assert(old_stakes[b].category@ == other);
                    }
                    if a != -1 && b != -1 {
                        if a < b {
                            assert(new_stakes[a].category@ != other);
                        } else if b < a {
                            assert(old_stakes[b].category@ != other);
                        }
                    }
                }
            }
        },
        None => {
            state.category_min_stakes.push(CategoryStake { category, min_stake });
            proof {
                let new_stakes = state.category_min_stakes@;
                let n = old_stakes.len() as int;
                lemma_stake_index(new_stakes, category@, 0);
                assert(new_stakes[n].category@ == category@);
                let b = stake_index(new_stakes, category@, 0);
                if b != -1 && b < n {
                    assert(old_stakes[b].category@ != category@);
                }
                assert(b == n);
                assert forall|other: Seq<char>| other != category@
                    implies min_stake_of(*state, other) == min_stake_of(*old(state), other) by {
                    lemma_stake_index(old_stakes, other, 0);
                    lemma_stake_index(new_stakes, other, 0);
                    let a = stake_index(old_stakes, other, 0);
                    let b = stake_index(new_stakes, other, 0);
                    if a != -1 {
                        assert(new_stakes[a].category@ == other);
                    }
                    if b != -1 && b < n {
                        assert(old_stakes[b].category@ == other);
                    }
                    if a != -1 && b != -1 {
                        if a < b {
                            assert(new_stakes[a].category@ != other);
                        } else if b < a {
                            assert(old_stakes[b].category@ != other);
                        }
                    }
                }
            }
        },
    }
    proof {
        assert(state.signals@ == old(state).signals@);
        assert(state.challenges@ == old(state).challenges@);
        assert(challenges_agree(state.signals@, state.challenges@));
    }
    Ok(())
}

/// The arbiters without those at `addr`.
pub open spec fn without(s: Seq<String>, addr: Seq<char>) -> Seq<String>
    decreases s.len(),
{
    if s.len() == 0 {
        s
    } else if s.last()@ == addr {
        without(s.drop_last(), addr)
    } else {
        without(s.drop_last(), addr).push(s.last())
    }
}

/// The admin adds an arbiter (validated) unless listed already.
pub fn exec_add_arbiter(state: &mut ReputationState, sender: &String, address: CheckedAddr) -> (r: Result<(), ReputationError>)
    requires
        old(state).wf(),
    ensures
        sender@ != old(state).config.admin@ ==> r == Err::<(), ReputationError>(ReputationError::Unauthorized),
        sender@ == old(state).config.admin@ && address is Err ==> r == Err::<(), ReputationError>(
            ReputationError::InvalidAddress { address: address->Err_0 },
        ),
        r is Ok <==> sender@ == old(state).config.admin@ && address is Ok,
        r is Err ==> *final(state) == *old(state),
        r is Ok ==> {
            let a = address->Ok_0;
            &&& final(state).wf()
            &&& final(state).signals == old(state).signals
            &&& final(state).challenges == old(state).challenges
            &&& final(state).category_min_stakes == old(state).category_min_stakes
            &&& final(state).config == (Config { arbiters: final(state).config.arbiters, ..old(state).config })
            &&& final(state).config.arbiters@ == if is_arbiter(old(state).config, a) {
                old(state).config.arbiters@
            } else {
                old(state).config.arbiters@.push(a)
            }
        },
{
    if *sender != state.config.admin {
        return Err(ReputationError::Unauthorized);
    }
    let a = checked_addr(&address)?;
    if !arbiter_listed(&state.config, &a) {
        state.config.arbiters.push(a);
    }
    Ok(())
}

/// The admin removes every listing of an arbiter (validated).
pub fn exec_remove_arbiter(state: &mut ReputationState, sender: &String, address: CheckedAddr) -> (r: Result<(), ReputationError>)
    requires
        old(state).wf(),
    ensures
        sender@ != old(state).config.admin@ ==> r == Err::<(), ReputationError>(ReputationError::Unauthorized),
        sender@ == old(state).config.admin@ && address is Err ==> r == Err::<(), ReputationError>(
            ReputationError::InvalidAddress { address: address->Err_0 },
        ),
        r is Ok <==> sender@ == old(state).config.admin@ && address is Ok,
        r is Err ==> *final(state) == *old(state),
        r is Ok ==> {
            &&& final(state).wf()
            &&& final(state).signals == old(state).signals
            &&& final(state).challenges == old(state).challenges
            &&& final(state).category_min_stakes == old(state).category_min_stakes
            &&& final(state).config == (Config { arbiters: final(state).config.arbiters, ..old(state).config })
            &&& final(state).config.arbiters@ == without(old(state).config.arbiters@, (address->Ok_0)@)
        },
{
    if *sender != state.config.admin {
        return Err(ReputationError::Unauthorized);
    }
    let a = checked_addr(&address)?;
    let ghost arbs = state.config.arbiters@;
    let mut kept: Vec<String> = Vec::new();
    let mut i: usize = 0;
    while i < state.config.arbiters.len()
        invariant
            i <= state.config.arbiters.len(),
            arbs == state.config.arbiters@,
            kept@ == without(arbs.take(i as int), a@),
        decreases state.config.arbiters.len() - i,
    {
        assert(arbs.take(i as int + 1).drop_last() =~= arbs.take(i as int));
        if state.config.arbiters[i] != a {
            kept.push(state.config.arbiters[i].clone());
        }
        i += 1;
    }
    assert(arbs.take(i as int) =~= arbs);
    state.config.arbiters = kept;
    Ok(())
}


// ── Queries ────────────────────────────────────────────────────────────

/// The index key of a signal's subject.
pub open spec fn signal_key(sig: Signal) -> Seq<char> {
    key_of(sig.subject_type, sig.subject_id@, sig.category@)
}

/// Ids, in order, of the signals indexed under `key`.
pub open spec fn ids_with_key(s: Seq<Signal>, key: Seq<char>) -> Seq<u64>
    decreases s.len(),
{
    if s.len() == 0 {
        Seq::empty()
    } else if signal_key(s.last()) == key {
        ids_with_key(s.drop_last(), key).push(s.last().id)
    } else {
        ids_with_key(s.drop_last(), key)
    }
}

/// What the reputation score reads of a counting signal.
#[derive(Clone, Copy, Debug, PartialEq, Eq, Structural)]
pub struct ScoreSignal {
    pub endorsement_level: u8,
    pub submitted_at: u64,
}

/// The counting signals indexed under `key`, in order.
pub open spec fn counted_with_key(s: Seq<Signal>, key: Seq<char>) -> Seq<ScoreSignal>
    decreases s.len(),
{
    if s.len() == 0 {
        Seq::empty()
    } else if signal_key(s.last()) == key && counts(s.last().status) {
        counted_with_key(s.drop_last(), key).push(
            ScoreSignal { endorsement_level: s.last().endorsement_level, submitted_at: s.last().submitted_at },
        )
    } else {
        counted_with_key(s.drop_last(), key)
    }
}

/// The signals of a subject in a category (all signals under its index
/// key), by id, in submission order.
pub fn query_signals_by_subject(state: &ReputationState, subject_type: SubjectType, subject_id: &String, category: &String)
    -> (r: Vec<u64>)
    ensures
        r@ == ids_with_key(state.signals@, key_of(subject_type, subject_id@, category@)),
{
    let key = subject_key(&subject_type, subject_id.as_str(), category.as_str());
    let ghost sigs = state.signals@;
    let mut ids: Vec<u64> = Vec::new();
    let mut i: usize = 0;
    while i < state.signals.len()
        invariant
            i <= state.signals.len(),
            sigs == state.signals@,
            key@ == key_of(subject_type, subject_id@, category@),
            ids@ == ids_with_key(sigs.take(i as int), key@),
        decreases state.signals.len() - i,
    {
        let sig = &state.signals[i];
        let k = subject_key(&sig.subject_type, sig.subject_id.as_str(), sig.category.as_str());
        assert(sigs.take(i as int + 1).drop_last() =~= sigs.take(i as int));
        if k == key {
            ids.push(sig.id);
        }
        i += 1;
    }
    assert(sigs.take(i as int) =~= sigs);
    ids
}

/// The reputation of a subject in a category: a score from 0 to 1000 and
/// how many of its signals count and exist.
#[derive(Clone)]
pub struct ReputationScoreResponse {
    pub score: u64,
    pub contributing_signals: u32,
    pub total_signals: u32,
}

/// What a reputation score is computed from.
#[derive(Clone)]
pub struct ScoreInputs {
    /// All signals under the subject's key (as a `u32`, truncated).
    pub total_signals: u32,
    /// The active and upheld ones, in order.
    pub contributing: Vec<ScoreSignal>,
}

/// The inputs of a subject's reputation score: how many signals it has and
/// the level and age of each that counts (active or upheld).
pub fn query_score_inputs(state: &ReputationState, subject_type: SubjectType, subject_id: &String, category: &String)
    -> (r: ScoreInputs)
    ensures
        r.total_signals == ids_with_key(state.signals@, key_of(subject_type, subject_id@, category@)).len() as u32,
        r.contributing@ == counted_with_key(state.signals@, key_of(subject_type, subject_id@, category@)),
{
    let key = subject_key(&subject_type, subject_id.as_str(), category.as_str());
    let ghost sigs = state.signals@;
    let mut total: usize = 0;
    let mut contributing: Vec<ScoreSignal> = Vec::new();
    let mut i: usize = 0;
    while i < state.signals.len()
        invariant
            i <= state.signals.len(),
            sigs == state.signals@,
            key@ == key_of(subject_type, subject_id@, category@),
            total == ids_with_key(sigs.take(i as int), key@).len(),
            contributing@ == counted_with_key(sigs.take(i as int), key@),
        decreases state.signals.len() - i,
    {
        let sig = &state.signals[i];
        let k = subject_key(&sig.subject_type, sig.subject_id.as_str(), sig.category.as_str());
        assert(sigs.take(i as int + 1).drop_last() =~= sigs.take(i as int));
        proof {
            lemma_ids_with_key_len(sigs.take(i as int), key@);
        }
        if k == key {
            total = total + 1;
            if sig.status.contributes_to_score() {
                contributing.push(ScoreSignal { endorsement_level: sig.endorsement_level, submitted_at: sig.submitted_at });
            }
        }
        i += 1;
    }
    assert(sigs.take(i as int) =~= sigs);
    ScoreInputs { total_signals: total as u32, contributing }
}

proof fn lemma_ids_with_key_len(s: Seq<Signal>, key: Seq<char>)
    ensures
        ids_with_key(s, key).len() <= s.len(),
    decreases s.len(),
{
    if s.len() > 0 {
        lemma_ids_with_key_len(s.drop_last(), key);
    }
}

/// Ids, in order, of the pending challenges with id at least `start`.
pub open spec fn pending_ids(cs: Seq<Challenge>, i: int, start: int) -> Seq<u64>
    decreases cs.len() - i,
{
    if i < 0 || i >= cs.len() {
        Seq::empty()
    } else if cs[i].id >= start && cs[i].outcome == ChallengeOutcome::Pending {
        seq![cs[i].id] + pending_ids(cs, i + 1, start)
    } else {
        pending_ids(cs, i + 1, start)
    }
}

/// Pending challenges after `start_after`, by id, at most `limit` of them
/// (default 30, at most 100).
pub fn query_active_challenges(state: &ReputationState, start_after: Option<u64>, limit: Option<u32>) -> (r: Vec<u64>)
    requires
        start_after != Some(u64::MAX),
    ensures
        r@ == first_n(
            pending_ids(state.challenges@, 0, match start_after { Some(s) => s + 1, None => 0 }),
            capped_limit(limit, 30, 100),
        ),
{
    let lim = cap_limit(limit, 30, 100);
    let start: u64 = match start_after { Some(s) => s + 1, None => 0 };
    let ghost all = pending_ids(state.challenges@, 0, start as int);
    let mut out: Vec<u64> = Vec::new();
    if lim == 0 {
        assert(out@ =~= first_n(all, 0));
        return out;
    }
    let mut i: usize = 0;
    loop
        invariant_except_break
            i <= state.challenges.len(),
            out@.len() < lim,
            all == out@ + pending_ids(state.challenges@, i as int, start as int),
        invariant
            all == pending_ids(state.challenges@, 0, start as int),
        ensures
            out@ == first_n(all, lim as int),
        decreases state.challenges.len() - i,
    {
        if i >= state.challenges.len() {
            assert(all =~= out@);
            break;
        }
        let c = &state.challenges[i];
        if c.id >= start && c.outcome == ChallengeOutcome::Pending {
            out.push(c.id);
            assert(all =~= out@ + pending_ids(state.challenges@, i as int + 1, start as int));
            if out.len() >= lim {
                assert(out@ =~= first_n(all, lim as int)) by {
                    assert(all.take(lim as int) =~= out@);
                }
                break;
            }
        } else {
            assert(all =~= out@ + pending_ids(state.challenges@, i as int + 1, start as int));
        }
        i += 1;
    }
    out
}

/// The minimum stake of a category: its own, or the default.
pub fn query_category_min_stake(state: &ReputationState, category: &String) -> (r: u128)
    ensures
        r == min_stake_of(*state, category@),
{
    proof {
        lemma_stake_index(state.category_min_stakes@, category@, 0);
    }
    match find_stake(&state.category_min_stakes, category) {
        Some(k) => state.category_min_stakes[k].min_stake,
        None => state.config.default_min_stake,
    }
}

// ── Laws ───────────────────────────────────────────────────────────────

/// A terminal signal has no further transitions: it cannot be activated,
/// withdrawn, challenged or invalidated; no challenge on it can escalate
/// it; and settling a challenge on it, either way, leaves its status as it
/// is.
pub proof fn law_terminal_signal_refuses_transitions(
    s: ReputationState,
    id: u64,
    sender: String,
    now: u64,
    funds: Seq<Coin>,
    rationale: String,
    evidence: Evidence,
    cid: u64,
    valid: bool,
)
    requires
        s.wf(),
        s.has_signal(id),
        terminal(s.signal(id).status),
    ensures
        activate_check(s, now, id) is Err,
        withdraw_check(s, sender, id) is Err,
        challenge_check(s, sender, now, funds, id, rationale, evidence) is Err,
        invalidate_check(s, sender, id, rationale) is Err,
        s.has_challenge(cid) && s.challenge(cid).signal_id == id ==> escalate_check(s, now, cid) is Err,
        s.has_challenge(cid) && s.challenge(cid).signal_id == id ==> settled_signals(s, id, valid) == s.signals@,
{
}

/// In every well-formed state a signal is challenged or escalated only
/// while it has a pending challenge, and a signal with a pending challenge
/// is challenged, escalated, or was invalidated by the admin while under
/// challenge (the challenge then waits to be settled).
pub proof fn law_challenged_exactly_while_pending(s: ReputationState, id: u64)
    requires
        s.wf(),
        s.has_signal(id),
    ensures
        under_challenge(s.signal(id).status) ==> has_pending(s.challenges@, id),
        has_pending(s.challenges@, id) ==> may_hold_challenge(s.signal(id).status),
{
    reveal(challenges_agree);
    assert(s.signals@[id - 1].id == id);
    if has_pending(s.challenges@, id) {
        let k = choose|k: int| 0 <= k < s.challenges@.len() && #[trigger] s.challenges@[k].signal_id == id
            && s.challenges@[k].outcome == ChallengeOutcome::Pending;
        assert(s.challenges@[k].outcome == ChallengeOutcome::Pending);
    }
}

/// Only active and upheld signals count toward a score, and each counting
/// signal is one of the subject's signals.
pub proof fn law_score_counts_active_and_upheld(s: Seq<Signal>, key: Seq<char>)
    ensures
        counted_with_key(s, key).len() <= ids_with_key(s, key).len(),
    decreases s.len(),
{
    if s.len() > 0 {
        law_score_counts_active_and_upheld(s.drop_last(), key);
    }
}

} // verus!
