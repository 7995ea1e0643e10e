//! Curated marketplace collections: a curator bonds a collection of credit
//! batches that meet a quality threshold; anyone may challenge a batch's
//! inclusion with a deposit, and a lost challenge slashes the curator's
//! bond. Quality scores below the threshold drop the batch from every
//! collection.

use vstd::prelude::*;
use crate::money::{CheckedAddr, Coin, Transfer, TransferView, lemma_ratio_le, multiply_ratio, plus_seconds, ratio, send, send_if, send_nonzero, tv};
use crate::paging::{cap_limit, capped_limit, first_n, kept_ids, page};

verus! {

pub const DEFAULT_QUERY_LIMIT: u32 = 10;
pub const MAX_QUERY_LIMIT: u32 = 30;
/// Highest quality score and confidence.
pub const MAX_SCORE: u32 = 1000;

#[derive(Clone)]
pub struct Config {
    pub admin: String,
    pub community_pool: String,
    pub min_curation_bond: u128,
    pub curation_fee_rate_bps: u64,
    pub challenge_deposit: u128,
    pub slash_percentage_bps: u64,
    pub activation_delay_seconds: u64,
    pub unbonding_period_seconds: u64,
    pub bond_top_up_window_seconds: u64,
    pub min_quality_score: u32,
    pub max_collections_per_curator: u32,
    pub denom: String,
}

#[derive(Clone, Copy, Debug, PartialEq, Eq, Structural)]
pub enum CollectionStatus {
    Proposed,
    Active,
    UnderReview,
    Suspended,
    Closed,
}

#[derive(Clone)]
pub struct Collection {
    pub id: u64,
    pub curator: String,
    pub name: String,
    pub criteria: String,
    pub status: CollectionStatus,
    pub bond_amount: u128,
    pub batches: Vec<String>,
    pub created_at: u64,
    pub activates_at: u64,
    pub suspension_expires_at: Option<u64>,
    pub closed_at: Option<u64>,
}

#[derive(Clone, Copy, Debug, PartialEq, Eq, Structural)]
pub enum ChallengeResolution {
    CuratorWins,
    ChallengerWins,
}

#[derive(Clone)]
pub struct Challenge {
    pub id: u64,
    pub collection_id: u64,
    pub challenger: String,
    pub batch_denom: String,
    pub deposit: u128,
    pub evidence: String,
    pub filed_at: u64,
    pub resolution: Option<ChallengeResolution>,
}

#[derive(Clone)]
pub struct QualityScore {
    pub batch_denom: String,
    pub score: u32,
    pub confidence: u32,
    pub computed_at: u64,
}

/// How many collections a curator holds.
#[derive(Clone)]
pub struct CuratorCount {
    pub curator: String,
    pub count: u32,
}

pub struct InstantiateMsg {
    pub community_pool: CheckedAddr,
    pub min_curation_bond: Option<u128>,
    pub curation_fee_rate_bps: Option<u64>,
    pub challenge_deposit: Option<u128>,
    pub slash_percentage_bps: Option<u64>,
    pub activation_delay_seconds: Option<u64>,
    pub unbonding_period_seconds: Option<u64>,
    pub bond_top_up_window_seconds: Option<u64>,
    pub min_quality_score: Option<u32>,
    pub max_collections_per_curator: Option<u32>,
    pub denom: String,
}

/// Everything the contract stores: configuration, collections and
/// challenges by id (id `i + 1` at index `i`), quality scores by batch and
/// collection counts by curator (for both, the first entry of a key is the
/// one that counts).
#[derive(Clone)]
pub struct CurationState {
    pub config: Config,
    pub collections: Vec<Collection>,
    pub challenges: Vec<Challenge>,
    pub quality_scores: Vec<QualityScore>,
    pub curator_counts: Vec<CuratorCount>,
}

#[derive(Clone, Copy, Debug, PartialEq, Eq, Structural)]
pub enum Expected {
    Proposed,
    Active,
    Suspended,
    ActiveOrProposed,
    Closed,
}

#[derive(Clone, Copy, Debug, PartialEq, Eq, Structural)]
pub enum Action {
    Activate,
    AddBatches,
    RemoveBatches,
    Close,
    TopUpBond,
    ResolveChallenges,
    SubmitQualityScores,
    WithdrawBond,
    UpdateConfig,
}

#[derive(Debug, PartialEq, Eq)]
pub enum CurationError {
    Unauthorized { action: Action },
    CollectionNotFound { id: u64 },
    ChallengeNotFound { id: u64 },
    InvalidCollectionStatus { expected: Expected, actual: CollectionStatus },
    InsufficientBond { required: u128, sent: u128 },
    InsufficientDeposit { required: u128, sent: u128 },
    WrongDenom { expected: String, got: String },
    /// Not exactly one coin was attached.
    CoinCount { expected: String, count: usize },
    MaxCollectionsExceeded { max: u32 },
    ActivationDelayNotElapsed,
    PendingChallenges,
    QualityScoreTooLow { batch_denom: String, score: u32, min: u32 },
    NoQualityScore { batch_denom: String },
    BatchAlreadyInCollection { batch_denom: String, collection_id: u64 },
    BatchNotInCollection { batch_denom: String, collection_id: u64 },
    ChallengeAlreadyResolved,
    InvalidScore { value: u32 },
    InvalidConfidence { value: u32 },
    BondBelowMinimum,
    UnbondingNotComplete,
    /// The collection's bond has already been paid out (or slashed to zero).
    NothingToWithdraw { id: u64 },
    InvalidAddress { address: String },
}

impl CurationState {
    pub open spec fn wf(self) -> bool {
        &&& self.collections.len() < u64::MAX
        &&& self.challenges.len() < u64::MAX
        &&& forall|i: int| 0 <= i < self.collections.len() ==> #[trigger] self.collections[i].id == i + 1
        &&& forall|i: int| 0 <= i < self.collections.len() ==> distinct_texts(#[trigger] self.collections[i].batches@)
        &&& forall|i: int|
            0 <= i < self.challenges.len() ==> {
                &&& #[trigger] self.challenges[i].id == i + 1
                &&& 1 <= self.challenges[i].collection_id <= self.collections.len()
            }
    }

    pub open spec fn has_collection(self, id: u64) -> bool {
        1 <= id <= self.collections.len()
    }

    pub open spec fn collection(self, id: u64) -> Collection {
        self.collections[id - 1]
    }

    pub open spec fn has_challenge(self, id: u64) -> bool {
        1 <= id <= self.challenges.len()
    }

    pub open spec fn challenge(self, id: u64) -> Challenge {
        self.challenges[id - 1]
    }
}

/// No text occurs twice.
pub open spec fn distinct_texts(s: Seq<String>) -> bool {
    forall|a: int, b: int| 0 <= a < b < s.len() ==> #[trigger] s[a]@ != #[trigger] s[b]@
}

/// Whether every challenge of a collection is resolved.
pub open spec fn all_resolved(cs: Seq<Challenge>, collection_id: u64) -> bool {
    forall|k: int| 0 <= k < cs.len() && #[trigger] cs[k].collection_id == collection_id ==> cs[k].resolution is Some
}

/// Whether every challenge of a collection is resolved.
pub fn all_challenges_resolved(state: &CurationState, collection_id: u64) -> (r: bool)
    ensures
        r == all_resolved(state.challenges@, collection_id),
{
    let mut k: usize = 0;
    while k < state.challenges.len()
        invariant
            k <= state.challenges.len(),
            forall|j: int| 0 <= j < k && #[trigger] state.challenges@[j].collection_id == collection_id
                ==> state.challenges@[j].resolution is Some,
        decreases state.challenges.len() - k,
    {
        if state.challenges[k].collection_id == collection_id && state.challenges[k].resolution.is_none() {
            return false;
        }
        k += 1;
    }
    true
}

fn checked_addr(a: &CheckedAddr) -> (r: Result<String, CurationError>)
    ensures
        match *a {
            Ok(s) => r == Ok::<String, CurationError>(s),
            Err(s) => r == Err::<String, CurationError>(CurationError::InvalidAddress { address: s }),
        },
{
    match a {
        Ok(s) => Ok(s.clone()),
        Err(s) => Err(CurationError::InvalidAddress { address: s.clone() }),
    }
}

pub open spec fn opt_or<T>(o: Option<T>, d: T) -> T {
    match o {
        Some(v) => v,
        None => d,
    }
}

pub open spec fn must_pay_spec(funds: Seq<Coin>, denom: String) -> Result<u128, CurationError> {
    if funds.len() != 1 {
        Err(CurationError::CoinCount { expected: denom, count: funds.len() as usize })
    } else if funds[0].denom@ != denom@ {
        Err(CurationError::WrongDenom { expected: denom, got: funds[0].denom })
    } else {
        Ok(funds[0].amount)
    }
}

/// Exactly one coin, of `denom`: its amount (which may be zero).
pub fn must_pay(funds: &Vec<Coin>, denom: &String) -> (r: Result<u128, CurationError>)
    ensures
        r == must_pay_spec(funds@, *denom),
{
    if funds.len() != 1 {
        return Err(CurationError::CoinCount { expected: denom.clone(), count: funds.len() });
    }
    if funds[0].denom != *denom {
        return Err(CurationError::WrongDenom { expected: denom.clone(), got: funds[0].denom.clone() });
    }
    Ok(funds[0].amount)
}

// ── Keyed lists ────────────────────────────────────────────────────────

/// The first position from `i` on of text `key` in `s`, or -1.
pub open spec fn text_index(s: Seq<String>, key: Seq<char>, i: int) -> int
    decreases s.len() - i,
{
    if i < 0 || i >= s.len() {
        -1
    } else if s[i]@ == key {
        i
    } else {
        text_index(s, key, i + 1)
    }
}

pub proof fn lemma_text_index(s: Seq<String>, key: Seq<char>, i: int)
    requires
        0 <= i,
    ensures
        ({
            let k = text_index(s, key, i);
            &&& k == -1 || (i <= k < s.len() && s[k]@ == key)
            &&& k == -1 ==> forall|j: int| i <= j < s.len() ==> #[trigger] s[j]@ != key
            &&& k != -1 ==> forall|j: int| i <= j < k ==> #[trigger] s[j]@ != key
        }),
    decreases s.len() - i,
{
    if i < s.len() && s[i]@ != key {
        lemma_text_index(s, key, i + 1);
    }
}

/// The first position of `key` in `s`, if present.
pub fn find_text(s: &Vec<String>, key: &String) -> (r: Option<usize>)
    ensures
        match r {
            Some(k) => k as int == text_index(s@, key@, 0) && k < s.len(),
            None => text_index(s@, key@, 0) == -1,
        },
{
    proof {
        lemma_text_index(s@, key@, 0);
    }
    let mut k: usize = 0;
    while k < s.len()
        invariant
            k <= s.len(),
            text_index(s@, key@, 0) == text_index(s@, key@, k as int),
        decreases s.len() - k,
    {
        if s[k] == *key {
            return Some(k);
        }
        k += 1;
    }
    None
}

/// Appending a text absent from a list keeps its texts distinct.
pub proof fn lemma_push_distinct(s: Seq<String>, x: String)
    requires
        distinct_texts(s),
        text_index(s, x@, 0) == -1,
    ensures
        distinct_texts(s.push(x)),
{
    lemma_text_index(s, x@, 0);
    let t = s.push(x);
    assert forall|a: int, b: int| 0 <= a < b < t.len() implies #[trigger] t[a]@ != #[trigger] t[b]@ by {
        if b == s.len() {
            assert(s[a]@ != x@);
        } else {
            assert(s[a]@ != s[b]@);
        }
    }
}

/// Removing an element keeps texts distinct, and removing the only
/// occurrence of a text leaves none.
pub proof fn lemma_remove_distinct(s: Seq<String>, key: Seq<char>)
    requires
        distinct_texts(s),
    ensures
        distinct_texts(remove_first(s, key)),
        text_index(remove_first(s, key), key, 0) == -1,
{
    lemma_text_index(s, key, 0);
    let k = text_index(s, key, 0);
    let t = remove_first(s, key);
    if k != -1 {
        assert forall|a: int, b: int| 0 <= a < b < t.len() implies #[trigger] t[a]@ != #[trigger] t[b]@ by {
            let a0 = if a < k { a } else { a + 1 };
            let b0 = if b < k { b } else { b + 1 };
            assert(t[a] == s[a0]);
            assert(t[b] == s[b0]);
            assert(s[a0]@ != s[b0]@);
        }
        lemma_text_index(t, key, 0);
        let j = text_index(t, key, 0);
        if j != -1 {
            let j0 = if j < k { j } else { j + 1 };
            assert(t[j] == s[j0]);
            if j0 < k {
                assert(s[j0]@ != key);
            } else {
                assert(s[k]@ != s[j0]@);
            }
        }
    }
}

/// `s` without its first occurrence of `key`.
pub open spec fn remove_first(s: Seq<String>, key: Seq<char>) -> Seq<String> {
    let k = text_index(s, key, 0);
    if k == -1 { s } else { s.remove(k) }
}

/// The first quality score of batch `denom` from `i` on, or -1.
pub open spec fn score_index(s: Seq<QualityScore>, denom: Seq<char>, i: int) -> int
    decreases s.len() - i,
{
    if i < 0 || i >= s.len() {
        -1
    } else if s[i].batch_denom@ == denom {
        i
    } else {
        score_index(s, denom, i + 1)
    }
}

pub proof fn lemma_score_index(s: Seq<QualityScore>, denom: Seq<char>, i: int)
    requires
        0 <= i,
    ensures
        ({
            let k = score_index(s, denom, i);
            &&& k == -1 || (i <= k < s.len() && s[k].batch_denom@ == denom)
            &&& k == -1 ==> forall|j: int| i <= j < s.len() ==> #[trigger] s[j].batch_denom@ != denom
            &&& k != -1 ==> forall|j: int| i <= j < k ==> #[trigger] s[j].batch_denom@ != denom
        }),
    decreases s.len() - i,
{
    if i < s.len() && s[i].batch_denom@ != denom {
        lemma_score_index(s, denom, i + 1);
    }
}

/// The score recorded for a batch, if any.
pub open spec fn score_lookup(s: Seq<QualityScore>, denom: Seq<char>) -> Option<QualityScore> {
    let k = score_index(s, denom, 0);
    if k == -1 { None } else { Some(s[k]) }
}

/// The quality score of a batch, if one was submitted.
pub open spec fn score_of(s: CurationState, denom: Seq<char>) -> Option<QualityScore> {
    score_lookup(s.quality_scores@, denom)
}

fn find_score(s: &Vec<QualityScore>, denom: &String) -> (r: Option<usize>)
    ensures
        match r {
            Some(k) => k as int == score_index(s@, denom@, 0) && k < s.len(),
            None => score_index(s@, denom@, 0) == -1,
        },
{
    proof {
        lemma_score_index(s@, denom@, 0);
    }
    let mut k: usize = 0;
    while k < s.len()
        invariant
            k <= s.len(),
            score_index(s@, denom@, 0) == score_index(s@, denom@, k as int),
        decreases s.len() - k,
    {
        if s[k].batch_denom == *denom {
            return Some(k);
        }
        k += 1;
    }
    None
}

/// The first count entry of `curator` from `i` on, or -1.
pub open spec fn count_index(s: Seq<CuratorCount>, curator: Seq<char>, i: int) -> int
    decreases s.len() - i,
{
    if i < 0 || i >= s.len() {
        -1
    } else if s[i].curator@ == curator {
        i
    } else {
        count_index(s, curator, i + 1)
    }
}

pub proof fn lemma_count_index(s: Seq<CuratorCount>, curator: Seq<char>, i: int)
    requires
        0 <= i,
    ensures
        ({
            let k = count_index(s, curator, i);
            &&& k == -1 || (i <= k < s.len() && s[k].curator@ == curator)
            &&& k == -1 ==> forall|j: int| i <= j < s.len() ==> #[trigger] s[j].curator@ != curator
            &&& k != -1 ==> forall|j: int| i <= j < k ==> #[trigger] s[j].curator@ != curator
        }),
    decreases s.len() - i,
{
    if i < s.len() && s[i].curator@ != curator {
        lemma_count_index(s, curator, i + 1);
    }
}

/// The count recorded for a curator, if any.
pub open spec fn count_lookup(s: Seq<CuratorCount>, curator: Seq<char>) -> Option<u32> {
    let k = count_index(s, curator, 0);
    if k == -1 { None } else { Some(s[k].count) }
}

/// The recorded collection count of a curator, if any.
pub open spec fn count_entry(s: CurationState, curator: Seq<char>) -> Option<u32> {
    count_lookup(s.curator_counts@, curator)
}

fn find_count(s: &Vec<CuratorCount>, curator: &String) -> (r: Option<usize>)
    ensures
        match r {
            Some(k) => k as int == count_index(s@, curator@, 0) && k < s.len(),
            None => count_index(s@, curator@, 0) == -1,
        },
{
    proof {
        lemma_count_index(s@, curator@, 0);
    }
    let mut k: usize = 0;
    while k < s.len()
        invariant
            k <= s.len(),
            count_index(s@, curator@, 0) == count_index(s@, curator@, k as int),
        decreases s.len() - k,
    {
        if s[k].curator == *curator {
            return Some(k);
        }
        k += 1;
    }
    None
}

/// Records `count` for `curator`: the lookup of that curator gives it, every
/// other lookup is unchanged.
fn set_count(s: &mut Vec<CuratorCount>, curator: &String, count: u32)
    ensures
        count_lookup(final(s)@, curator@) == Some(count),
        forall|other: Seq<char>| other != curator@
            ==> #[trigger] count_lookup(final(s)@, other) == count_lookup(old(s)@, other),
{
    let ghost before = s@;
    proof {
        lemma_count_index(before, curator@, 0);
    }
    match find_count(s, curator) {
        Some(k) => {
            s[k].count = count;
            proof {
                let after = s@;
                lemma_count_index(after, curator@, 0);
                let b = count_index(after, curator@, 0);
                assert(after[k as int].curator@ == curator@);
                if b != -1 && b < k {
                    assert(before[b].curator@ != curator@);
                }
                assert(b == k);
                assert forall|other: Seq<char>| other != curator@
                    implies #[trigger] count_lookup(after, other) == count_lookup(before, other) by {
                    lemma_count_index(before, other, 0);
                    lemma_count_index(after, other, 0);
                    let a = count_index(before, other, 0);
                    let b = count_index(after, other, 0);
                    if a != -1 {
                        assert(after[a].curator@ == other);
                    }
                    if b != -1 {
                        assert(before[b].curator@ == other);
                    }
                    if a != -1 && b != -1 {
                        if a < b {
                            assert(after[a].curator@ != other);
                        } else if b < a {
                            assert(before[b].curator@ != other);
                        }
                    }
                }
            }
        },
        None => {
            s.push(CuratorCount { curator: curator.clone(), count });
            proof {
                let after = s@;
                let n = before.len() as int;
                lemma_count_index(after, curator@, 0);
                assert(after[n].curator@ == curator@);
                let b = count_index(after, curator@, 0);
                if b != -1 && b < n {
                    assert(before[b].curator@ != curator@);
                }
                assert(b == n);
                assert forall|other: Seq<char>| other != curator@
                    implies #[trigger] count_lookup(after, other) == count_lookup(before, other) by {
                    lemma_count_index(before, other, 0);
                    lemma_count_index(after, other, 0);
                    let a = count_index(before, other, 0);
                    let b = count_index(after, other, 0);
                    if a != -1 {
                        assert(after[a].curator@ == other);
                    }
                    if b != -1 && b < n {
                        assert(before[b].curator@ == other);
                    }
                    if a != -1 && b != -1 {
                        if a < b {
                            assert(after[a].curator@ != other);
                        } else if b < a {
                            assert(before[b].curator@ != other);
                        }
                    }
                }
            }
        },
    }
}


// ── Instantiate ────────────────────────────────────────────────────────

/// Creates the state with the sender as admin, the validated community
/// pool, and each parameter as given or its default: a 1000-REGEN bond,
/// a 0.5% curation fee, a 100-REGEN challenge deposit, a 20% slash, 48h
/// activation delay, 14-day unbonding, 7-day top-up window, minimum quality
/// 300, at most 5 collections per curator.
pub fn instantiate(sender: &String, msg: InstantiateMsg) -> (r: Result<CurationState, CurationError>)
    ensures
        msg.community_pool is Err ==> r == Err::<CurationState, CurationError>(
            CurationError::InvalidAddress { address: msg.community_pool->Err_0 },
        ),
        msg.community_pool matches Ok(pool) ==> r matches Ok(s) && {
            &&& s.wf()
            &&& s.collections@.len() == 0 && s.challenges@.len() == 0
            &&& s.quality_scores@.len() == 0 && s.curator_counts@.len() == 0
            &&& s.config == (Config {
                admin: *sender,
                community_pool: pool,
                min_curation_bond: opt_or(msg.min_curation_bond, 1_000_000_000u128),
                curation_fee_rate_bps: opt_or(msg.curation_fee_rate_bps, 50u64),
                challenge_deposit: opt_or(msg.challenge_deposit, 100_000_000u128),
                slash_percentage_bps: opt_or(msg.slash_percentage_bps, 2000u64),
                activation_delay_seconds: opt_or(msg.activation_delay_seconds, 172_800u64),
                unbonding_period_seconds: opt_or(msg.unbonding_period_seconds, 1_209_600u64),
                bond_top_up_window_seconds: opt_or(msg.bond_top_up_window_seconds, 604_800u64),
                min_quality_score: opt_or(msg.min_quality_score, 300u32),
                max_collections_per_curator: opt_or(msg.max_collections_per_curator, 5u32),
                denom: msg.denom,
            })
        },
{
    let community_pool = checked_addr(&msg.community_pool)?;
    let config = Config {
        admin: sender.clone(),
        community_pool,
        min_curation_bond: match msg.min_curation_bond { Some(v) => v, None => 1_000_000_000 },
        curation_fee_rate_bps: match msg.curation_fee_rate_bps { Some(v) => v, None => 50 },
        challenge_deposit: match msg.challenge_deposit { Some(v) => v, None => 100_000_000 },
        slash_percentage_bps: match msg.slash_percentage_bps { Some(v) => v, None => 2000 },
        activation_delay_seconds: match msg.activation_delay_seconds { Some(v) => v, None => 172_800 },
        unbonding_period_seconds: match msg.unbonding_period_seconds { Some(v) => v, None => 1_209_600 },
        bond_top_up_window_seconds: match msg.bond_top_up_window_seconds { Some(v) => v, None => 604_800 },
        min_quality_score: match msg.min_quality_score { Some(v) => v, None => 300 },
        max_collections_per_curator: match msg.max_collections_per_curator { Some(v) => v, None => 5 },
        denom: msg.denom,
    };
    Ok(CurationState {
        config,
        collections: Vec::new(),
        challenges: Vec::new(),
        quality_scores: Vec::new(),
        curator_counts: Vec::new(),
    })
}

// ── Collections ────────────────────────────────────────────────────────

/// A curator's collection count, zero when none is recorded.
pub open spec fn count_of(s: CurationState, curator: Seq<char>) -> u32 {
    match count_entry(s, curator) {
        Some(c) => c,
        None => 0,
    }
}

pub open spec fn create_check(s: CurationState, sender: String, funds: Seq<Coin>) -> Result<u128, CurationError> {
    match must_pay_spec(funds, s.config.denom) {
        Err(e) => Err(e),
        Ok(sent) => if sent < s.config.min_curation_bond {
            Err(CurationError::InsufficientBond { required: s.config.min_curation_bond, sent })
        } else if count_of(s, sender@) >= s.config.max_collections_per_curator {
            Err(CurationError::MaxCollectionsExceeded { max: s.config.max_collections_per_curator })
        } else {
            Ok(sent)
        },
    }
}

/// A curator creates a collection with a bond of at least the minimum,
/// within the per-curator limit; it may activate after the activation
/// delay. Returns the new id.
pub fn execute_create_collection(
    state: &mut CurationState,
    sender: &String,
    now: u64,
    funds: &Vec<Coin>,
    name: String,
    criteria: String,
) -> (r: Result<u64, CurationError>)
    requires
        old(state).wf(),
        old(state).collections.len() + 1 < u64::MAX,
        create_check(*old(state), *sender, funds@) is Ok
            ==> now + old(state).config.activation_delay_seconds * 1_000_000_000 <= u64::MAX,
    ensures
        r is Ok <==> create_check(*old(state), *sender, funds@) is Ok,
        r is Err ==> r->Err_0 == create_check(*old(state), *sender, funds@)->Err_0 && *final(state) == *old(state),
        r matches Ok(id) ==> {
            let n = old(state).collections.len() as int;
            let c = final(state).collections@[n];
            &&& final(state).wf()
            &&& final(state).config == old(state).config
            &&& final(state).challenges == old(state).challenges
            &&& final(state).quality_scores == old(state).quality_scores
            &&& final(state).collections@.len() == n + 1
            &&& final(state).collections@.take(n) == old(state).collections@
            &&& id == n + 1
            &&& c.id == id && c.curator == *sender && c.name == name && c.criteria == criteria
            &&& c.status == CollectionStatus::Proposed
            &&& c.bond_amount == create_check(*old(state), *sender, funds@)->Ok_0
            &&& c.batches@.len() == 0
            &&& c.created_at == now
            &&& c.activates_at == now + old(state).config.activation_delay_seconds * 1_000_000_000
            &&& c.suspension_expires_at is None && c.closed_at is None
            &&& count_entry(*final(state), sender@) == Some((count_of(*old(state), sender@) + 1) as u32)
            &&& forall|other: Seq<char>| other != sender@
                ==> #[trigger] count_entry(*final(state), other) == count_entry(*old(state), other)
        },
{
    let sent = must_pay(funds, &state.config.denom)?;
    if sent < state.config.min_curation_bond {
        return Err(CurationError::InsufficientBond { required: state.config.min_curation_bond, sent });
    }
    let count = match find_count(&state.curator_counts, sender) {
        Some(k) => state.curator_counts[k].count,
        None => 0,
    };
    if count >= state.config.max_collections_per_curator {
        return Err(CurationError::MaxCollectionsExceeded { max: state.config.max_collections_per_curator });
    }
    let id = state.collections.len() as u64 + 1;
    let activates_at = plus_seconds(now, state.config.activation_delay_seconds);
    let ghost old_state = *state;
    let c = Collection {
        id,
        curator: sender.clone(),
        name,
        criteria,
        status: CollectionStatus::Proposed,
        bond_amount: sent,
        batches: Vec::new(),
        created_at: now,
        activates_at,
        suspension_expires_at: None,
        closed_at: None,
    };
    let ghost new_c = c;
    state.collections.push(c);
    set_count(&mut state.curator_counts, sender, count + 1);
    proof {
        let n = old_state.collections.len() as int;
        assert(state.collections@[n] == new_c);
        assert(state.collections@.take(n) =~= old_state.collections@);
        assert(state.collections@ =~= old_state.collections@.push(new_c));
        lemma_push_collection_keeps_wf(old_state, *state);
    }
    Ok(id)
}

/// Adding a collection with the next id keeps the state well formed.
proof fn lemma_push_collection_keeps_wf(old_state: CurationState, s: CurationState)
    requires
        old_state.wf(),
        s.challenges == old_state.challenges,
        s.collections.len() < u64::MAX,
        s.collections@ == old_state.collections@.push(s.collections@.last()),
        s.collections@.last().id == s.collections.len(),
        distinct_texts(s.collections@.last().batches@),
    ensures
        s.wf(),
{
    let n = old_state.collections.len() as int;
    assert forall|i: int| 0 <= i < s.collections.len() implies #[trigger] s.collections[i].id == i + 1 by {
        if i < n {
            assert(s.collections[i] == old_state.collections[i]);
        }
    }
    assert forall|i: int| 0 <= i < s.collections.len() implies distinct_texts(#[trigger] s.collections[i].batches@) by {
        if i < n {
            assert(s.collections[i] == old_state.collections[i]);
        }
    }
    assert forall|i: int| 0 <= i < s.challenges.len() implies {
        &&& #[trigger] s.challenges[i].id == i + 1
        &&& 1 <= s.challenges[i].collection_id <= s.collections.len()
    } by {
        assert(old_state.challenges[i].id == i + 1);
    }
}

/// The index of collection `id`, or the not-found error.
pub fn load_collection(state: &CurationState, id: u64) -> (r: Result<usize, CurationError>)
    ensures
        r is Ok <==> state.has_collection(id),
        r matches Ok(i) ==> i == id - 1,
        r is Err ==> r == Err::<usize, CurationError>(CurationError::CollectionNotFound { id }),
{
    if id == 0 || id > state.collections.len() as u64 {
        return Err(CurationError::CollectionNotFound { id });
    }
    Ok((id - 1) as usize)
}

/// Replacing one collection by one with the same id keeps the state well
/// formed.
proof fn lemma_collection_change_keeps_wf(old_state: CurationState, s: CurationState, id: u64)
    requires
        old_state.wf(),
        old_state.has_collection(id),
        s.challenges == old_state.challenges,
        s.collections@ == old_state.collections@.update(id - 1, s.collection(id)),
        s.collection(id).id == id,
        distinct_texts(s.collection(id).batches@),
    ensures
        s.wf(),
{
    assert forall|i: int| 0 <= i < s.collections.len() implies #[trigger] s.collections[i].id == i + 1 by {
        assert(old_state.collections[i].id == i + 1);
    }
    assert forall|i: int| 0 <= i < s.collections.len() implies distinct_texts(#[trigger] s.collections[i].batches@) by {
        if i != id - 1 {
            assert(s.collections[i] == old_state.collections[i]);
        }
    }
    assert forall|i: int| 0 <= i < s.challenges.len() implies {
        &&& #[trigger] s.challenges[i].id == i + 1
        &&& 1 <= s.challenges[i].collection_id <= s.collections.len()
    } by {
        assert(old_state.challenges[i].id == i + 1);
    }
}

pub open spec fn activate_check(s: CurationState, sender: String, now: u64, id: u64) -> Result<(), CurationError> {
    if !s.has_collection(id) {
        Err(CurationError::CollectionNotFound { id })
    } else if sender@ != s.collection(id).curator@ {
        Err(CurationError::Unauthorized { action: Action::Activate })
    } else if s.collection(id).status != CollectionStatus::Proposed {
        Err(CurationError::InvalidCollectionStatus { expected: Expected::Proposed, actual: s.collection(id).status })
    } else if now < s.collection(id).activates_at {
        Err(CurationError::ActivationDelayNotElapsed)
    } else if !all_resolved(s.challenges@, id) {
        Err(CurationError::PendingChallenges)
    } else {
        Ok(())
    }
}

/// The curator activates a proposed collection after its delay, once every
/// challenge of it is resolved.
pub fn execute_activate_collection(state: &mut CurationState, sender: &String, now: u64, collection_id: u64)
    -> (r: Result<(), CurationError>)
    requires
        old(state).wf(),
    ensures
        r == activate_check(*old(state), *sender, now, collection_id),
        r is Err ==> *final(state) == *old(state),
        r is Ok ==> final(state).wf() && final(state).config == old(state).config
            && final(state).challenges == old(state).challenges
            && final(state).quality_scores == old(state).quality_scores
            && final(state).curator_counts == old(state).curator_counts
            && final(state).collections@ == old(state).collections@.update(collection_id - 1,
                Collection { status: CollectionStatus::Active, ..old(state).collection(collection_id) }),
{
    let i = load_collection(state, collection_id)?;
    if *sender != state.collections[i].curator {
        return Err(CurationError::Unauthorized { action: Action::Activate });
    }
    if state.collections[i].status != CollectionStatus::Proposed {
        return Err(CurationError::InvalidCollectionStatus { expected: Expected::Proposed, actual: state.collections[i].status });
    }
    if now < state.collections[i].activates_at {
        return Err(CurationError::ActivationDelayNotElapsed);
    }
    if !all_challenges_resolved(state, collection_id) {
        return Err(CurationError::PendingChallenges);
    }
    let ghost old_state = *state;
    state.collections[i].status = CollectionStatus::Active;
    proof {
        assert(old_state.collections[i as int].id == collection_id);
        assert(state.collections@ =~= old_state.collections@.update(i as int, state.collections@[i as int]));
        assert(distinct_texts(old_state.collections[i as int].batches@));
        lemma_collection_change_keeps_wf(old_state, *state, collection_id);
    }
    Ok(())
}

pub open spec fn add_check(s: CurationState, sender: String, id: u64, batch: String) -> Result<(), CurationError> {
    if !s.has_collection(id) {
        Err(CurationError::CollectionNotFound { id })
    } else if sender@ != s.collection(id).curator@ {
        Err(CurationError::Unauthorized { action: Action::AddBatches })
    } else if s.collection(id).status != CollectionStatus::Active {
        Err(CurationError::InvalidCollectionStatus { expected: Expected::Active, actual: s.collection(id).status })
    } else if text_index(s.collection(id).batches@, batch@, 0) != -1 {
        Err(CurationError::BatchAlreadyInCollection { batch_denom: batch, collection_id: id })
    } else if score_of(s, batch@) is None {
        Err(CurationError::NoQualityScore { batch_denom: batch })
    } else if score_of(s, batch@)->Some_0.score < s.config.min_quality_score {
        Err(CurationError::QualityScoreTooLow {
            batch_denom: batch,
            score: score_of(s, batch@)->Some_0.score,
            min: s.config.min_quality_score,
        })
    } else {
        Ok(())
    }
}

/// The curator adds a batch, scored at least the minimum quality, to an
/// active collection that does not hold it yet.
pub fn execute_add_to_collection(state: &mut CurationState, sender: &String, collection_id: u64, batch_denom: String)
    -> (r: Result<(), CurationError>)
    requires
        old(state).wf(),
    ensures
        r == add_check(*old(state), *sender, collection_id, batch_denom),
        r is Err ==> *final(state) == *old(state),
        r is Ok ==> {
            let c = old(state).collection(collection_id);
            let d = final(state).collection(collection_id);
            &&& final(state).wf()
            &&& final(state).config == old(state).config
            &&& final(state).challenges == old(state).challenges
            &&& final(state).quality_scores == old(state).quality_scores
            &&& final(state).curator_counts == old(state).curator_counts
            &&& final(state).collections@ == old(state).collections@.update(collection_id - 1, d)
            &&& d == (Collection { batches: d.batches, ..c })
            &&& d.batches@ == c.batches@.push(batch_denom)
        },
{
    let i = load_collection(state, collection_id)?;
    if *sender != state.collections[i].curator {
        return Err(CurationError::Unauthorized { action: Action::AddBatches });
    }
    if state.collections[i].status != CollectionStatus::Active {
        return Err(CurationError::InvalidCollectionStatus { expected: Expected::Active, actual: state.collections[i].status });
    }
    if find_text(&state.collections[i].batches, &batch_denom).is_some() {
        return Err(CurationError::BatchAlreadyInCollection { batch_denom, collection_id });
    }
    let k = match find_score(&state.quality_scores, &batch_denom) {
        Some(k) => k,
        None => { return Err(CurationError::NoQualityScore { batch_denom }); },
    };
    let score = state.quality_scores[k].score;
    if score < state.config.min_quality_score {
        return Err(CurationError::QualityScoreTooLow { batch_denom, score, min: state.config.min_quality_score });
    }
    let ghost old_state = *state;
    let ghost x = batch_denom;
    state.collections[i].batches.push(batch_denom);
    proof {
        assert(old_state.collections[i as int].id == collection_id);
        assert(distinct_texts(old_state.collections[i as int].batches@));
        lemma_push_distinct(old_state.collections[i as int].batches@, x);
        assert(state.collections@ =~= old_state.collections@.update(i as int, state.collections@[i as int]));
        assert(distinct_texts(old_state.collections[i as int].batches@));
        lemma_collection_change_keeps_wf(old_state, *state, collection_id);
    }
    Ok(())
}

pub open spec fn remove_check(s: CurationState, sender: String, id: u64, batch: String) -> Result<(), CurationError> {
    if !s.has_collection(id) {
        Err(CurationError::CollectionNotFound { id })
    } else if sender@ != s.collection(id).curator@ {
        Err(CurationError::Unauthorized { action: Action::RemoveBatches })
    } else if text_index(s.collection(id).batches@, batch@, 0) == -1 {
        Err(CurationError::BatchNotInCollection { batch_denom: batch, collection_id: id })
    } else {
        Ok(())
    }
}

/// The curator removes a batch from one of its collections.
pub fn execute_remove_from_collection(state: &mut CurationState, sender: &String, collection_id: u64, batch_denom: String)
    -> (r: Result<(), CurationError>)
    requires
        old(state).wf(),
    ensures
        r == remove_check(*old(state), *sender, collection_id, batch_denom),
        r is Err ==> *final(state) == *old(state),
        r is Ok ==> {
            let c = old(state).collection(collection_id);
            let d = final(state).collection(collection_id);
            &&& final(state).wf()
            &&& final(state).config == old(state).config
            &&& final(state).challenges == old(state).challenges
            &&& final(state).quality_scores == old(state).quality_scores
            &&& final(state).curator_counts == old(state).curator_counts
            &&& final(state).collections@ == old(state).collections@.update(collection_id - 1, d)
            &&& d == (Collection { batches: d.batches, ..c })
            &&& d.batches@ == remove_first(c.batches@, batch_denom@)
        },
{
    let i = load_collection(state, collection_id)?;
    if *sender != state.collections[i].curator {
        return Err(CurationError::Unauthorized { action: Action::RemoveBatches });
    }
    let pos = match find_text(&state.collections[i].batches, &batch_denom) {
        Some(p) => p,
        None => { return Err(CurationError::BatchNotInCollection { batch_denom, collection_id }); },
    };
    let ghost old_state = *state;
    state.collections[i].batches.remove(pos);
    proof {
        assert(old_state.collections[i as int].id == collection_id);
        assert(distinct_texts(old_state.collections[i as int].batches@));
        lemma_remove_distinct(old_state.collections[i as int].batches@, batch_denom@);
        assert(state.collections@ =~= old_state.collections@.update(i as int, state.collections@[i as int]));
        assert(distinct_texts(old_state.collections[i as int].batches@));
        lemma_collection_change_keeps_wf(old_state, *state, collection_id);
    }
    Ok(())
}

pub open spec fn close_check(s: CurationState, sender: String, id: u64) -> Result<(), CurationError> {
    if !s.has_collection(id) {
        Err(CurationError::CollectionNotFound { id })
    } else if sender@ != s.collection(id).curator@ {
        Err(CurationError::Unauthorized { action: Action::Close })
    } else if !all_resolved(s.challenges@, id) {
        Err(CurationError::PendingChallenges)
    } else {
        Ok(())
    }
}

/// The curator closes a collection with no pending challenge, whatever its
/// status; the unbonding period starts now.
pub fn execute_close_collection(state: &mut CurationState, sender: &String, now: u64, collection_id: u64)
    -> (r: Result<(), CurationError>)
    requires
        old(state).wf(),
    ensures
        r == close_check(*old(state), *sender, collection_id),
        r is Err ==> *final(state) == *old(state),
        r is Ok ==> final(state).wf() && final(state).config == old(state).config
            && final(state).challenges == old(state).challenges
            && final(state).quality_scores == old(state).quality_scores
            && final(state).curator_counts == old(state).curator_counts
            && final(state).collections@ == old(state).collections@.update(collection_id - 1, Collection {
                status: CollectionStatus::Closed,
                closed_at: Some(now),
                ..old(state).collection(collection_id)
            }),
{
    let i = load_collection(state, collection_id)?;
    if *sender != state.collections[i].curator {
        return Err(CurationError::Unauthorized { action: Action::Close });
    }
    if !all_challenges_resolved(state, collection_id) {
        return Err(CurationError::PendingChallenges);
    }
    let ghost old_state = *state;
    state.collections[i].status = CollectionStatus::Closed;
    state.collections[i].closed_at = Some(now);
    proof {
        assert(old_state.collections[i as int].id == collection_id);
        assert(state.collections@ =~= old_state.collections@.update(i as int, state.collections@[i as int]));
        assert(distinct_texts(old_state.collections[i as int].batches@));
        lemma_collection_change_keeps_wf(old_state, *state, collection_id);
    }
    Ok(())
}

pub open spec fn top_up_check(s: CurationState, sender: String, funds: Seq<Coin>, id: u64) -> Result<u128, CurationError> {
    if !s.has_collection(id) {
        Err(CurationError::CollectionNotFound { id })
    } else if sender@ != s.collection(id).curator@ {
        Err(CurationError::Unauthorized { action: Action::TopUpBond })
    } else if s.collection(id).status != CollectionStatus::Suspended {
        Err(CurationError::InvalidCollectionStatus { expected: Expected::Suspended, actual: s.collection(id).status })
    } else {
        must_pay_spec(funds, s.config.denom)
    }
}

/// The curator adds to the bond of a suspended collection; with a bond of
/// at least the minimum it is active again and its suspension lifted.
/// Returns the new bond and status.
pub fn execute_top_up_bond(state: &mut CurationState, sender: &String, funds: &Vec<Coin>, collection_id: u64)
    -> (r: Result<(u128, CollectionStatus), CurationError>)
    requires
        old(state).wf(),
        top_up_check(*old(state), *sender, funds@, collection_id) matches Ok(sent)
            ==> old(state).collection(collection_id).bond_amount + sent <= u128::MAX,
    ensures
        r is Ok <==> top_up_check(*old(state), *sender, funds@, collection_id) is Ok,
        r is Err ==> r->Err_0 == top_up_check(*old(state), *sender, funds@, collection_id)->Err_0
            && *final(state) == *old(state),
        r matches Ok((bond, status)) ==> {
            let c = old(state).collection(collection_id);
            let sent = top_up_check(*old(state), *sender, funds@, collection_id)->Ok_0;
            let restored = c.bond_amount + sent >= old(state).config.min_curation_bond;
            &&& final(state).wf()
            &&& final(state).config == old(state).config
            &&& final(state).challenges == old(state).challenges
            &&& final(state).quality_scores == old(state).quality_scores
            &&& final(state).curator_counts == old(state).curator_counts
            &&& bond == c.bond_amount + sent
            &&& status == if restored { CollectionStatus::Active } else { CollectionStatus::Suspended }
            &&& final(state).collections@ == old(state).collections@.update(collection_id - 1, Collection {
                bond_amount: bond,
                status,
                suspension_expires_at: if restored { None } else { c.suspension_expires_at },
                ..c
            })
        },
{
    let i = load_collection(state, collection_id)?;
    if *sender != state.collections[i].curator {
        return Err(CurationError::Unauthorized { action: Action::TopUpBond });
    }
    if state.collections[i].status != CollectionStatus::Suspended {
        return Err(CurationError::InvalidCollectionStatus { expected: Expected::Suspended, actual: state.collections[i].status });
    }
    let sent = must_pay(funds, &state.config.denom)?;
    let ghost old_state = *state;
    state.collections[i].bond_amount = state.collections[i].bond_amount + sent;
    if state.collections[i].bond_amount >= state.config.min_curation_bond {
        state.collections[i].status = CollectionStatus::Active;
        state.collections[i].suspension_expires_at = None;
    }
    proof {
        assert(old_state.collections[i as int].id == collection_id);
        assert(state.collections@ =~= old_state.collections@.update(i as int, state.collections@[i as int]));
        assert(distinct_texts(old_state.collections[i as int].batches@));
        lemma_collection_change_keeps_wf(old_state, *state, collection_id);
    }
    Ok((state.collections[i].bond_amount, state.collections[i].status))
}


// ── Challenges ─────────────────────────────────────────────────────────

pub open spec fn challenge_check(s: CurationState, funds: Seq<Coin>, id: u64) -> Result<u128, CurationError> {
    if !s.has_collection(id) {
        Err(CurationError::CollectionNotFound { id })
    } else {
        match must_pay_spec(funds, s.config.denom) {
            Err(e) => Err(e),
            Ok(sent) => if sent < s.config.challenge_deposit {
                Err(CurationError::InsufficientDeposit { required: s.config.challenge_deposit, sent })
            } else if s.collection(id).status != CollectionStatus::Active
                && s.collection(id).status != CollectionStatus::Proposed {
                Err(CurationError::InvalidCollectionStatus {
                    expected: Expected::ActiveOrProposed,
                    actual: s.collection(id).status,
                })
            } else {
                Ok(sent)
            },
        }
    }
}

/// Anyone challenges a batch's inclusion in an active or proposed
/// collection with at least the challenge deposit; the collection goes
/// under review. Returns the challenge id.
pub fn execute_challenge_batch(
    state: &mut CurationState,
    sender: &String,
    now: u64,
    funds: &Vec<Coin>,
    collection_id: u64,
    batch_denom: String,
    evidence: String,
) -> (r: Result<u64, CurationError>)
    requires
        old(state).wf(),
        old(state).challenges.len() + 1 < u64::MAX,
    ensures
        r is Ok <==> challenge_check(*old(state), funds@, collection_id) is Ok,
        r is Err ==> r->Err_0 == challenge_check(*old(state), funds@, collection_id)->Err_0 && *final(state) == *old(state),
        r matches Ok(cid) ==> {
            let n = old(state).challenges.len() as int;
            let c = final(state).challenges@[n];
            &&& final(state).wf()
            &&& final(state).config == old(state).config
            &&& final(state).quality_scores == old(state).quality_scores
            &&& final(state).curator_counts == old(state).curator_counts
            &&& final(state).collections@ == old(state).collections@.update(collection_id - 1,
                Collection { status: CollectionStatus::UnderReview, ..old(state).collection(collection_id) })
            &&& final(state).challenges@.len() == n + 1
            &&& final(state).challenges@.take(n) == old(state).challenges@
            &&& cid == n + 1
            &&& c.id == cid && c.collection_id == collection_id && c.challenger == *sender
            &&& c.batch_denom == batch_denom && c.evidence == evidence && c.filed_at == now
            &&& c.deposit == challenge_check(*old(state), funds@, collection_id)->Ok_0
            &&& c.resolution is None
        },
{
    let i = load_collection(state, collection_id)?;
    let sent = must_pay(funds, &state.config.denom)?;
    if sent < state.config.challenge_deposit {
        return Err(CurationError::InsufficientDeposit { required: state.config.challenge_deposit, sent });
    }
    let status = state.collections[i].status;
    if status != CollectionStatus::Active && status != CollectionStatus::Proposed {
        return Err(CurationError::InvalidCollectionStatus { expected: Expected::ActiveOrProposed, actual: status });
    }
    let cid = state.challenges.len() as u64 + 1;
    let ghost old_state = *state;
    let c = Challenge {
        id: cid,
        collection_id,
        challenger: sender.clone(),
        batch_denom,
        deposit: sent,
        evidence,
        filed_at: now,
        resolution: None,
    };
    let ghost new_c = c;
    state.challenges.push(c);
    state.collections[i].status = CollectionStatus::UnderReview;
    proof {
        let n = old_state.challenges.len() as int;
        assert(state.challenges@[n] == new_c);
        assert(state.challenges@.take(n) =~= old_state.challenges@);
        assert(old_state.collections[i as int].id == collection_id);
        assert(distinct_texts(old_state.collections[i as int].batches@));
        assert(state.collections@ =~= old_state.collections@.update(i as int, state.collections@[i as int]));
        assert forall|j: int| 0 <= j < state.collections.len() implies #[trigger] state.collections[j].id == j + 1 by {
            assert(old_state.collections[j].id == j + 1);
        }
        assert forall|j: int| 0 <= j < state.collections.len() implies distinct_texts(#[trigger] state.collections[j].batches@) by {
            assert(distinct_texts(old_state.collections[j].batches@));
        }
        assert forall|j: int| 0 <= j < state.challenges.len() implies {
            &&& #[trigger] state.challenges[j].id == j + 1
            &&& 1 <= state.challenges[j].collection_id <= state.collections.len()
        } by {
            if j < n {
                assert(state.challenges[j] == old_state.challenges[j]);
                assert(old_state.challenges[j].id == j + 1);
            }
        }
    }
    Ok(cid)
}

/// A state with the same ids, batch lists and challenge targets as a well
/// formed one is well formed.
proof fn lemma_same_shape_keeps_wf(old_state: CurationState, s: CurationState)
    requires
        old_state.wf(),
        s.collections.len() == old_state.collections.len(),
        s.challenges.len() == old_state.challenges.len(),
        forall|j: int| 0 <= j < s.collections.len() ==> #[trigger] s.collections[j].id == old_state.collections[j].id
            && s.collections[j].batches@ == old_state.collections[j].batches@,
        forall|j: int| 0 <= j < s.challenges.len() ==> #[trigger] s.challenges[j].id == old_state.challenges[j].id
            && s.challenges[j].collection_id == old_state.challenges[j].collection_id,
    ensures
        s.wf(),
{
    assert forall|j: int| 0 <= j < s.collections.len() implies #[trigger] s.collections[j].id == j + 1 by {
        assert(old_state.collections[j].id == j + 1);
    }
    assert forall|j: int| 0 <= j < s.collections.len() implies distinct_texts(#[trigger] s.collections[j].batches@) by {
        assert(s.collections[j].id == old_state.collections[j].id);
        assert(distinct_texts(old_state.collections[j].batches@));
    }
    assert forall|j: int| 0 <= j < s.challenges.len() implies {
        &&& #[trigger] s.challenges[j].id == j + 1
        &&& 1 <= s.challenges[j].collection_id <= s.collections.len()
    } by {
        assert(old_state.challenges[j].id == j + 1);
    }
}

/// A state with the same ids and challenge targets as a well formed one,
/// and distinct batches in each collection, is well formed.
proof fn lemma_relisted_keeps_wf(old_state: CurationState, s: CurationState)
    requires
        old_state.wf(),
        s.collections.len() == old_state.collections.len(),
        s.challenges == old_state.challenges,
        forall|j: int| 0 <= j < s.collections.len() ==> #[trigger] s.collections[j].id == old_state.collections[j].id
            && distinct_texts(s.collections[j].batches@),
    ensures
        s.wf(),
{
    assert forall|j: int| 0 <= j < s.collections.len() implies #[trigger] s.collections[j].id == j + 1 by {
        assert(old_state.collections[j].id == j + 1);
    }
    assert forall|j: int| 0 <= j < s.collections.len() implies distinct_texts(#[trigger] s.collections[j].batches@) by {
        assert(s.collections[j].id == old_state.collections[j].id);
    }
    assert forall|j: int| 0 <= j < s.challenges.len() implies {
        &&& #[trigger] s.challenges[j].id == j + 1
        &&& 1 <= s.challenges[j].collection_id <= s.collections.len()
    } by {
        assert(old_state.challenges[j].id == j + 1);
    }
}

/// The index of challenge `id`, or the not-found error.
pub fn load_challenge(state: &CurationState, id: u64) -> (r: Result<usize, CurationError>)
    ensures
        r is Ok <==> state.has_challenge(id),
        r matches Ok(i) ==> i == id - 1,
        r is Err ==> r == Err::<usize, CurationError>(CurationError::ChallengeNotFound { id }),
{
    if id == 0 || id > state.challenges.len() as u64 {
        return Err(CurationError::ChallengeNotFound { id });
    }
    Ok((id - 1) as usize)
}

pub open spec fn resolve_check(s: CurationState, sender: String, cid: u64) -> Result<(), CurationError> {
    if sender@ != s.config.admin@ {
        Err(CurationError::Unauthorized { action: Action::ResolveChallenges })
    } else if !s.has_challenge(cid) {
        Err(CurationError::ChallengeNotFound { id: cid })
    } else if s.challenge(cid).resolution is Some {
        Err(CurationError::ChallengeAlreadyResolved)
    } else {
        Ok(())
    }
}

/// The refusal a resolution of the challenge would meet now, if any: a
/// resolution goes ahead exactly when this is `Ok`.
pub fn may_resolve_challenge(state: &CurationState, sender: &String, challenge_id: u64) -> (r: Result<(), CurationError>)
    requires
        state.wf(),
    ensures
        r == resolve_check(*state, *sender, challenge_id),
{
    if *sender != state.config.admin {
        return Err(CurationError::Unauthorized { action: Action::ResolveChallenges });
    }
    let ci = load_challenge(state, challenge_id)?;
    if state.challenges[ci].resolution.is_some() {
        return Err(CurationError::ChallengeAlreadyResolved);
    }
    Ok(())
}

/// `a - b`, or zero when `b` is larger.
pub open spec fn sat_sub(a: int, b: int) -> int {
    if a > b { a - b } else { 0 }
}

/// `(slash, challenger's share, community pool's share)` of a lost
/// challenge: the slash percentage of the bond, split in half (the
/// challenger's half rounded down).
pub open spec fn slash_split(s: CurationState, cid: u64) -> (int, int, int) {
    let bond = s.collection(s.challenge(cid).collection_id).bond_amount as int;
    let slash = ratio(bond, s.config.slash_percentage_bps as int, 10_000);
    let share = ratio(slash, 1, 2);
    (slash, share, slash - share)
}

/// The challenges once challenge `cid` records its resolution.
pub open spec fn with_resolution(s: CurationState, cid: u64, resolution: ChallengeResolution) -> Seq<Challenge> {
    s.challenges@.update(cid - 1, Challenge { resolution: Some(resolution), ..s.challenge(cid) })
}

/// The collection of challenge `cid` after its resolution: a lost
/// challenge slashes the bond and suspends a collection left below the
/// minimum bond until the top-up window closes; otherwise the collection is
/// active again once no challenge of it is pending.
pub open spec fn resolved_collection(s: CurationState, cid: u64, resolution: ChallengeResolution, now: u64) -> Collection {
    let c = s.collection(s.challenge(cid).collection_id);
    let settled = all_resolved(with_resolution(s, cid, resolution), c.id);
    match resolution {
        ChallengeResolution::CuratorWins => Collection {
            status: if settled { CollectionStatus::Active } else { c.status },
            ..c
        },
        ChallengeResolution::ChallengerWins => {
            let bond = sat_sub(c.bond_amount as int, slash_split(s, cid).0) as u128;
            if bond < s.config.min_curation_bond {
                Collection {
                    bond_amount: bond,
                    status: CollectionStatus::Suspended,
                    suspension_expires_at: Some((now + s.config.bond_top_up_window_seconds * 1_000_000_000) as u64),
                    ..c
                }
            } else {
                Collection {
                    bond_amount: bond,
                    status: if settled { CollectionStatus::Active } else { c.status },
                    ..c
                }
            }
        },
    }
}

/// The transfers of a resolution: a lost challenge returns the deposit and
/// half the slash to the challenger and sends the other half, if any, to
/// the community pool; a won one sends the deposit to the community pool.
pub open spec fn resolve_transfers(s: CurationState, cid: u64, resolution: ChallengeResolution) -> Seq<TransferView> {
    let ch = s.challenge(cid);
    let (slash, share, community) = slash_split(s, cid);
    match resolution {
        ChallengeResolution::CuratorWins => seq![(s.config.community_pool@, s.config.denom@, ch.deposit)],
        ChallengeResolution::ChallengerWins =>
            seq![(ch.challenger@, s.config.denom@, (ch.deposit + share) as u128)]
                + send_if(s.config.community_pool@, s.config.denom@, community as u128),
    }
}

/// Whether a resolution's amounts fit: the slash in `u128`, the
/// challenger's total too, and a suspension's deadline in a timestamp.
pub open spec fn resolve_fits(s: CurationState, cid: u64, resolution: ChallengeResolution, now: u64) -> bool {
    let c = s.collection(s.challenge(cid).collection_id);
    let (slash, share, community) = slash_split(s, cid);
    resolution == ChallengeResolution::ChallengerWins ==> {
        &&& slash <= u128::MAX
        &&& s.challenge(cid).deposit + share <= u128::MAX
        &&& sat_sub(c.bond_amount as int, slash) < s.config.min_curation_bond
            ==> now + s.config.bond_top_up_window_seconds * 1_000_000_000 <= u64::MAX
    }
}

/// The admin resolves a pending challenge (see `resolved_collection` and
/// `resolve_transfers`).
#[verifier::spinoff_prover]
#[verifier::rlimit(30)]
pub fn execute_resolve_challenge(
    state: &mut CurationState,
    sender: &String,
    now: u64,
    challenge_id: u64,
    resolution: ChallengeResolution,
) -> (r: Result<Vec<Transfer>, CurationError>)
    requires
        old(state).wf(),
        resolve_check(*old(state), *sender, challenge_id) is Ok ==> resolve_fits(*old(state), challenge_id, resolution, now),
    ensures
        r is Ok <==> resolve_check(*old(state), *sender, challenge_id) is Ok,
        r is Err ==> r->Err_0 == resolve_check(*old(state), *sender, challenge_id)->Err_0 && *final(state) == *old(state),
        r matches Ok(transfers) ==> {
            let col = old(state).challenge(challenge_id).collection_id;
            &&& final(state).wf()
            &&& final(state).config == old(state).config
            &&& final(state).quality_scores == old(state).quality_scores
            &&& final(state).curator_counts == old(state).curator_counts
            &&& final(state).challenges@ == with_resolution(*old(state), challenge_id, resolution)
            &&& final(state).collections@ == old(state).collections@.update(col - 1,
                resolved_collection(*old(state), challenge_id, resolution, now))
            &&& tv(transfers@) == resolve_transfers(*old(state), challenge_id, resolution)
        },
{
    if *sender != state.config.admin {
        return Err(CurationError::Unauthorized { action: Action::ResolveChallenges });
    }
    let ci = load_challenge(state, challenge_id)?;
    if state.challenges[ci].resolution.is_some() {
        return Err(CurationError::ChallengeAlreadyResolved);
    }
    proof {
        assert(state.challenges[ci as int].id == ci + 1);
    }
    let ghost old_state = *state;
    let col = state.challenges[ci].collection_id;
    let i = (col - 1) as usize;
    state.challenges[ci].resolution = Some(resolution);
    assert(state.challenges@ =~= with_resolution(old_state, challenge_id, resolution));
    let mut transfers: Vec<Transfer> = Vec::new();
    match resolution {
        ChallengeResolution::CuratorWins => {
            send(&mut transfers, &state.config.community_pool, &state.config.denom, state.challenges[ci].deposit);
            if all_challenges_resolved(state, col) {
                state.collections[i].status = CollectionStatus::Active;
            }
        },
        ChallengeResolution::ChallengerWins => {
            let bond = state.collections[i].bond_amount;
            let slash = multiply_ratio(bond, state.config.slash_percentage_bps as u128, 10_000);
            proof {
                lemma_ratio_le(slash as int, 1, 2);
            }
            state.collections[i].bond_amount = if bond > slash { bond - slash } else { 0 };
            let share = multiply_ratio(slash, 1, 2);
            let community = slash - share;
            let total = state.challenges[ci].deposit + share;
            send(&mut transfers, &state.challenges[ci].challenger, &state.config.denom, total);
            send_nonzero(&mut transfers, &state.config.community_pool, &state.config.denom, community);
            if state.collections[i].bond_amount < state.config.min_curation_bond {
                state.collections[i].status = CollectionStatus::Suspended;
                state.collections[i].suspension_expires_at = Some(plus_seconds(now, state.config.bond_top_up_window_seconds));
            } else if all_challenges_resolved(state, col) {
                state.collections[i].status = CollectionStatus::Active;
            }
        },
    }
    proof {
        assert(tv(transfers@) =~= resolve_transfers(old_state, challenge_id, resolution));
        assert(state.collections@ =~= old_state.collections@.update(i as int,
            resolved_collection(old_state, challenge_id, resolution, now)));
        assert(old_state.collections[i as int].id == col);
        lemma_same_shape_keeps_wf(old_state, *state);
    }
    Ok(transfers)
}


// ── Quality scores ─────────────────────────────────────────────────────

/// Records a score: the lookup of its batch gives it, every other lookup
/// is unchanged.
fn set_score(s: &mut Vec<QualityScore>, qs: QualityScore)
    ensures
        score_lookup(final(s)@, qs.batch_denom@) == Some(qs),
        forall|other: Seq<char>| other != qs.batch_denom@
            ==> #[trigger] score_lookup(final(s)@, other) == score_lookup(old(s)@, other),
{
    let ghost before = s@;
    let ghost d = qs.batch_denom@;
    proof {
        lemma_score_index(before, d, 0);
    }
    match find_score(s, &qs.batch_denom) {
        Some(k) => {
            let ghost g = qs;
            s.set(k, qs);
            proof {
                let after = s@;
                assert(after[k as int] == g);
                lemma_score_index(after, d, 0);
                let b = score_index(after, d, 0);
                if b != -1 && b < k {
                    assert(before[b].batch_denom@ != d);
                }
                assert(b == k);
                assert forall|other: Seq<char>| other != d
                    implies #[trigger] score_lookup(after, other) == score_lookup(before, other) by {
                    lemma_score_index(before, other, 0);
                    lemma_score_index(after, other, 0);
                    let a = score_index(before, other, 0);
                    let b = score_index(after, other, 0);
                    if a != -1 {
                        assert(after[a].batch_denom@ == other);
                    }
                    if b != -1 {
                        assert(before[b].batch_denom@ == other);
                    }
                    if a != -1 && b != -1 {
                        if a < b {
                            assert(after[a].batch_denom@ != other);
                        } else if b < a {
                            assert(before[b].batch_denom@ != other);
                        }
                    }
                }
            }
        },
        None => {
            let ghost g = qs;
            s.push(qs);
            proof {
                let after = s@;
                let n = before.len() as int;
                assert(after[n] == g);
                lemma_score_index(after, d, 0);
                let b = score_index(after, d, 0);
                if b != -1 && b < n {
                    assert(before[b].batch_denom@ != d);
                }
                assert(b == n);
                assert forall|other: Seq<char>| other != d
                    implies #[trigger] score_lookup(after, other) == score_lookup(before, other) by {
                    lemma_score_index(before, other, 0);
                    lemma_score_index(after, other, 0);
                    let a = score_index(before, other, 0);
                    let b = score_index(after, other, 0);
                    if a != -1 {
                        assert(after[a].batch_denom@ == other);
                    }
                    if b != -1 && b < n {
                        assert(before[b].batch_denom@ == other);
                    }
                    if a != -1 && b != -1 {
                        if a < b {
                            assert(after[a].batch_denom@ != other);
                        } else if b < a {
                            assert(before[b].batch_denom@ != other);
                        }
                    }
                }
            }
        },
    }
}

pub open spec fn score_check(s: CurationState, sender: String, score: u32, confidence: u32) -> Result<(), CurationError> {
    if sender@ != s.config.admin@ {
        Err(CurationError::Unauthorized { action: Action::SubmitQualityScores })
    } else if score > MAX_SCORE {
        Err(CurationError::InvalidScore { value: score })
    } else if confidence > MAX_SCORE {
        Err(CurationError::InvalidConfidence { value: confidence })
    } else {
        Ok(())
    }
}

/// Ids, in order, of the collections that hold batch `denom`.
pub open spec fn holding_ids(cs: Seq<Collection>, denom: Seq<char>) -> Seq<u64>
    decreases cs.len(),
{
    if cs.len() == 0 {
        Seq::empty()
    } else if text_index(cs.last().batches@, denom, 0) != -1 {
        holding_ids(cs.drop_last(), denom).push(cs.last().id)
    } else {
        holding_ids(cs.drop_last(), denom)
    }
}

/// `b` is `a` with batch `denom` dropped from its list.
pub open spec fn dropped_batch(a: Collection, b: Collection, denom: Seq<char>) -> bool {
    &&& b == (Collection { batches: b.batches, ..a })
    &&& b.batches@ == remove_first(a.batches@, denom)
}

/// The admin records a batch's quality score and confidence (each at most
/// 1000). A score below the minimum drops the batch from every collection
/// that holds it; returns the ids of those collections.
pub fn execute_submit_quality_score(
    state: &mut CurationState,
    sender: &String,
    now: u64,
    batch_denom: String,
    score: u32,
    confidence: u32,
) -> (r: Result<Vec<u64>, CurationError>)
    requires
        old(state).wf(),
    ensures
        r is Ok <==> score_check(*old(state), *sender, score, confidence) is Ok,
        r is Err ==> r->Err_0 == score_check(*old(state), *sender, score, confidence)->Err_0 && *final(state) == *old(state),
        r matches Ok(removed) ==> {
            let low = score < old(state).config.min_quality_score;
            &&& final(state).wf()
            &&& final(state).config == old(state).config
            &&& final(state).challenges == old(state).challenges
            &&& final(state).curator_counts == old(state).curator_counts
            &&& score_of(*final(state), batch_denom@) == Some(QualityScore { batch_denom, score, confidence, computed_at: now })
            &&& forall|other: Seq<char>| other != batch_denom@
                ==> #[trigger] score_of(*final(state), other) == score_of(*old(state), other)
            &&& final(state).collections.len() == old(state).collections.len()
            &&& low ==> forall|j: int| 0 <= j < old(state).collections.len()
                ==> dropped_batch(old(state).collections[j], #[trigger] final(state).collections[j], batch_denom@)
            &&& !low ==> final(state).collections == old(state).collections
            &&& removed@ == if low { holding_ids(old(state).collections@, batch_denom@) } else { Seq::<u64>::empty() }
        },
{
    if *sender != state.config.admin {
        return Err(CurationError::Unauthorized { action: Action::SubmitQualityScores });
    }
    if score > MAX_SCORE {
        return Err(CurationError::InvalidScore { value: score });
    }
    if confidence > MAX_SCORE {
        return Err(CurationError::InvalidConfidence { value: confidence });
    }
    let low = score < state.config.min_quality_score;
    let ghost d = batch_denom@;
    let key = batch_denom.clone();
    set_score(&mut state.quality_scores, QualityScore { batch_denom, score, confidence, computed_at: now });
    let mut removed: Vec<u64> = Vec::new();
    if low {
        let ghost before = state.collections@;
        let ghost snap = *state;
        let mut j: usize = 0;
        while j < state.collections.len()
            invariant
                j <= state.collections.len(),
                state.config == snap.config,
                state.challenges == snap.challenges,
                state.quality_scores == snap.quality_scores,
                state.curator_counts == snap.curator_counts,
                state.collections.len() == before.len(),
                key@ == d,
                forall|k: int| 0 <= k < j ==> dropped_batch(before[k], #[trigger] state.collections@[k], d),
                forall|k: int| j <= k < before.len() ==> #[trigger] state.collections@[k] == before[k],
                removed@ == holding_ids(before.take(j as int), d),
            decreases state.collections.len() - j,
        {
            assert(before.take(j as int + 1).drop_last() =~= before.take(j as int));
            match find_text(&state.collections[j].batches, &key) {
                Some(pos) => {
                    state.collections[j].batches.remove(pos);
                    removed.push(state.collections[j].id);
                },
                None => {},
            }
            proof {
                assert(dropped_batch(before[j as int], state.collections@[j as int], d));
            }
            j += 1;
        }
        proof {
            assert(before.take(j as int) =~= before);
        }
    }
    proof {
        assert forall|j: int| 0 <= j < state.collections.len() implies
            #[trigger] state.collections[j].id == old(state).collections[j].id
            && distinct_texts(state.collections[j].batches@) by {
            assert(old(state).collections[j].id == j + 1);
            assert(distinct_texts(old(state).collections[j].batches@));
            if low {
                lemma_remove_distinct(old(state).collections[j].batches@, d);
            }
        }
        lemma_relisted_keeps_wf(*old(state), *state);
    }
    Ok(removed)
}

// ── Bonds and configuration ────────────────────────────────────────────

/// When a closed collection's bond may be withdrawn: its closing time (or
/// now, if none is recorded) plus the unbonding period.
pub open spec fn unbonds_at(s: CurationState, id: u64, now: u64) -> int {
    opt_or(s.collection(id).closed_at, now) + s.config.unbonding_period_seconds * 1_000_000_000
}

pub open spec fn withdraw_check(s: CurationState, sender: String, now: u64, id: u64) -> Result<(), CurationError> {
    if !s.has_collection(id) {
        Err(CurationError::CollectionNotFound { id })
    } else if sender@ != s.collection(id).curator@ {
        Err(CurationError::Unauthorized { action: Action::WithdrawBond })
    } else if s.collection(id).status != CollectionStatus::Closed {
        Err(CurationError::InvalidCollectionStatus { expected: Expected::Closed, actual: s.collection(id).status })
    } else if now < unbonds_at(s, id, now) {
        Err(CurationError::UnbondingNotComplete)
    } else if s.collection(id).bond_amount == 0 {
        Err(CurationError::NothingToWithdraw { id })
    } else {
        Ok(())
    }
}

/// The curator of a closed collection withdraws its bond once unbonded:
/// the whole bond is sent back and the curator's collection count goes
/// down by one (not below zero; a missing count counts as one). A bond is
/// paid out once: afterwards it is zero, and a further withdrawal of the
/// same collection is refused, so the count drops once per collection.
pub fn execute_withdraw_bond(state: &mut CurationState, sender: &String, now: u64, collection_id: u64)
    -> (r: Result<Vec<Transfer>, CurationError>)
    requires
        old(state).wf(),
        old(state).has_collection(collection_id) && sender@ == old(state).collection(collection_id).curator@
            && old(state).collection(collection_id).status == CollectionStatus::Closed
            ==> unbonds_at(*old(state), collection_id, now) <= u64::MAX,
    ensures
        r is Ok <==> withdraw_check(*old(state), *sender, now, collection_id) is Ok,
        r is Err ==> r->Err_0 == withdraw_check(*old(state), *sender, now, collection_id)->Err_0 && *final(state) == *old(state),
        r matches Ok(transfers) ==> {
            let c = old(state).collection(collection_id);
            let prior = match count_entry(*old(state), sender@) { Some(n) => n, None => 1u32 };
            &&& final(state).wf()
            &&& final(state).config == old(state).config
            &&& final(state).challenges == old(state).challenges
            &&& final(state).quality_scores == old(state).quality_scores
            &&& final(state).collections@ == old(state).collections@.update(collection_id - 1, Collection { bond_amount: 0, ..c })
            &&& tv(transfers@) == seq![(sender@, old(state).config.denom@, c.bond_amount)]
            &&& count_entry(*final(state), sender@) == Some(sat_sub(prior as int, 1) as u32)
            &&& forall|other: Seq<char>| other != sender@
                ==> #[trigger] count_entry(*final(state), other) == count_entry(*old(state), other)
        },
{
    let i = load_collection(state, collection_id)?;
    if *sender != state.collections[i].curator {
        return Err(CurationError::Unauthorized { action: Action::WithdrawBond });
    }
    if state.collections[i].status != CollectionStatus::Closed {
        return Err(CurationError::InvalidCollectionStatus { expected: Expected::Closed, actual: state.collections[i].status });
    }
    let closed_at = match state.collections[i].closed_at { Some(t) => t, None => now };
    let unbonds = plus_seconds(closed_at, state.config.unbonding_period_seconds);
    if now < unbonds {
        return Err(CurationError::UnbondingNotComplete);
    }
    let amount = state.collections[i].bond_amount;
    if amount == 0 {
        return Err(CurationError::NothingToWithdraw { id: collection_id });
    }
    let ghost old_state = *state;
    state.collections[i].bond_amount = 0;
    let prior = match find_count(&state.curator_counts, sender) {
        Some(k) => state.curator_counts[k].count,
        None => 1,
    };
    set_count(&mut state.curator_counts, sender, if prior > 0 { prior - 1 } else { 0 });
    let mut transfers: Vec<Transfer> = Vec::new();
    send(&mut transfers, sender, &state.config.denom, amount);
    proof {
        assert(tv(transfers@) =~= seq![(sender@, old_state.config.denom@, amount)]);
        assert(old_state.collections[i as int].id == collection_id);
        assert(distinct_texts(old_state.collections[i as int].batches@));
        assert(state.collections@ =~= old_state.collections@.update(i as int, state.collections@[i as int]));
        lemma_collection_change_keeps_wf(old_state, *state, collection_id);
    }
    Ok(transfers)
}

pub struct ConfigUpdate {
    pub community_pool: Option<CheckedAddr>,
    pub min_curation_bond: Option<u128>,
    pub curation_fee_rate_bps: Option<u64>,
    pub challenge_deposit: Option<u128>,
    pub slash_percentage_bps: Option<u64>,
    pub activation_delay_seconds: Option<u64>,
    pub unbonding_period_seconds: Option<u64>,
    pub bond_top_up_window_seconds: Option<u64>,
    pub min_quality_score: Option<u32>,
    pub max_collections_per_curator: Option<u32>,
}

pub open spec fn addr_or(o: Option<CheckedAddr>, d: String) -> String {
    match o {
        Some(Ok(a)) => a,
        _ => d,
    }
}

/// The admin updates the community pool (validated) and any parameter.
pub fn execute_update_config(state: &mut CurationState, sender: &String, update: ConfigUpdate) -> (r: Result<(), CurationError>)
    requires
        old(state).wf(),
    ensures
        sender@ != old(state).config.admin@ ==> r == Err::<(), CurationError>(CurationError::Unauthorized { action: Action::UpdateConfig }),
        sender@ == old(state).config.admin@ && update.community_pool is Some && update.community_pool->Some_0 is Err
            ==> r == Err::<(), CurationError>(CurationError::InvalidAddress { address: update.community_pool->Some_0->Err_0 }),
        r is Ok <==> sender@ == old(state).config.admin@ && !(update.community_pool is Some && update.community_pool->Some_0 is Err),
        r is Err ==> *final(state) == *old(state),
        r is Ok ==> {
            let c = old(state).config;
            &&& final(state).wf()
            &&& final(state).collections == old(state).collections
            &&& final(state).challenges == old(state).challenges
            &&& final(state).quality_scores == old(state).quality_scores
            &&& final(state).curator_counts == old(state).curator_counts
            &&& final(state).config == (Config {
                admin: c.admin,
                community_pool: addr_or(update.community_pool, c.community_pool),
                min_curation_bond: opt_or(update.min_curation_bond, c.min_curation_bond),
                curation_fee_rate_bps: opt_or(update.curation_fee_rate_bps, c.curation_fee_rate_bps),
                challenge_deposit: opt_or(update.challenge_deposit, c.challenge_deposit),
                slash_percentage_bps: opt_or(update.slash_percentage_bps, c.slash_percentage_bps),
                activation_delay_seconds: opt_or(update.activation_delay_seconds, c.activation_delay_seconds),
                unbonding_period_seconds: opt_or(update.unbonding_period_seconds, c.unbonding_period_seconds),
                bond_top_up_window_seconds: opt_or(update.bond_top_up_window_seconds, c.bond_top_up_window_seconds),
                min_quality_score: opt_or(update.min_quality_score, c.min_quality_score),
                max_collections_per_curator: opt_or(update.max_collections_per_curator, c.max_collections_per_curator),
                denom: c.denom,
            })
        },
{
    if *sender != state.config.admin {
        return Err(CurationError::Unauthorized { action: Action::UpdateConfig });
    }
    let ConfigUpdate {
        community_pool,
        min_curation_bond,
        curation_fee_rate_bps,
        challenge_deposit,
        slash_percentage_bps,
        activation_delay_seconds,
        unbonding_period_seconds,
        bond_top_up_window_seconds,
        min_quality_score,
        max_collections_per_curator,
    } = update;
    let pool = match &community_pool {
        Some(a) => Some(checked_addr(a)?),
        None => None,
    };
    let c = &mut state.config;
    if let Some(a) = pool {
        c.community_pool = a;
    }
    c.min_curation_bond = match min_curation_bond { Some(v) => v, None => c.min_curation_bond };
    c.curation_fee_rate_bps = match curation_fee_rate_bps { Some(v) => v, None => c.curation_fee_rate_bps };
    c.challenge_deposit = match challenge_deposit { Some(v) => v, None => c.challenge_deposit };
    c.slash_percentage_bps = match slash_percentage_bps { Some(v) => v, None => c.slash_percentage_bps };
    c.activation_delay_seconds = match activation_delay_seconds { Some(v) => v, None => c.activation_delay_seconds };
    c.unbonding_period_seconds = match unbonding_period_seconds { Some(v) => v, None => c.unbonding_period_seconds };
    c.bond_top_up_window_seconds = match bond_top_up_window_seconds {
        Some(v) => v,
        None => c.bond_top_up_window_seconds,
    };
    c.min_quality_score = match min_quality_score { Some(v) => v, None => c.min_quality_score };
    c.max_collections_per_curator = match max_collections_per_curator {
        Some(v) => v,
        None => c.max_collections_per_curator,
    };
    Ok(())
}


// ── Queries ────────────────────────────────────────────────────────────

pub open spec fn collection_ids(s: Seq<Collection>) -> Seq<u64> {
    s.map_values(|c: Collection| c.id)
}

pub open spec fn collection_flags(s: Seq<Collection>, status: Option<CollectionStatus>, curator: Option<String>) -> Seq<bool> {
    s.map_values(|c: Collection|
        (match status { Some(st) => c.status == st, None => true })
            && (match curator { Some(x) => c.curator@ == x@, None => true }))
}

/// One page of kept ids after `start_after`: at most `limit` (default 10,
/// at most 30), in id order.
pub open spec fn listed(ids: Seq<u64>, keep: Seq<bool>, start_after: Option<u64>, limit: Option<u32>) -> Seq<u64> {
    let start = match start_after { Some(a) => a + 1, None => 0 };
    first_n(kept_ids(ids, keep, 0, start), capped_limit(limit, DEFAULT_QUERY_LIMIT, MAX_QUERY_LIMIT))
}

proof fn lemma_nothing_after_max(ids: Seq<u64>, keep: Seq<bool>, i: int)
    ensures
        kept_ids(ids, keep, i, u64::MAX + 1) == Seq::<u64>::empty(),
    decreases ids.len() - i,
{
    if 0 <= i < ids.len() {
        lemma_nothing_after_max(ids, keep, i + 1);
    }
}

/// Collections by status and curator (each filter off when `None`), one
/// page, in id order.
pub fn query_collections(
    state: &CurationState,
    status: Option<CollectionStatus>,
    curator: Option<CheckedAddr>,
    start_after: Option<u64>,
    limit: Option<u32>,
) -> (r: Result<Vec<u64>, CurationError>)
    ensures
        curator matches Some(Err(x)) ==> r == Err::<Vec<u64>, CurationError>(CurationError::InvalidAddress { address: x }),
        !(curator matches Some(Err(_))) ==> (r matches Ok(ids) && ids@ == listed(
            collection_ids(state.collections@),
            collection_flags(state.collections@, status, match curator { Some(Ok(x)) => Some(x), _ => None }),
            start_after,
            limit,
        )),
{
    let who = match &curator {
        Some(a) => Some(checked_addr(a)?),
        None => None,
    };
    let ghost cs = state.collections@;
    let ghost who_spec = match curator { Some(Ok(x)) => Some(x), _ => None::<String> };
    assert(who == who_spec);
    let mut ids: Vec<u64> = Vec::new();
    let mut keep: Vec<bool> = Vec::new();
    let mut i: usize = 0;
    while i < state.collections.len()
        invariant
            i <= state.collections.len(),
            cs == state.collections@,
            ids@ == collection_ids(cs.take(i as int)),
            keep@ == collection_flags(cs.take(i as int), status, who),
        decreases state.collections.len() - i,
    {
        let c = &state.collections[i];
        let by_status = match status { Some(st) => c.status == st, None => true };
        let by_curator = match &who { Some(x) => c.curator == *x, None => true };
        ids.push(c.id);
        keep.push(by_status && by_curator);
        assert(cs.take(i as int + 1) =~= cs.take(i as int).push(*c));
        assert(ids@ =~= collection_ids(cs.take(i as int + 1)));
        assert(keep@ =~= collection_flags(cs.take(i as int + 1), status, who));
        i += 1;
    }
    assert(cs.take(i as int) =~= cs);
    let lim = cap_limit(limit, DEFAULT_QUERY_LIMIT, MAX_QUERY_LIMIT);
    match start_after {
        Some(a) => {
            if a == u64::MAX {
                let out: Vec<u64> = Vec::new();
                proof { lemma_nothing_after_max(ids@, keep@, 0); }
                assert(out@ =~= listed(ids@, keep@, start_after, limit));
                return Ok(out);
            }
            Ok(page(&ids, &keep, a + 1, lim))
        },
        None => Ok(page(&ids, &keep, 0, lim)),
    }
}

/// How many collections a curator holds, and the limit.
#[derive(Clone)]
pub struct CuratorStatsResponse {
    pub curator: String,
    pub collection_count: u32,
    pub max_collections: u32,
}

/// A curator's collection count (zero when none is recorded) and the
/// per-curator limit; the curator is echoed as given once validated.
pub fn query_curator_stats(state: &CurationState, curator: String, checked: CheckedAddr)
    -> (r: Result<CuratorStatsResponse, CurationError>)
    ensures
        checked is Err ==> r == Err::<CuratorStatsResponse, CurationError>(
            CurationError::InvalidAddress { address: checked->Err_0 },
        ),
        checked matches Ok(a) ==> (r matches Ok(stats) && stats == (CuratorStatsResponse {
            curator,
            collection_count: count_of(*state, a@),
            max_collections: state.config.max_collections_per_curator,
        })),
{
    let a = checked_addr(&checked)?;
    let count = match find_count(&state.curator_counts, &a) {
        Some(k) => state.curator_counts[k].count,
        None => 0,
    };
    Ok(CuratorStatsResponse { curator, collection_count: count, max_collections: state.config.max_collections_per_curator })
}

#[derive(Clone)]
pub struct BondStatusResponse {
    pub collection_id: u64,
    pub bond_amount: u128,
    pub min_required: u128,
    pub is_sufficient: bool,
    pub denom: String,
}

/// A collection's bond against the minimum.
pub fn query_bond_status(state: &CurationState, collection_id: u64) -> (r: Option<BondStatusResponse>)
    ensures
        r is Some <==> state.has_collection(collection_id),
        r matches Some(b) ==> b == (BondStatusResponse {
            collection_id,
            bond_amount: state.collection(collection_id).bond_amount,
            min_required: state.config.min_curation_bond,
            is_sufficient: state.collection(collection_id).bond_amount >= state.config.min_curation_bond,
            denom: state.config.denom,
        }),
{
    if collection_id == 0 || collection_id > state.collections.len() as u64 {
        return None;
    }
    let bond = state.collections[(collection_id - 1) as usize].bond_amount;
    Some(BondStatusResponse {
        collection_id,
        bond_amount: bond,
        min_required: state.config.min_curation_bond,
        is_sufficient: bond >= state.config.min_curation_bond,
        denom: state.config.denom.clone(),
    })
}

/// The position of a batch's quality score, if one was submitted.
pub fn query_quality_score(state: &CurationState, batch_denom: &String) -> (r: Option<usize>)
    ensures
        r is None <==> score_of(*state, batch_denom@) is None,
        r matches Some(k) ==> k < state.quality_scores.len() && score_of(*state, batch_denom@) == Some(state.quality_scores@[k as int]),
{
    find_score(&state.quality_scores, batch_denom)
}

// ── Laws ───────────────────────────────────────────────────────────────

/// A score below the minimum leaves the batch in no collection: in every
/// reachable state a collection lists a batch at most once, and the
/// auto-removal drops that one listing.
pub proof fn law_low_score_clears_batch(s: CurationState, denom: Seq<char>, j: int)
    requires
        s.wf(),
        0 <= j < s.collections.len(),
    ensures
        text_index(remove_first(s.collections[j].batches@, denom), denom, 0) == -1,
        distinct_texts(remove_first(s.collections[j].batches@, denom)),
{
    lemma_remove_distinct(s.collections[j].batches@, denom);
}

/// A lost challenge moves exactly the slashed part of the bond: what is
/// left of the bond, the challenger's share and the community pool's share
/// add up to the bond, none negative, whenever the slash percentage is at
/// most 100%.
pub proof fn law_slash_conserves_bond(s: CurationState, cid: u64)
    requires
        s.wf(),
        s.has_challenge(cid),
        s.config.slash_percentage_bps <= 10_000,
    ensures
        ({
            let bond = s.collection(s.challenge(cid).collection_id).bond_amount as int;
            let (slash, share, community) = slash_split(s, cid);
            &&& 0 <= share <= community
            &&& sat_sub(bond, slash) + share + community == bond
        }),
{
    assert(s.challenges[cid - 1].id == cid);
    let bond = s.collection(s.challenge(cid).collection_id).bond_amount as int;
    lemma_ratio_le(bond, s.config.slash_percentage_bps as int, 10_000);
    let slash = ratio(bond, s.config.slash_percentage_bps as int, 10_000);
    lemma_ratio_le(slash, 1, 2);
    assert(ratio(slash, 1, 2) * 2 <= slash) by (nonlinear_arith)
        requires slash >= 0;
}

/// A bond is paid out once: after a successful withdrawal the collection's
/// bond is zero, and any later withdrawal of it, by anyone at any time, is
/// refused. The curator's collection count therefore drops once per
/// collection.
pub proof fn law_bond_paid_out_once(
    s: CurationState,
    t: CurationState,
    sender: String,
    now: u64,
    who: String,
    later: u64,
    id: u64,
)
    requires
        s.wf(),
        withdraw_check(s, sender, now, id) is Ok,
        t.collections@ == s.collections@.update(id - 1, Collection { bond_amount: 0, ..s.collection(id) }),
    ensures
        withdraw_check(t, who, later, id) is Err,
{
    assert(t.collection(id).bond_amount == 0);
}

// ── Names ──────────────────────────────────────────────────────────────

/// The name of a collection status.
pub open spec fn collection_status_label(v: CollectionStatus) -> Seq<char> {
    match v {
        CollectionStatus::Proposed => "Proposed"@,
        CollectionStatus::Active => "Active"@,
        CollectionStatus::UnderReview => "UnderReview"@,
        CollectionStatus::Suspended => "Suspended"@,
        CollectionStatus::Closed => "Closed"@,
    }
}

impl CollectionStatus {
    /// The variant's name, as it appears in messages and attributes.
    pub fn label(&self) -> (r: &'static str)
        ensures
            r@ == collection_status_label(*self),
    {
        match self {
            CollectionStatus::Proposed => "Proposed",
            CollectionStatus::Active => "Active",
            CollectionStatus::UnderReview => "UnderReview",
            CollectionStatus::Suspended => "Suspended",
            CollectionStatus::Closed => "Closed",
        }
    }
}

} // verus!
