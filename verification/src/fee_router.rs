//! Fee routing: each credit transaction pays `max(value * rate, min_fee)`
//! at its type's rate, and the fee is split between the burn pool, the
//! validator fund, the community pool and the agent infrastructure fund.
//! Rates and shares are decimals held as `u128` atomics (18 fractional
//! digits).

use vstd::prelude::*;
use crate::money::{DECIMAL_ONE, lemma_ratio_le, mul_floor, ratio};

verus! {

/// Highest fee rate: 0.10.
pub const MAX_FEE_RATE: u128 = 100_000_000_000_000_000u128;

#[derive(Clone, Copy, Debug, PartialEq, Eq, Structural)]
pub enum TxType {
    CreditIssuance,
    CreditTransfer,
    CreditRetirement,
    MarketplaceTrade,
}

#[derive(Clone)]
pub struct FeeConfig {
    pub admin: String,
    pub issuance_rate: u128,
    pub transfer_rate: u128,
    pub retirement_rate: u128,
    pub trade_rate: u128,
    pub burn_share: u128,
    pub validator_share: u128,
    pub community_share: u128,
    pub agent_share: u128,
    pub min_fee: u128,
}

#[derive(Clone, Copy, Debug, PartialEq, Eq, Structural)]
pub struct PoolBalances {
    pub burn_pool: u128,
    pub validator_fund: u128,
    pub community_pool: u128,
    pub agent_infra: u128,
}

pub struct InstantiateMsg {
    pub issuance_rate: u128,
    pub transfer_rate: u128,
    pub retirement_rate: u128,
    pub trade_rate: u128,
    pub burn_share: u128,
    pub validator_share: u128,
    pub community_share: u128,
    pub agent_share: u128,
    pub min_fee: u128,
}

/// The contract's store.
#[derive(Clone)]
pub struct FeeRouter {
    pub config: FeeConfig,
    pub pools: PoolBalances,
}

#[derive(Debug, PartialEq, Eq)]
pub enum FeeError {
    ShareSumNotUnity { sum: u128 },
    Unauthorized,
    ZeroValue,
    RateExceedsCap { rate: u128 },
}

impl FeeConfig {
    pub open spec fn spec_rate(self, t: TxType) -> u128 {
        match t {
            TxType::CreditIssuance => self.issuance_rate,
            TxType::CreditTransfer => self.transfer_rate,
            TxType::CreditRetirement => self.retirement_rate,
            TxType::MarketplaceTrade => self.trade_rate,
        }
    }

    /// Every rate within the cap; the shares add up to one.
    pub open spec fn wf(self) -> bool {
        &&& self.issuance_rate <= MAX_FEE_RATE
        &&& self.transfer_rate <= MAX_FEE_RATE
        &&& self.retirement_rate <= MAX_FEE_RATE
        &&& self.trade_rate <= MAX_FEE_RATE
        &&& self.burn_share + self.validator_share + self.community_share + self.agent_share == DECIMAL_ONE
    }
}

/// The fee rate of a transaction type.
pub fn get_rate(config: &FeeConfig, tx_type: &TxType) -> (r: u128)
    ensures
        r == config.spec_rate(*tx_type),
{
    match tx_type {
        TxType::CreditIssuance => config.issuance_rate,
        TxType::CreditTransfer => config.transfer_rate,
        TxType::CreditRetirement => config.retirement_rate,
        TxType::MarketplaceTrade => config.trade_rate,
    }
}

/// A rate must not exceed `max_rate`.
pub fn validate_rate(rate: u128, max_rate: u128) -> (r: Result<(), FeeError>)
    ensures
        r is Ok <==> rate <= max_rate,
        r is Err ==> r == Err::<(), FeeError>(FeeError::RateExceedsCap { rate }),
{
    if rate > max_rate {
        return Err(FeeError::RateExceedsCap { rate });
    }
    Ok(())
}

/// The four shares must add up to exactly one.
pub fn validate_shares(burn_share: u128, validator_share: u128, community_share: u128, agent_share: u128)
    -> (r: Result<(), FeeError>)
    requires
        burn_share + validator_share + community_share + agent_share <= u128::MAX,
    ensures
        r is Ok <==> burn_share + validator_share + community_share + agent_share == DECIMAL_ONE,
        r is Err ==> r == Err::<(), FeeError>(FeeError::ShareSumNotUnity {
            sum: (burn_share + validator_share + community_share + agent_share) as u128,
        }),
{
    let sum = burn_share + validator_share + community_share + agent_share;
    if sum != DECIMAL_ONE {
        return Err(FeeError::ShareSumNotUnity { sum });
    }
    Ok(())
}

/// `(fee, whether the minimum applied)`: `max(floor(value * rate), min_fee)`.
pub open spec fn fee_of(c: FeeConfig, t: TxType, value: u128) -> (int, bool) {
    let raw = ratio(value as int, c.spec_rate(t) as int, DECIMAL_ONE as int);
    if raw < c.min_fee { (c.min_fee as int, true) } else { (raw, false) }
}

/// The fee of a transaction: its value times its type's rate (floor), or
/// the minimum fee when that is more.
pub fn calculate_fee_amount(config: &FeeConfig, tx_type: &TxType, value: u128) -> (r: (u128, bool))
    requires
        config.wf(),
    ensures
        (r.0 as int, r.1) == fee_of(*config, *tx_type, value),
{
    let rate = get_rate(config, tx_type);
    proof {
        lemma_ratio_le(value as int, rate as int, DECIMAL_ONE as int);
    }
    let raw = mul_floor(value, rate);
    let min_applied = raw < config.min_fee;
    let fee = if min_applied { config.min_fee } else { raw };
    (fee, min_applied)
}

/// `(burn, validator, community, agent)` parts of a fee: the burn,
/// community and agent shares are floored; the validator fund gets the
/// rest.
pub open spec fn split_of(c: FeeConfig, fee: u128) -> (int, int, int, int) {
    let burn = ratio(fee as int, c.burn_share as int, DECIMAL_ONE as int);
    let community = ratio(fee as int, c.community_share as int, DECIMAL_ONE as int);
    let agent = ratio(fee as int, c.agent_share as int, DECIMAL_ONE as int);
    (burn, fee - burn - community - agent, community, agent)
}

/// The floored shares never add up to more than the fee.
proof fn lemma_split_fits(c: FeeConfig, fee: u128)
    requires
        c.wf(),
    ensures
        ({
            let (burn, validator, community, agent) = split_of(c, fee);
            &&& 0 <= burn && 0 <= community && 0 <= agent && 0 <= validator
            &&& burn + community + agent <= fee
        }),
{
    let f = fee as int;
    let one = DECIMAL_ONE as int;
    let b = c.burn_share as int;
    let m = c.community_share as int;
    let a = c.agent_share as int;
    assert((f * b) / one + (f * m) / one + (f * a) / one <= f && 0 <= (f * b) / one && 0 <= (f * m) / one
        && 0 <= (f * a) / one) by (nonlinear_arith)
        requires
            0 <= f,
            0 <= b,
            0 <= m,
            0 <= a,
            b + m + a <= one,
            one > 0,
    ;
}

/// Splits a fee between the four pools; the parts add up to the fee.
pub fn distribute_fee(config: &FeeConfig, fee_amount: u128) -> (r: (u128, u128, u128, u128))
    requires
        config.wf(),
    ensures
        (r.0 as int, r.1 as int, r.2 as int, r.3 as int) == split_of(*config, fee_amount),
        r.0 + r.1 + r.2 + r.3 == fee_amount,
{
    proof {
        lemma_split_fits(*config, fee_amount);
        lemma_ratio_le(fee_amount as int, config.burn_share as int, DECIMAL_ONE as int);
        lemma_ratio_le(fee_amount as int, config.community_share as int, DECIMAL_ONE as int);
        lemma_ratio_le(fee_amount as int, config.agent_share as int, DECIMAL_ONE as int);
    }
    let burn = mul_floor(fee_amount, config.burn_share);
    let community = mul_floor(fee_amount, config.community_share);
    let agent = mul_floor(fee_amount, config.agent_share);
    let validator = fee_amount - burn - community - agent;
    (burn, validator, community, agent)
}

pub open spec fn instantiate_check(msg: InstantiateMsg) -> Result<(), FeeError> {
    if msg.issuance_rate > MAX_FEE_RATE {
        Err(FeeError::RateExceedsCap { rate: msg.issuance_rate })
    } else if msg.transfer_rate > MAX_FEE_RATE {
        Err(FeeError::RateExceedsCap { rate: msg.transfer_rate })
    } else if msg.retirement_rate > MAX_FEE_RATE {
        Err(FeeError::RateExceedsCap { rate: msg.retirement_rate })
    } else if msg.trade_rate > MAX_FEE_RATE {
        Err(FeeError::RateExceedsCap { rate: msg.trade_rate })
    } else if msg.burn_share + msg.validator_share + msg.community_share + msg.agent_share != DECIMAL_ONE {
        Err(FeeError::ShareSumNotUnity {
            sum: (msg.burn_share + msg.validator_share + msg.community_share + msg.agent_share) as u128,
        })
    } else {
        Ok(())
    }
}

/// Creates the router: each rate at most 10%, shares adding up to one, the
/// sender as admin, empty pools.
pub fn instantiate(sender: &String, msg: InstantiateMsg) -> (r: Result<FeeRouter, FeeError>)
    requires
        msg.burn_share + msg.validator_share + msg.community_share + msg.agent_share <= u128::MAX,
    ensures
        r is Ok <==> instantiate_check(msg) is Ok,
        r is Err ==> r->Err_0 == instantiate_check(msg)->Err_0,
        r matches Ok(f) ==> {
            &&& f.config.wf()
            &&& f.config == (FeeConfig {
                admin: *sender,
                issuance_rate: msg.issuance_rate,
                transfer_rate: msg.transfer_rate,
                retirement_rate: msg.retirement_rate,
                trade_rate: msg.trade_rate,
                burn_share: msg.burn_share,
                validator_share: msg.validator_share,
                community_share: msg.community_share,
                agent_share: msg.agent_share,
                min_fee: msg.min_fee,
            })
            &&& f.pools == (PoolBalances { burn_pool: 0, validator_fund: 0, community_pool: 0, agent_infra: 0 })
        },
{
    validate_rate(msg.issuance_rate, MAX_FEE_RATE)?;
    validate_rate(msg.transfer_rate, MAX_FEE_RATE)?;
    validate_rate(msg.retirement_rate, MAX_FEE_RATE)?;
    validate_rate(msg.trade_rate, MAX_FEE_RATE)?;
    validate_shares(msg.burn_share, msg.validator_share, msg.community_share, msg.agent_share)?;
    let config = FeeConfig {
        admin: sender.clone(),
        issuance_rate: msg.issuance_rate,
        transfer_rate: msg.transfer_rate,
        retirement_rate: msg.retirement_rate,
        trade_rate: msg.trade_rate,
        burn_share: msg.burn_share,
        validator_share: msg.validator_share,
        community_share: msg.community_share,
        agent_share: msg.agent_share,
        min_fee: msg.min_fee,
    };
    Ok(FeeRouter { config, pools: PoolBalances { burn_pool: 0, validator_fund: 0, community_pool: 0, agent_infra: 0 } })
}

/// What collecting a fee did.
#[derive(Clone, Copy, Debug, PartialEq, Eq, Structural)]
pub struct FeeCollected {
    pub fee_amount: u128,
    pub min_fee_applied: bool,
    pub burn: u128,
    pub validator: u128,
    pub community: u128,
    pub agent: u128,
}

/// Whether adding a fee's parts to the pools fits.
pub open spec fn collect_fits(f: FeeRouter, t: TxType, value: u128) -> bool {
    let fee = fee_of(f.config, t, value).0 as u128;
    let (burn, validator, community, agent) = split_of(f.config, fee);
    &&& f.pools.burn_pool + burn <= u128::MAX
    &&& f.pools.validator_fund + validator <= u128::MAX
    &&& f.pools.community_pool + community <= u128::MAX
    &&& f.pools.agent_infra + agent <= u128::MAX
}

/// Collects the fee of a transaction of non-zero value and adds its parts
/// to the pools.
pub fn execute_collect_fee(f: &mut FeeRouter, tx_type: TxType, value: u128) -> (r: Result<FeeCollected, FeeError>)
    requires
        old(f).config.wf(),
        value != 0 ==> collect_fits(*old(f), tx_type, value),
    ensures
        r is Ok <==> value != 0,
        r is Err ==> r == Err::<FeeCollected, FeeError>(FeeError::ZeroValue) && *final(f) == *old(f),
        r matches Ok(c) ==> {
            let (fee, min_applied) = fee_of(old(f).config, tx_type, value);
            let (burn, validator, community, agent) = split_of(old(f).config, fee as u128);
            let p = old(f).pools;
            &&& final(f).config == old(f).config
            &&& c == (FeeCollected {
                fee_amount: fee as u128,
                min_fee_applied: min_applied,
                burn: burn as u128,
                validator: validator as u128,
                community: community as u128,
                agent: agent as u128,
            })
            &&& final(f).pools == (PoolBalances {
                burn_pool: (p.burn_pool + burn) as u128,
                validator_fund: (p.validator_fund + validator) as u128,
                community_pool: (p.community_pool + community) as u128,
                agent_infra: (p.agent_infra + agent) as u128,
            })
        },
{
    if value == 0 {
        return Err(FeeError::ZeroValue);
    }
    let (fee, min_applied) = calculate_fee_amount(&f.config, &tx_type, value);
    let (burn, validator, community, agent) = distribute_fee(&f.config, fee);
    f.pools.burn_pool = f.pools.burn_pool + burn;
    f.pools.validator_fund = f.pools.validator_fund + validator;
    f.pools.community_pool = f.pools.community_pool + community;
    f.pools.agent_infra = f.pools.agent_infra + agent;
    Ok(FeeCollected { fee_amount: fee, min_fee_applied: min_applied, burn, validator, community, agent })
}

/// The admin sets one transaction type's rate, at most 10%.
pub fn execute_update_fee_rate(f: &mut FeeRouter, sender: &String, tx_type: TxType, rate: u128) -> (r: Result<(), FeeError>)
    requires
        old(f).config.wf(),
    ensures
        sender@ != old(f).config.admin@ ==> r == Err::<(), FeeError>(FeeError::Unauthorized),
        sender@ == old(f).config.admin@ && rate > MAX_FEE_RATE ==> r == Err::<(), FeeError>(FeeError::RateExceedsCap { rate }),
        r is Ok <==> sender@ == old(f).config.admin@ && rate <= MAX_FEE_RATE,
        r is Err ==> *final(f) == *old(f),
        r is Ok ==> {
            &&& final(f).config.wf()
            &&& final(f).pools == old(f).pools
            &&& final(f).config.spec_rate(tx_type) == rate
            &&& forall|t: TxType| t != tx_type ==> #[trigger] final(f).config.spec_rate(t) == old(f).config.spec_rate(t)
            &&& final(f).config.admin == old(f).config.admin
            &&& final(f).config.min_fee == old(f).config.min_fee
            &&& final(f).config.burn_share == old(f).config.burn_share
            &&& final(f).config.validator_share == old(f).config.validator_share
            &&& final(f).config.community_share == old(f).config.community_share
            &&& final(f).config.agent_share == old(f).config.agent_share
        },
{
    if *sender != f.config.admin {
        return Err(FeeError::Unauthorized);
    }
    validate_rate(rate, MAX_FEE_RATE)?;
    match tx_type {
        TxType::CreditIssuance => f.config.issuance_rate = rate,
        TxType::CreditTransfer => f.config.transfer_rate = rate,
        TxType::CreditRetirement => f.config.retirement_rate = rate,
        TxType::MarketplaceTrade => f.config.trade_rate = rate,
    }
    Ok(())
}

/// The admin sets the four shares, which must add up to one.
pub fn execute_update_distribution(
    f: &mut FeeRouter,
    sender: &String,
    burn_share: u128,
    validator_share: u128,
    community_share: u128,
    agent_share: u128,
) -> (r: Result<(), FeeError>)
    requires
        old(f).config.wf(),
        burn_share + validator_share + community_share + agent_share <= u128::MAX,
    ensures
        sender@ != old(f).config.admin@ ==> r == Err::<(), FeeError>(FeeError::Unauthorized),
        sender@ == old(f).config.admin@ && burn_share + validator_share + community_share + agent_share != DECIMAL_ONE
            ==> r == Err::<(), FeeError>(FeeError::ShareSumNotUnity {
                sum: (burn_share + validator_share + community_share + agent_share) as u128,
            }),
        r is Ok <==> sender@ == old(f).config.admin@ && burn_share + validator_share + community_share + agent_share == DECIMAL_ONE,
        r is Err ==> *final(f) == *old(f),
        r is Ok ==> final(f).config.wf() && final(f).pools == old(f).pools && final(f).config == (FeeConfig {
            burn_share,
            validator_share,
            community_share,
            agent_share,
            ..old(f).config
        }),
{
    if *sender != f.config.admin {
        return Err(FeeError::Unauthorized);
    }
    validate_shares(burn_share, validator_share, community_share, agent_share)?;
    f.config.burn_share = burn_share;
    f.config.validator_share = validator_share;
    f.config.community_share = community_share;
    f.config.agent_share = agent_share;
    Ok(())
}

#[derive(Clone, Copy, Debug, PartialEq, Eq, Structural)]
pub struct CalculateFeeResponse {
    pub fee_amount: u128,
    pub min_fee_applied: bool,
    pub burn_amount: u128,
    pub validator_amount: u128,
    pub community_amount: u128,
    pub agent_amount: u128,
}

/// The fee a transaction would pay and its split, without collecting it.
pub fn query_calculate_fee(f: &FeeRouter, tx_type: TxType, value: u128) -> (r: CalculateFeeResponse)
    requires
        f.config.wf(),
    ensures
        ({
            let (fee, min_applied) = fee_of(f.config, tx_type, value);
            let (burn, validator, community, agent) = split_of(f.config, fee as u128);
            r == (CalculateFeeResponse {
                fee_amount: fee as u128,
                min_fee_applied: min_applied,
                burn_amount: burn as u128,
                validator_amount: validator as u128,
                community_amount: community as u128,
                agent_amount: agent as u128,
            })
        }),
{
    let (fee, min_applied) = calculate_fee_amount(&f.config, &tx_type, value);
    let (burn, validator, community, agent) = distribute_fee(&f.config, fee);
    CalculateFeeResponse {
        fee_amount: fee,
        min_fee_applied: min_applied,
        burn_amount: burn,
        validator_amount: validator,
        community_amount: community,
        agent_amount: agent,
    }
}

// ── Laws ───────────────────────────────────────────────────────────────

/// Fee conservation: the four parts of any fee are non-negative and add up
/// to exactly the fee, so the pools grow by exactly what is collected.
pub proof fn law_fee_conservation(c: FeeConfig, fee: u128)
    requires
        c.wf(),
    ensures
        ({
            let (burn, validator, community, agent) = split_of(c, fee);
            &&& 0 <= burn && 0 <= validator && 0 <= community && 0 <= agent
            &&& burn + validator + community + agent == fee
        }),
{
    lemma_split_fits(c, fee);
}

/// A fee is never below the minimum fee nor below its value's share at the
/// type's rate, and it is the larger of the two.
pub proof fn law_fee_floor(c: FeeConfig, t: TxType, value: u128)
    requires
        c.wf(),
    ensures
        ({
            let (fee, min_applied) = fee_of(c, t, value);
            let raw = ratio(value as int, c.spec_rate(t) as int, DECIMAL_ONE as int);
            &&& fee >= c.min_fee && fee >= raw
            &&& fee == c.min_fee || fee == raw
            &&& min_applied <==> raw < c.min_fee
            &&& raw <= value
        }),
{
    lemma_ratio_le(value as int, c.spec_rate(t) as int, DECIMAL_ONE as int);
}

} // verus!
