//! Amounts, fixed-point decimals, timestamps and coin transfers shared by
//! every contract. Amounts are `u128` (the chain's `Uint128`), decimals are
//! `u128` atomics with 18 fractional digits, timestamps are `u64`
//! nanoseconds since the epoch.

use vstd::prelude::*;
use cosmwasm_std::{Decimal, Uint128};

verus! {

/// One decimal unit (1.0) in atomics.
pub const DECIMAL_ONE: u128 = 1_000_000_000_000_000_000u128;

/// Nanoseconds per second.
pub const NANOS_PER_SECOND: u64 = 1_000_000_000u64;

/// An address as the chain's validator answered for it: `Ok` with the
/// validated address, or `Err` with the text that was refused.
pub type CheckedAddr = Result<String, String>;

/// A coin attached to a message.
#[derive(Clone, Debug, PartialEq, Eq)]
pub struct Coin {
    pub denom: String,
    pub amount: u128,
}

/// A bank transfer of one coin to an address.
#[derive(Clone, Debug, PartialEq, Eq)]
pub struct Transfer {
    pub to: String,
    pub denom: String,
    pub amount: u128,
}

impl Transfer {
    pub open spec fn is(self, to: Seq<char>, denom: Seq<char>, amount: int) -> bool {
        &&& self.to@ == to
        &&& self.denom@ == denom
        &&& self.amount == amount
    }
}

/// `floor(value * numerator / denominator)` over the integers.
pub open spec fn ratio(value: int, numerator: int, denominator: int) -> int {
    (value * numerator) / denominator
}

/// A ratio of at most one keeps a value within `[0, value]`.
pub proof fn lemma_ratio_le(value: int, numerator: int, denominator: int)
    requires
        0 <= value,
        0 <= numerator <= denominator,
        0 < denominator,
    ensures
        0 <= ratio(value, numerator, denominator) <= value,
{
    assert(0 <= value * numerator <= value * denominator) by (nonlinear_arith)
        requires
            0 <= value,
            0 <= numerator <= denominator,
    ;
    assert((value * numerator) / denominator <= (value * denominator) / denominator) by (nonlinear_arith)
        requires
            0 <= value * numerator <= value * denominator,
            0 < denominator,
    ;
    assert((value * denominator) / denominator == value) by (nonlinear_arith)
        requires
            0 < denominator,
    ;
    assert(0 <= (value * numerator) / denominator) by (nonlinear_arith)
        requires
            0 <= value * numerator,
            0 < denominator,
    ;
}

/// A ratio grows with its numerator.
pub proof fn lemma_ratio_monotonic(value: int, n1: int, n2: int, denominator: int)
    requires
        0 <= value,
        0 <= n1 <= n2,
        0 < denominator,
    ensures
        ratio(value, n1, denominator) <= ratio(value, n2, denominator),
{
    assert((value * n1) / denominator <= (value * n2) / denominator) by (nonlinear_arith)
        requires
            0 <= value,
            0 <= n1 <= n2,
            0 < denominator,
    ;
}

/// The sum of a sequence of integers.
pub open spec fn seq_sum(ws: Seq<int>) -> int
    decreases ws.len(),
{
    if ws.len() == 0 { 0 } else { seq_sum(ws.drop_last()) + ws.last() }
}

/// The sum of the floors of `pool * w / total` over the weights.
pub open spec fn sum_ratios(pool: int, ws: Seq<int>, total: int) -> int
    decreases ws.len(),
{
    if ws.len() == 0 { 0 } else { sum_ratios(pool, ws.drop_last(), total) + ratio(pool, ws.last(), total) }
}

/// Splitting a pool pro rata by floor never hands out more than the floor
/// of the pool's share of the weights' sum.
pub proof fn lemma_sum_ratios_le(pool: int, ws: Seq<int>, total: int)
    requires
        0 <= pool,
        0 < total,
        forall|i: int| 0 <= i < ws.len() ==> 0 <= #[trigger] ws[i],
    ensures
        0 <= sum_ratios(pool, ws, total) <= ratio(pool, seq_sum(ws), total),
        0 <= seq_sum(ws),
    decreases ws.len(),
{
    if ws.len() > 0 {
        let rest = ws.drop_last();
        assert forall|i: int| 0 <= i < rest.len() implies 0 <= #[trigger] rest[i] by {
            assert(rest[i] == ws[i]);
        }
        lemma_sum_ratios_le(pool, rest, total);
        let w = ws.last();
        assert(0 <= w) by { assert(ws[ws.len() - 1] == w); }
        let s = seq_sum(rest);
        assert((pool * s) / total + (pool * w) / total <= (pool * (s + w)) / total
            && 0 <= (pool * w) / total) by (nonlinear_arith)
            requires
                0 <= pool,
                0 <= s,
                0 <= w,
                0 < total,
        ;
    }
}

/// `Uint128::multiply_ratio` from cosmwasm_std: the floor of
/// `value * numerator / denominator`, computed with a 256-bit intermediate;
/// it panics when the denominator is zero or the result exceeds `u128`.
#[verifier::external_body]
pub(crate) fn multiply_ratio(value: u128, numerator: u128, denominator: u128) -> (r: u128)
    requires
        denominator > 0,
        ratio(value as int, numerator as int, denominator as int) <= u128::MAX,
    ensures
        r == ratio(value as int, numerator as int, denominator as int),
{
    Uint128::new(value).multiply_ratio(numerator, denominator).u128()
}

/// `Uint128::mul_floor(Decimal)` from cosmwasm_std: the floor of
/// `value * d` where `d` has the given atomics; it panics when the result
/// exceeds `u128`.
#[verifier::external_body]
pub(crate) fn mul_floor(value: u128, decimal_atomics: u128) -> (r: u128)
    requires
        ratio(value as int, decimal_atomics as int, DECIMAL_ONE as int) <= u128::MAX,
    ensures
        r == ratio(value as int, decimal_atomics as int, DECIMAL_ONE as int),
{
    Uint128::new(value).mul_floor(Decimal::raw(decimal_atomics)).u128()
}

/// `Decimal * Decimal` from cosmwasm_std: atomics `a * b / 10^18` (floor),
/// panicking on overflow of the result.
#[verifier::external_body]
pub(crate) fn decimal_mul(a: u128, b: u128) -> (r: u128)
    requires
        ratio(a as int, b as int, DECIMAL_ONE as int) <= u128::MAX,
    ensures
        r == ratio(a as int, b as int, DECIMAL_ONE as int),
{
    (Decimal::raw(a) * Decimal::raw(b)).atomics().u128()
}

/// `Decimal::from_ratio` from cosmwasm_std: atomics
/// `numerator * 10^18 / denominator` (floor), panicking when the denominator
/// is zero or the result overflows.
#[verifier::external_body]
pub(crate) fn decimal_from_ratio(numerator: u128, denominator: u128) -> (r: u128)
    requires
        denominator > 0,
        ratio(numerator as int, DECIMAL_ONE as int, denominator as int) <= u128::MAX,
    ensures
        r == ratio(numerator as int, DECIMAL_ONE as int, denominator as int),
{
    Decimal::from_ratio(numerator, denominator).atomics().u128()
}

/// `Decimal / Decimal` from cosmwasm_std: atomics `a * 10^18 / b` (floor),
/// panicking when `b` is zero or the result overflows.
#[verifier::external_body]
pub(crate) fn decimal_div(a: u128, b: u128) -> (r: u128)
    requires
        b > 0,
        ratio(a as int, DECIMAL_ONE as int, b as int) <= u128::MAX,
    ensures
        r == ratio(a as int, DECIMAL_ONE as int, b as int),
{
    (Decimal::raw(a) / Decimal::raw(b)).atomics().u128()
}

/// Whole seconds of a nanosecond timestamp.
pub open spec fn spec_seconds(t: u64) -> int {
    t as int / NANOS_PER_SECOND as int
}

/// Whether `s` seconds are representable as a nanosecond timestamp.
pub open spec fn seconds_fit(s: int) -> bool {
    0 <= s && s * NANOS_PER_SECOND as int <= u64::MAX as int
}

/// `Timestamp::seconds`: whole seconds since the epoch.
pub fn seconds(t: u64) -> (r: u64)
    ensures
        r == spec_seconds(t),
{
    t / NANOS_PER_SECOND
}

/// `Timestamp::from_seconds`: the timestamp at a whole second.
pub fn from_seconds(s: u64) -> (r: u64)
    requires
        seconds_fit(s as int),
    ensures
        r == s * NANOS_PER_SECOND,
{
    s * NANOS_PER_SECOND
}

/// `Timestamp::plus_seconds`: a timestamp moved forward by whole seconds.
pub fn plus_seconds(t: u64, s: u64) -> (r: u64)
    requires
        t as int + s as int * NANOS_PER_SECOND as int <= u64::MAX as int,
    ensures
        r == t + s * NANOS_PER_SECOND,
{
    assert(s as int * NANOS_PER_SECOND as int <= u64::MAX as int);
    t + s * NANOS_PER_SECOND
}

/// The amount of the first coin of a denomination, if any.
pub open spec fn first_amount_of(funds: Seq<Coin>, denom: Seq<char>) -> Option<u128>
    decreases funds.len(),
{
    if funds.len() == 0 {
        None
    } else if funds[0].denom@ == denom {
        Some(funds[0].amount)
    } else {
        first_amount_of(funds.drop_first(), denom)
    }
}

/// The amount of the first attached coin of `denom`, if one is attached.
pub fn find_amount(funds: &Vec<Coin>, denom: &String) -> (r: Option<u128>)
    ensures
        r == first_amount_of(funds@, denom@),
{
    let mut i: usize = 0;
    assert(funds@.skip(0) =~= funds@);
    while i < funds.len()
        invariant
            i <= funds.len(),
            first_amount_of(funds@, denom@) == first_amount_of(funds@.skip(i as int), denom@),
        decreases funds.len() - i,
    {
        assert(funds@.skip(i as int).drop_first() =~= funds@.skip(i as int + 1));
        if funds[i].denom == *denom {
            return Some(funds[i].amount);
        }
        i += 1;
    }
    assert(funds@.skip(i as int) =~= Seq::<Coin>::empty());
    None
}

/// What a transfer says: recipient, denomination, amount.
pub type TransferView = (Seq<char>, Seq<char>, u128);

/// The transfers of a list, as plain values.
pub open spec fn tv(s: Seq<Transfer>) -> Seq<TransferView> {
    s.map_values(|t: Transfer| (t.to@, t.denom@, t.amount))
}

/// One transfer, or none when the amount is zero.
pub open spec fn send_if(to: Seq<char>, denom: Seq<char>, amount: u128) -> Seq<TransferView> {
    if amount != 0 {
        seq![(to, denom, amount)]
    } else {
        Seq::empty()
    }
}

/// The total amount of a list of transfers.
pub open spec fn amount_sent(ts: Seq<TransferView>) -> int
    decreases ts.len(),
{
    if ts.len() == 0 { 0 } else { amount_sent(ts.drop_last()) + ts.last().2 }
}

/// The total amount a list of transfers sends to `who`.
pub open spec fn amount_sent_to(ts: Seq<TransferView>, who: Seq<char>) -> int
    decreases ts.len(),
{
    if ts.len() == 0 {
        0
    } else {
        amount_sent_to(ts.drop_last(), who) + if ts.last().0 == who { ts.last().2 as int } else { 0 }
    }
}

/// Amounts add up over consecutive lists of transfers.
pub proof fn lemma_amount_sent_concat(a: Seq<TransferView>, b: Seq<TransferView>, who: Seq<char>)
    ensures
        amount_sent(a + b) == amount_sent(a) + amount_sent(b),
        amount_sent_to(a + b, who) == amount_sent_to(a, who) + amount_sent_to(b, who),
    decreases b.len(),
{
    if b.len() == 0 {
        assert(a + b =~= a);
    } else {
        lemma_amount_sent_concat(a, b.drop_last(), who);
        assert((a + b).drop_last() =~= a + b.drop_last());
        assert((a + b).last() == b.last());
    }
}

/// A conditional transfer sends its amount, to its recipient only.
pub proof fn lemma_amount_send_if(to: Seq<char>, denom: Seq<char>, amount: u128, who: Seq<char>)
    ensures
        amount_sent(send_if(to, denom, amount)) == amount,
        amount_sent_to(send_if(to, denom, amount), who) == if to == who { amount as int } else { 0 },
{
    let t = send_if(to, denom, amount);
    if amount != 0 {
        assert(t.drop_last() =~= Seq::<TransferView>::empty());
        assert(amount_sent(t.drop_last()) == 0);
        assert(amount_sent_to(t.drop_last(), who) == 0);
    }
}

/// Appends a transfer of `amount` of `denom` to `to`.
pub fn send(out: &mut Vec<Transfer>, to: &String, denom: &String, amount: u128)
    ensures
        tv(final(out)@) == tv(old(out)@).push((to@, denom@, amount)),
{
    out.push(Transfer { to: to.clone(), denom: denom.clone(), amount });
    assert(tv(out@) =~= tv(old(out)@).push((to@, denom@, amount)));
}

/// Appends a transfer of `amount` of `denom` to `to` unless the amount is zero.
pub fn send_nonzero(out: &mut Vec<Transfer>, to: &String, denom: &String, amount: u128)
    ensures
        tv(final(out)@) == tv(old(out)@) + send_if(to@, denom@, amount),
{
    if amount != 0 {
        send(out, to, denom, amount);
        assert(tv(out@) =~= tv(old(out)@) + send_if(to@, denom@, amount));
    } else {
        assert(tv(out@) =~= tv(old(out)@) + send_if(to@, denom@, amount));
    }
}

} // verus!
