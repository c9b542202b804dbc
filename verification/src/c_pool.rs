//! The pool state machine.
//!
//! A pool is a single owned aggregate: the bound tokens in binding order,
//! one record per token, the flags and fees, and the outstanding
//! liquidity-share supply.  Operations validate first and commit only on
//! success, so a failed operation leaves the pool exactly as it was; the
//! movement of tokens and shares on the outside ledger is the caller's part,
//! driven by the amounts the operations return.
//!
//! Every operation is pinned to a spec-level mirror over [`PoolModel`], the
//! mathematical image of the pool, built from the mirrors of the arithmetic
//! core and of the pricing library.

use vstd::prelude::*;

use crate::c_consts::EXIT_FEE;
use crate::c_consts::INIT_POOL_SUPPLY;
use crate::c_consts::MAX_BOUND_TOKENS;
use crate::c_consts::MAX_FEE;
use crate::c_consts::MAX_IN_RATIO;
use crate::c_consts::MAX_OUT_RATIO;
use crate::c_consts::MAX_TOTAL_WEIGHT;
use crate::c_consts::MAX_WEIGHT;
use crate::c_consts::MIN_BALANCE;
use crate::c_consts::MIN_BOUND_TOKENS;
use crate::c_consts::MIN_FEE;
use crate::c_consts::MIN_WEIGHT;
use crate::c_math::calc_lp_token_amount_given_token_deposits_in;
use crate::c_math::calc_lp_token_amount_given_token_deposits_in_spec;
use crate::c_math::calc_lp_token_amount_given_token_withdrawal_amount;
use crate::c_math::calc_lp_token_amount_given_token_withdrawal_amount_spec;
use crate::c_math::calc_spot_price;
use crate::c_math::calc_spot_price_spec;
use crate::c_math::calc_token_deposits_in_given_lp_token_amount;
use crate::c_math::calc_token_deposits_in_given_lp_token_amount_spec;
use crate::c_math::calc_token_in_given_token_out;
use crate::c_math::calc_token_in_given_token_out_spec;
use crate::c_math::calc_token_out_given_token_in;
use crate::c_math::calc_token_out_given_token_in_spec;
use crate::c_math::calc_token_withdrawal_amount_given_lp_token_amount;
use crate::c_math::calc_token_withdrawal_amount_given_lp_token_amount_spec;
use crate::c_num::c_add;
use crate::c_num::c_add_spec;
use crate::c_num::c_div;
use crate::c_num::c_div_spec;
use crate::c_num::c_mul;
use crate::c_num::c_mul_spec;
use crate::c_num::c_sub;
use crate::c_num::c_sub_spec;
use crate::c_num::to_int;
use crate::errors::Error;

verus! {

/// Per-token record of a bound token: its binding order, its denormalized
/// weight, and the balance the pool holds of it.
#[derive(Clone, Copy, Debug, PartialEq, Eq, Structural)]
pub struct Record {
    /// Is this token currently part of the pool?
    pub bound: bool,
    /// Binding order, used only for enumeration.
    pub index: u32,
    /// Denormalized weight, a positive fixed-point value.
    pub denorm: i128,
    /// Fixed-point balance the pool holds.
    pub balance: i128,
}

/// The mathematical image of a pool: what the contracts speak of.
pub struct PoolModel {
    /// Identity allowed to configure the pool while it is not finalized.
    pub controller: u64,
    /// Identity of the factory that deployed the pool.
    pub factory: u64,
    /// Swap fee, a fixed-point fraction of the unit.
    pub swap_fee: i128,
    /// Sum of the denormalized weights of all bound tokens.
    pub total_weight: i128,
    /// Set once by `finalize`; freezes membership and weights.
    pub finalized: bool,
    /// Whether swapping is open.
    pub public_swap: bool,
    /// Outstanding liquidity-share supply.
    pub total_shares: i128,
    /// Bound token identities in binding order.
    pub tokens: Seq<u64>,
    /// One record per bound token, in the same order.
    pub records: Seq<Record>,
}

/// Index of the first occurrence of `t`, or `-1` when it does not occur.
pub open spec fn token_index(tokens: Seq<u64>, t: u64) -> int
    decreases tokens.len(),
{
    if tokens.len() == 0 {
        -1
    } else if tokens[0] == t {
        0
    } else {
        let rest = token_index(tokens.skip(1), t);
        if rest == -1 {
            -1
        } else {
            rest + 1
        }
    }
}

/// Sum of the denormalized weights of a record sequence.
pub open spec fn sum_weights(records: Seq<Record>) -> int
    decreases records.len(),
{
    if records.len() == 0 {
        0
    } else {
        sum_weights(records.drop_last()) + records.last().denorm
    }
}

/// The structural invariant of a pool: one record per token in the same
/// order, unique tokens within capacity, every record bound with its index
/// and an admissible weight, the cached total weight equal to the sum of the
/// weights and within its cap, the fee within its band, no shares before
/// finalization, and enough tokens once finalized.
pub open spec fn pool_wf(m: PoolModel) -> bool {
    &&& m.tokens.len() == m.records.len()
    &&& m.tokens.len() <= MAX_BOUND_TOKENS
    &&& forall|i: int, j: int|
        0 <= i < j < m.tokens.len() ==> m.tokens[i] != m.tokens[j]
    &&& forall|i: int| 0 <= i < m.records.len() ==> (#[trigger] m.records[i]).bound
    &&& forall|i: int| 0 <= i < m.records.len() ==> (#[trigger] m.records[i]).index == i
    &&& forall|i: int|
        0 <= i < m.records.len() ==> MIN_WEIGHT <= (#[trigger] m.records[i]).denorm <= MAX_WEIGHT
    &&& m.total_weight == sum_weights(m.records)
    &&& m.total_weight <= MAX_TOTAL_WEIGHT
    &&& MIN_FEE <= m.swap_fee <= MAX_FEE
    &&& (!m.finalized ==> m.total_shares == 0)
    &&& (m.finalized ==> m.tokens.len() > MIN_BOUND_TOKENS)
}

/// When an index holds `t` and nothing before it does, it is the first
/// occurrence.
proof fn lemma_token_index_first(s: Seq<u64>, t: u64, i: int)
    requires
        0 <= i < s.len(),
        s[i] == t,
        forall|j: int| 0 <= j < i ==> s[j] != t,
    ensures
        token_index(s, t) == i,
    decreases i,
{
    if i == 0 {
    } else {
        lemma_token_index_first(s.skip(1), t, i - 1);
    }
}

/// When no index holds `t`, there is no first occurrence.
proof fn lemma_token_index_none(s: Seq<u64>, t: u64)
    requires
        forall|j: int| 0 <= j < s.len() ==> s[j] != t,
    ensures
        token_index(s, t) == -1,
    decreases s.len(),
{
    if s.len() > 0 {
        lemma_token_index_none(s.skip(1), t);
    }
}

/// A first occurrence is never below `-1`.
proof fn lemma_token_index_ge_neg1(s: Seq<u64>, t: u64)
    ensures
        token_index(s, t) >= -1,
    decreases s.len(),
{
    if s.len() > 0 && s[0] != t {
        lemma_token_index_ge_neg1(s.skip(1), t);
    }
}

/// With no first occurrence, no index holds `t`.
proof fn lemma_token_index_absent(s: Seq<u64>, t: u64)
    requires
        token_index(s, t) == -1,
    ensures
        forall|j: int| 0 <= j < s.len() ==> s[j] != t,
    decreases s.len(),
{
    if s.len() > 0 {
        lemma_token_index_ge_neg1(s.skip(1), t);
        lemma_token_index_absent(s.skip(1), t);
        assert forall|j: int| 0 <= j < s.len() implies s[j] != t by {
            if j > 0 {
                assert(s.skip(1)[j - 1] == s[j]);
            }
        }
    }
}

/// A nonnegative first occurrence is a real index holding `t`.
proof fn lemma_token_index_in_range(s: Seq<u64>, t: u64)
    requires
        token_index(s, t) >= 0,
    ensures
        0 <= token_index(s, t) < s.len(),
        s[token_index(s, t)] == t,
    decreases s.len(),
{
    if s.len() > 0 && s[0] != t {
        lemma_token_index_in_range(s.skip(1), t);
    }
}

/// Appending a record adds its weight to the sum.
proof fn lemma_sum_weights_push(s: Seq<Record>, r: Record)
    ensures
        sum_weights(s.push(r)) == sum_weights(s) + r.denorm,
{
    assert(s.push(r).drop_last() =~= s);
}

/// Replacing a record moves the sum by the difference of the weights.
proof fn lemma_sum_weights_update(s: Seq<Record>, i: int, r: Record)
    requires
        0 <= i < s.len(),
    ensures
        sum_weights(s.update(i, r)) == sum_weights(s) - s[i].denorm + r.denorm,
    decreases s.len(),
{
    if i == s.len() - 1 {
        assert(s.update(i, r).drop_last() =~= s.drop_last());
    } else {
        assert(s.update(i, r).drop_last() =~= s.drop_last().update(i, r));
        lemma_sum_weights_update(s.drop_last(), i, r);
    }
}

/// With every weight at least the minimum, the sum is at least the count of
/// records times the minimum; in particular it is positive for a nonempty
/// pool.
proof fn lemma_sum_weights_lower_bound(s: Seq<Record>)
    requires
        forall|i: int| 0 <= i < s.len() ==> (#[trigger] s[i]).denorm >= MIN_WEIGHT,
    ensures
        sum_weights(s) >= s.len() * MIN_WEIGHT,
    decreases s.len(),
{
    if s.len() == 0 {
    } else {
        lemma_sum_weights_lower_bound(s.drop_last());
    }
}

/// What [`CometPoolContract::bind`] does: validate, then append the token
/// with its record and add its weight to the total.
pub open spec fn bind_spec(
    m: PoolModel,
    token: u64,
    balance: i128,
    denorm: i128,
    caller: u64,
) -> Result<PoolModel, Error> {
    if m.finalized {
        Err(Error::AlreadyFinalized)
    } else if token_index(m.tokens, token) >= 0 {
        Err(Error::AlreadyBound)
    } else if caller != m.controller {
        Err(Error::Unauthorized)
    } else if m.tokens.len() >= MAX_BOUND_TOKENS {
        Err(Error::MaxTokens)
    } else if denorm < MIN_WEIGHT {
        Err(Error::MinWeight)
    } else if denorm > MAX_WEIGHT {
        Err(Error::MaxWeight)
    } else if balance < MIN_BALANCE {
        Err(Error::MinBalance)
    } else if m.total_weight + denorm > MAX_TOTAL_WEIGHT {
        Err(Error::MaxTotalWeight)
    } else {
        Ok(
            (PoolModel {
                tokens: m.tokens.push(token),
                records: m.records.push(
                    Record { bound: true, index: m.tokens.len() as u32, denorm, balance },
                ),
                total_weight: (m.total_weight + denorm) as i128,
                ..m
            }),
        )
    }
}

/// What [`CometPoolContract::rebind`] does: validate, then replace the
/// token's record and move the total weight by the weight difference,
/// checking the cap only when the weight grows.
pub open spec fn rebind_spec(
    m: PoolModel,
    token: u64,
    balance: i128,
    denorm: i128,
    caller: u64,
) -> Result<PoolModel, Error> {
    if m.finalized {
        Err(Error::AlreadyFinalized)
    } else if caller != m.controller {
        Err(Error::Unauthorized)
    } else if token_index(m.tokens, token) < 0 {
        Err(Error::NotBound)
    } else if denorm < MIN_WEIGHT {
        Err(Error::MinWeight)
    } else if denorm > MAX_WEIGHT {
        Err(Error::MaxWeight)
    } else if balance < MIN_BALANCE {
        Err(Error::MinBalance)
    } else {
        let i = token_index(m.tokens, token);
        let old_weight = m.records[i].denorm;
        let new_total = m.total_weight + denorm - old_weight;
        if denorm > old_weight && new_total > MAX_TOTAL_WEIGHT {
            Err(Error::MaxTotalWeight)
        } else {
            Ok(
                (PoolModel {
                    records: m.records.update(
                        i,
                        Record { bound: true, index: i as u32, denorm, balance },
                    ),
                    total_weight: new_total as i128,
                    ..m
                }),
            )
        }
    }
}

/// What [`CometPoolContract::finalize`] does: the one-way transition that
/// freezes membership, opens swapping, and mints the fixed initial share
/// supply to the controller.
pub open spec fn finalize_spec(m: PoolModel, caller: u64) -> Result<PoolModel, Error> {
    if m.finalized {
        Err(Error::AlreadyFinalized)
    } else if m.tokens.len() <= MIN_BOUND_TOKENS {
        Err(Error::MinTokens)
    } else if caller != m.controller {
        Err(Error::Unauthorized)
    } else {
        Ok(
            (PoolModel {
                finalized: true,
                public_swap: true,
                total_shares: (m.total_shares + INIT_POOL_SUPPLY) as i128,
                ..m
            }),
        )
    }
}

/// What the token walk of [`CometPoolContract::join_pool`] computes from
/// token `i` on: each balance grows by the ratio of itself, a zero amount is
/// a math approximation failure, an amount above the caller's limit is
/// refused, and the amounts paid in are returned in token order.
pub open spec fn join_loop_spec(
    records: Seq<Record>,
    ratio: int,
    max_in: Seq<i128>,
    i: int,
) -> Result<(Seq<Record>, Seq<i128>), Error>
    recommends
        0 <= i <= records.len(),
        max_in.len() == records.len(),
    decreases records.len() - i,
{
    if i < 0 || i >= records.len() {
        Ok((records, Seq::<i128>::empty()))
    } else {
        match c_mul_spec(ratio, records[i].balance as int) {
            Err(e) => Err(e),
            Ok(amt) => if amt == 0 {
                Err(Error::MathApprox)
            } else if amt > max_in[i] {
                Err(Error::LimitIn)
            } else {
                match c_add_spec(records[i].balance as int, amt) {
                    Err(e) => Err(e),
                    Ok(nb) => match join_loop_spec(
                        records.update(i, (Record { balance: nb as i128, ..records[i] })),
                        ratio,
                        max_in,
                        i + 1,
                    ) {
                        Err(e) => Err(e),
                        Ok(pair) => Ok((pair.0, seq![amt as i128] + pair.1)),
                    },
                }
            },
        }
    }
}

/// What [`CometPoolContract::join_pool`] does: all-token deposit priced by
/// the ratio of the minted shares to the supply, then the mint itself.
pub open spec fn join_pool_spec(m: PoolModel, pool_amount_out: int, max_in: Seq<i128>) -> Result<
    (PoolModel, Seq<i128>),
    Error,
> {
    if !m.finalized {
        Err(Error::NotFinalized)
    } else {
        match c_div_spec(pool_amount_out, m.total_shares as int) {
            Err(e) => Err(e),
            Ok(ratio) => if ratio == 0 {
                Err(Error::MathApprox)
            } else {
                match join_loop_spec(m.records, ratio, max_in, 0) {
                    Err(e) => Err(e),
                    Ok(pair) => match c_add_spec(m.total_shares as int, pool_amount_out) {
                        Err(e) => Err(e),
                        Ok(ns) => Ok(
                            ((PoolModel { records: pair.0, total_shares: ns as i128, ..m }), pair.1),
                        ),
                    },
                }
            },
        }
    }
}

/// What the token walk of [`CometPoolContract::exit_pool`] computes from
/// token `i` on: each balance shrinks by the ratio of itself, a zero amount
/// is a math approximation failure, an amount under the caller's floor is
/// refused, and the amounts paid out are returned in token order.
pub open spec fn exit_loop_spec(
    records: Seq<Record>,
    ratio: int,
    min_out: Seq<i128>,
    i: int,
) -> Result<(Seq<Record>, Seq<i128>), Error>
    recommends
        0 <= i <= records.len(),
        min_out.len() == records.len(),
    decreases records.len() - i,
{
    if i < 0 || i >= records.len() {
        Ok((records, Seq::<i128>::empty()))
    } else {
        match c_mul_spec(ratio, records[i].balance as int) {
            Err(e) => Err(e),
            Ok(amt) => if amt == 0 {
                Err(Error::MathApprox)
            } else if amt < min_out[i] {
                Err(Error::LimitOut)
            } else {
                match c_sub_spec(records[i].balance as int, amt) {
                    Err(e) => Err(e),
                    Ok(nb) => match exit_loop_spec(
                        records.update(i, (Record { balance: nb as i128, ..records[i] })),
                        ratio,
                        min_out,
                        i + 1,
                    ) {
                        Err(e) => Err(e),
                        Ok(pair) => Ok((pair.0, seq![amt as i128] + pair.1)),
                    },
                }
            },
        }
    }
}

/// What [`CometPoolContract::exit_pool`] does: the flat exit fee comes off
/// the shares, the remainder prices a pro-rata all-token withdrawal, and the
/// remainder is burned from the supply.
pub open spec fn exit_pool_spec(m: PoolModel, pool_amount_in: int, min_out: Seq<i128>) -> Result<
    (PoolModel, Seq<i128>),
    Error,
> {
    if !m.finalized {
        Err(Error::NotFinalized)
    } else {
        match c_sub_spec(pool_amount_in, EXIT_FEE as int) {
            Err(e) => Err(e),
            Ok(pai_after_fee) => match c_div_spec(pai_after_fee, m.total_shares as int) {
                Err(e) => Err(e),
                Ok(ratio) => if ratio == 0 {
                    Err(Error::MathApprox)
                } else {
                    match exit_loop_spec(m.records, ratio, min_out, 0) {
                        Err(e) => Err(e),
                        Ok(pair) => match c_sub_spec(m.total_shares as int, pai_after_fee) {
                            Err(e) => Err(e),
                            Ok(ns) => Ok(
                                (
                                    (PoolModel { records: pair.0, total_shares: ns as i128, ..m }),
                                    pair.1,
                                ),
                            ),
                        },
                    }
                },
            },
        }
    }
}

/// The token walk still to be done from `i` on, after the walked prefix
/// produced the records `done` and the amounts `amts`.
spec fn join_cont(
    done: Seq<Record>,
    amts: Seq<i128>,
    orig: Seq<Record>,
    ratio: int,
    max_in: Seq<i128>,
    i: int,
) -> Result<(Seq<Record>, Seq<i128>), Error> {
    match join_loop_spec(done + orig.skip(i), ratio, max_in, i) {
        Err(e) => Err(e),
        Ok(pair) => Ok((pair.0, amts + pair.1)),
    }
}

/// As [`join_cont`], for the exit walk.
spec fn exit_cont(
    done: Seq<Record>,
    amts: Seq<i128>,
    orig: Seq<Record>,
    ratio: int,
    min_out: Seq<i128>,
    i: int,
) -> Result<(Seq<Record>, Seq<i128>), Error> {
    match exit_loop_spec(done + orig.skip(i), ratio, min_out, i) {
        Err(e) => Err(e),
        Ok(pair) => Ok((pair.0, amts + pair.1)),
    }
}

/// A successful join walk changes balances only: length, binding flags,
/// indices and weights are kept; each walked token's balance grows by
/// exactly the amount returned for it, which is the ratio applied to its
/// balance, and the tokens before the walk are untouched.
proof fn lemma_join_loop_preserves(records: Seq<Record>, ratio: int, max_in: Seq<i128>, i: int)
    requires
        0 <= i <= records.len(),
    ensures
        match join_loop_spec(records, ratio, max_in, i) {
            Ok(pair) => pair.0.len() == records.len() && pair.1.len() == records.len() - i
                && (forall|j: int|
                0 <= j < records.len() ==> (#[trigger] pair.0[j]).denorm == records[j].denorm
                    && pair.0[j].index == records[j].index && pair.0[j].bound == records[j].bound)
                && (forall|j: int| 0 <= j < i ==> (#[trigger] pair.0[j]).balance == records[j].balance)
                && (forall|j: int|
                i <= j < records.len() ==> c_mul_spec(ratio, (#[trigger] records[j]).balance as int)
                    == Ok::<int, Error>(pair.1[j - i] as int) && pair.0[j].balance == records[j].balance
                    + pair.1[j - i]),
            Err(_) => true,
        },
    decreases records.len() - i,
{
    if i < records.len() {
        if c_mul_spec(ratio, records[i].balance as int) is Ok {
            let amt = c_mul_spec(ratio, records[i].balance as int)->Ok_0;
            if amt != 0 && amt <= max_in[i] {
                if c_add_spec(records[i].balance as int, amt) is Ok {
                    let nb = c_add_spec(records[i].balance as int, amt)->Ok_0;
                    let updated = records.update(i, (Record { balance: nb as i128, ..records[i] }));
                    lemma_join_loop_preserves(updated, ratio, max_in, i + 1);
                    if join_loop_spec(updated, ratio, max_in, i + 1) is Ok {
                        let inner = join_loop_spec(updated, ratio, max_in, i + 1)->Ok_0;
                        let amts = seq![amt as i128] + inner.1;
                        assert forall|j: int| i <= j < records.len() implies c_mul_spec(
                            ratio,
                            (#[trigger] records[j]).balance as int,
                        ) == Ok::<int, Error>(amts[j - i] as int) && inner.0[j].balance == records[j].balance
                            + amts[j - i] by {
                            if j == i {
                                assert(inner.0[i].balance == updated[i].balance);
                                assert(amts[0] == amt as i128);
                            } else {
                                assert(updated[j] == records[j]);
                                assert(amts[j - i] == inner.1[j - i - 1]);
                            }
                        }
                    }
                }
            }
        }
    }
}

/// A successful exit walk changes balances only, as the join walk does,
/// with each walked token's balance shrinking by exactly the amount
/// returned for it.
proof fn lemma_exit_loop_preserves(records: Seq<Record>, ratio: int, min_out: Seq<i128>, i: int)
    requires
        0 <= i <= records.len(),
    ensures
        match exit_loop_spec(records, ratio, min_out, i) {
            Ok(pair) => pair.0.len() == records.len() && pair.1.len() == records.len() - i
                && (forall|j: int|
                0 <= j < records.len() ==> (#[trigger] pair.0[j]).denorm == records[j].denorm
                    && pair.0[j].index == records[j].index && pair.0[j].bound == records[j].bound)
                && (forall|j: int| 0 <= j < i ==> (#[trigger] pair.0[j]).balance == records[j].balance)
                && (forall|j: int|
                i <= j < records.len() ==> c_mul_spec(ratio, (#[trigger] records[j]).balance as int)
                    == Ok::<int, Error>(pair.1[j - i] as int) && pair.0[j].balance == records[j].balance
                    - pair.1[j - i]),
            Err(_) => true,
        },
    decreases records.len() - i,
{
    if i < records.len() {
        if c_mul_spec(ratio, records[i].balance as int) is Ok {
            let amt = c_mul_spec(ratio, records[i].balance as int)->Ok_0;
            if amt != 0 && amt >= min_out[i] {
                if c_sub_spec(records[i].balance as int, amt) is Ok {
                    let nb = c_sub_spec(records[i].balance as int, amt)->Ok_0;
                    let updated = records.update(i, (Record { balance: nb as i128, ..records[i] }));
                    lemma_exit_loop_preserves(updated, ratio, min_out, i + 1);
                    if exit_loop_spec(updated, ratio, min_out, i + 1) is Ok {
                        let inner = exit_loop_spec(updated, ratio, min_out, i + 1)->Ok_0;
                        let amts = seq![amt as i128] + inner.1;
                        assert forall|j: int| i <= j < records.len() implies c_mul_spec(
                            ratio,
                            (#[trigger] records[j]).balance as int,
                        ) == Ok::<int, Error>(amts[j - i] as int) && inner.0[j].balance == records[j].balance
                            - amts[j - i] by {
                            if j == i {
                                assert(inner.0[i].balance == updated[i].balance);
                                assert(amts[0] == amt as i128);
                            } else {
                                assert(updated[j] == records[j]);
                                assert(amts[j - i] == inner.1[j - i - 1]);
                            }
                        }
                    }
                }
            }
        }
    }
}

/// Two record sequences with the same weights have the same weight sum.
proof fn lemma_sum_weights_congruence(s1: Seq<Record>, s2: Seq<Record>)
    requires
        s1.len() == s2.len(),
        forall|i: int| 0 <= i < s1.len() ==> (#[trigger] s1[i]).denorm == s2[i].denorm,
    ensures
        sum_weights(s1) == sum_weights(s2),
    decreases s1.len(),
{
    if s1.len() > 0 {
        lemma_sum_weights_congruence(s1.drop_last(), s2.drop_last());
    }
}

/// What [`CometPoolContract::swap_exact_amount_in`] does: cap the input by
/// the in-ratio, quote the price, pay out by the curve, and let the swap
/// stand only when the price moved against later swappers in the same
/// direction and stayed within the caller's bound.
pub open spec fn swap_exact_amount_in_spec(
    m: PoolModel,
    token_in: u64,
    token_amount_in: i128,
    token_out: u64,
    min_amount_out: i128,
    max_price: i128,
) -> Result<(PoolModel, int, int), Error> {
    if !m.public_swap {
        Err(Error::SwapNotPublic)
    } else if token_index(m.tokens, token_in) < 0 {
        Err(Error::NotBound)
    } else if token_index(m.tokens, token_out) < 0 {
        Err(Error::NotBound)
    } else {
        let ti = token_index(m.tokens, token_in);
        let tout = token_index(m.tokens, token_out);
        let ri = m.records[ti];
        let ro = m.records[tout];
        match c_mul_spec(ri.balance as int, MAX_IN_RATIO as int) {
            Err(e) => Err(e),
            Ok(cap) => if token_amount_in > cap {
                Err(Error::MaxInRatio)
            } else {
                match calc_spot_price_spec(
                    ri.balance as int,
                    ri.denorm as int,
                    ro.balance as int,
                    ro.denorm as int,
                    m.swap_fee as int,
                ) {
                    Err(e) => Err(e),
                    Ok(spot_price_before) => if spot_price_before > max_price {
                        Err(Error::BadLimitPrice)
                    } else {
                        match calc_token_out_given_token_in_spec(
                            ri.balance as int,
                            ri.denorm as int,
                            ro.balance as int,
                            ro.denorm as int,
                            token_amount_in as int,
                            m.swap_fee as int,
                        ) {
                            Err(e) => Err(e),
                            Ok(token_amount_out) => if token_amount_out < min_amount_out {
                                Err(Error::LimitOut)
                            } else {
                                match c_add_spec(ri.balance as int, token_amount_in as int) {
                                    Err(e) => Err(e),
                                    Ok(nbi) => match c_sub_spec(ro.balance as int, token_amount_out) {
                                        Err(e) => Err(e),
                                        Ok(nbo) => match calc_spot_price_spec(
                                            nbi,
                                            ri.denorm as int,
                                            nbo,
                                            ro.denorm as int,
                                            m.swap_fee as int,
                                        ) {
                                            Err(e) => Err(e),
                                            Ok(spot_price_after) => if spot_price_after
                                                < spot_price_before {
                                                Err(Error::MathApprox)
                                            } else if spot_price_after > max_price {
                                                Err(Error::LimitPrice)
                                            } else {
                                                match c_div_spec(
                                                    token_amount_in as int,
                                                    token_amount_out,
                                                ) {
                                                    Err(e) => Err(e),
                                                    Ok(q) => if spot_price_before > q {
                                                        Err(Error::MathApprox)
                                                    } else {
                                                        Ok(
                                                            (
                                                                (PoolModel {
                                                                    records: m.records.update(
                                                                        ti,
                                                                        (Record {
                                                                            balance: nbi as i128,
                                                                            ..ri
                                                                        }),
                                                                    ).update(
                                                                        tout,
                                                                        (Record {
                                                                            balance: nbo as i128,
                                                                            ..ro
                                                                        }),
                                                                    ),
                                                                    ..m
                                                                }),
                                                                token_amount_out,
                                                                spot_price_after,
                                                            ),
                                                        )
                                                    },
                                                }
                                            },
                                        },
                                    },
                                }
                            },
                        }
                    },
                }
            },
        }
    }
}

/// What [`CometPoolContract::swap_exact_amount_out`] does: the mirror-image
/// swap, capping the output by the out-ratio and solving for the input.
pub open spec fn swap_exact_amount_out_spec(
    m: PoolModel,
    token_in: u64,
    max_amount_in: i128,
    token_out: u64,
    token_amount_out: i128,
    max_price: i128,
) -> Result<(PoolModel, int, int), Error> {
    if token_index(m.tokens, token_in) < 0 {
        Err(Error::NotBound)
    } else if token_index(m.tokens, token_out) < 0 {
        Err(Error::NotBound)
    } else if !m.public_swap {
        Err(Error::SwapNotPublic)
    } else {
        let ti = token_index(m.tokens, token_in);
        let tout = token_index(m.tokens, token_out);
        let ri = m.records[ti];
        let ro = m.records[tout];
        match c_mul_spec(ro.balance as int, MAX_OUT_RATIO as int) {
            Err(e) => Err(e),
            Ok(cap) => if token_amount_out > cap {
                Err(Error::MaxOutRatio)
            } else {
                match calc_spot_price_spec(
                    ri.balance as int,
                    ri.denorm as int,
                    ro.balance as int,
                    ro.denorm as int,
                    m.swap_fee as int,
                ) {
                    Err(e) => Err(e),
                    Ok(spot_price_before) => if spot_price_before > max_price {
                        Err(Error::BadLimitPrice)
                    } else {
                        match calc_token_in_given_token_out_spec(
                            ri.balance as int,
                            ri.denorm as int,
                            ro.balance as int,
                            ro.denorm as int,
                            token_amount_out as int,
                            m.swap_fee as int,
                        ) {
                            Err(e) => Err(e),
                            Ok(token_amount_in) => if token_amount_in > max_amount_in {
                                Err(Error::LimitIn)
                            } else {
                                match c_add_spec(ri.balance as int, token_amount_in) {
                                    Err(e) => Err(e),
                                    Ok(nbi) => match c_sub_spec(
                                        ro.balance as int,
                                        token_amount_out as int,
                                    ) {
                                        Err(e) => Err(e),
                                        Ok(nbo) => match calc_spot_price_spec(
                                            nbi,
                                            ri.denorm as int,
                                            nbo,
                                            ro.denorm as int,
                                            m.swap_fee as int,
                                        ) {
                                            Err(e) => Err(e),
                                            Ok(spot_price_after) => if spot_price_after
                                                < spot_price_before {
                                                Err(Error::MathApprox)
                                            } else if spot_price_after > max_price {
                                                Err(Error::LimitPrice)
                                            } else {
                                                match c_div_spec(
                                                    token_amount_in,
                                                    token_amount_out as int,
                                                ) {
                                                    Err(e) => Err(e),
                                                    Ok(q) => if spot_price_before > q {
                                                        Err(Error::MathApprox)
                                                    } else {
                                                        Ok(
                                                            (
                                                                (PoolModel {
                                                                    records: m.records.update(
                                                                        ti,
                                                                        (Record {
                                                                            balance: nbi as i128,
                                                                            ..ri
                                                                        }),
                                                                    ).update(
                                                                        tout,
                                                                        (Record {
                                                                            balance: nbo as i128,
                                                                            ..ro
                                                                        }),
                                                                    ),
                                                                    ..m
                                                                }),
                                                                token_amount_in,
                                                                spot_price_after,
                                                            ),
                                                        )
                                                    },
                                                }
                                            },
                                        },
                                    },
                                }
                            },
                        }
                    },
                }
            },
        }
    }
}

/// What [`CometPoolContract::dep_tokn_amt_in_get_lp_tokns_out`] does: a
/// single-token deposit converted to freshly minted shares.
pub open spec fn dep_tokn_amt_in_get_lp_tokns_out_spec(
    m: PoolModel,
    token_in: u64,
    token_amount_in: i128,
    min_pool_amount_out: i128,
) -> Result<(PoolModel, int), Error> {
    if !m.finalized {
        Err(Error::NotFinalized)
    } else if token_index(m.tokens, token_in) < 0 {
        Err(Error::NotBound)
    } else {
        let ti = token_index(m.tokens, token_in);
        let ri = m.records[ti];
        match c_mul_spec(ri.balance as int, MAX_IN_RATIO as int) {
            Err(e) => Err(e),
            Ok(cap) => if token_amount_in > cap {
                Err(Error::MaxInRatio)
            } else {
                match calc_lp_token_amount_given_token_deposits_in_spec(
                    ri.balance as int,
                    ri.denorm as int,
                    m.total_shares as int,
                    m.total_weight as int,
                    token_amount_in as int,
                    m.swap_fee as int,
                ) {
                    Err(e) => Err(e),
                    Ok(pool_amount_out) => if pool_amount_out < min_pool_amount_out {
                        Err(Error::LimitOut)
                    } else {
                        match c_add_spec(ri.balance as int, token_amount_in as int) {
                            Err(e) => Err(e),
                            Ok(nb) => match c_add_spec(m.total_shares as int, pool_amount_out) {
                                Err(e) => Err(e),
                                Ok(ns) => Ok(
                                    (
                                        (PoolModel {
                                            records: m.records.update(
                                                ti,
                                                (Record { balance: nb as i128, ..ri }),
                                            ),
                                            total_shares: ns as i128,
                                            ..m
                                        }),
                                        pool_amount_out,
                                    ),
                                ),
                            },
                        }
                    },
                }
            },
        }
    }
}

/// What [`CometPoolContract::dep_lp_tokn_amt_out_get_tokn_in`] does: the
/// single-token deposit needed for a desired amount of freshly minted
/// shares.
pub open spec fn dep_lp_tokn_amt_out_get_tokn_in_spec(
    m: PoolModel,
    token_in: u64,
    pool_amount_out: i128,
    max_amount_in: i128,
) -> Result<(PoolModel, int), Error> {
    if !m.finalized {
        Err(Error::NotFinalized)
    } else if token_index(m.tokens, token_in) < 0 {
        Err(Error::NotBound)
    } else {
        let ti = token_index(m.tokens, token_in);
        let ri = m.records[ti];
        match calc_token_deposits_in_given_lp_token_amount_spec(
            ri.balance as int,
            ri.denorm as int,
            m.total_shares as int,
            m.total_weight as int,
            pool_amount_out as int,
            m.swap_fee as int,
        ) {
            Err(e) => Err(e),
            Ok(token_amount_in) => if token_amount_in == 0 {
                Err(Error::MathApprox)
            } else if token_amount_in > max_amount_in {
                Err(Error::LimitIn)
            } else {
                match c_mul_spec(ri.balance as int, MAX_IN_RATIO as int) {
                    Err(e) => Err(e),
                    Ok(cap) => if token_amount_in > cap {
                        Err(Error::MaxInRatio)
                    } else {
                        match c_add_spec(ri.balance as int, token_amount_in) {
                            Err(e) => Err(e),
                            Ok(nb) => match c_add_spec(m.total_shares as int, pool_amount_out as int) {
                                Err(e) => Err(e),
                                Ok(ns) => Ok(
                                    (
                                        (PoolModel {
                                            records: m.records.update(
                                                ti,
                                                (Record { balance: nb as i128, ..ri }),
                                            ),
                                            total_shares: ns as i128,
                                            ..m
                                        }),
                                        token_amount_in,
                                    ),
                                ),
                            },
                        }
                    },
                }
            },
        }
    }
}

/// What [`CometPoolContract::wdr_tokn_amt_in_get_lp_tokns_out`] does: burn a
/// given share amount for a single-token withdrawal.
pub open spec fn wdr_tokn_amt_in_get_lp_tokns_out_spec(
    m: PoolModel,
    token_out: u64,
    pool_amount_in: i128,
    min_amount_out: i128,
) -> Result<(PoolModel, int), Error> {
    if !m.finalized {
        Err(Error::NotFinalized)
    } else if token_index(m.tokens, token_out) < 0 {
        Err(Error::NotBound)
    } else {
        let ti = token_index(m.tokens, token_out);
        let ro = m.records[ti];
        match calc_token_withdrawal_amount_given_lp_token_amount_spec(
            ro.balance as int,
            ro.denorm as int,
            m.total_shares as int,
            m.total_weight as int,
            pool_amount_in as int,
            m.swap_fee as int,
        ) {
            Err(e) => Err(e),
            Ok(token_amount_out) => if token_amount_out < min_amount_out {
                Err(Error::LimitOut)
            } else {
                match c_mul_spec(ro.balance as int, MAX_OUT_RATIO as int) {
                    Err(e) => Err(e),
                    Ok(cap) => if token_amount_out > cap {
                        Err(Error::MaxOutRatio)
                    } else {
                        match c_sub_spec(ro.balance as int, token_amount_out) {
                            Err(e) => Err(e),
                            Ok(nb) => match c_sub_spec(pool_amount_in as int, EXIT_FEE as int) {
                                Err(e) => Err(e),
                                Ok(burned) => match c_sub_spec(m.total_shares as int, burned) {
                                    Err(e) => Err(e),
                                    Ok(ns) => Ok(
                                        (
                                            (PoolModel {
                                                records: m.records.update(
                                                    ti,
                                                    (Record { balance: nb as i128, ..ro }),
                                                ),
                                                total_shares: ns as i128,
                                                ..m
                                            }),
                                            token_amount_out,
                                        ),
                                    ),
                                },
                            },
                        }
                    },
                }
            },
        }
    }
}

/// What [`CometPoolContract::wdr_tokn_amt_out_get_lp_tokns_in`] does: the
/// shares to burn for a desired single-token withdrawal.
pub open spec fn wdr_tokn_amt_out_get_lp_tokns_in_spec(
    m: PoolModel,
    token_out: u64,
    token_amount_out: i128,
    max_pool_amount_in: i128,
) -> Result<(PoolModel, int), Error> {
    if !m.finalized {
        Err(Error::NotFinalized)
    } else if token_index(m.tokens, token_out) < 0 {
        Err(Error::NotBound)
    } else {
        let ti = token_index(m.tokens, token_out);
        let ro = m.records[ti];
        match c_mul_spec(ro.balance as int, MAX_OUT_RATIO as int) {
            Err(e) => Err(e),
            Ok(cap) => if token_amount_out > cap {
                Err(Error::MaxOutRatio)
            } else {
                match calc_lp_token_amount_given_token_withdrawal_amount_spec(
                    ro.balance as int,
                    ro.denorm as int,
                    m.total_shares as int,
                    m.total_weight as int,
                    token_amount_out as int,
                    m.swap_fee as int,
                ) {
                    Err(e) => Err(e),
                    Ok(pool_amount_in) => if pool_amount_in == 0 {
                        Err(Error::MathApprox)
                    } else if pool_amount_in > max_pool_amount_in {
                        Err(Error::LimitIn)
                    } else {
                        match c_sub_spec(ro.balance as int, token_amount_out as int) {
                            Err(e) => Err(e),
                            Ok(nb) => match c_sub_spec(pool_amount_in, EXIT_FEE as int) {
                                Err(e) => Err(e),
                                Ok(burned) => match c_sub_spec(m.total_shares as int, burned) {
                                    Err(e) => Err(e),
                                    Ok(ns) => Ok(
                                        (
                                            (PoolModel {
                                                records: m.records.update(
                                                    ti,
                                                    (Record { balance: nb as i128, ..ro }),
                                                ),
                                                total_shares: ns as i128,
                                                ..m
                                            }),
                                            pool_amount_in,
                                        ),
                                    ),
                                },
                            },
                        }
                    },
                }
            },
        }
    }
}

/// What [`CometPoolContract::set_swap_fee`] does.
pub open spec fn set_swap_fee_spec(m: PoolModel, fee: i128, caller: u64) -> Result<
    PoolModel,
    Error,
> {
    if m.finalized {
        Err(Error::AlreadyFinalized)
    } else if fee < MIN_FEE {
        Err(Error::MinFee)
    } else if fee > MAX_FEE {
        Err(Error::MaxFee)
    } else if caller != m.controller {
        Err(Error::Unauthorized)
    } else {
        Ok((PoolModel { swap_fee: fee, ..m }))
    }
}

/// What [`CometPoolContract::set_controller`] does.
pub open spec fn set_controller_spec(m: PoolModel, caller: u64, manager: u64) -> Result<
    PoolModel,
    Error,
> {
    if caller != m.controller {
        Err(Error::Unauthorized)
    } else {
        Ok((PoolModel { controller: manager, ..m }))
    }
}

/// What [`CometPoolContract::set_public_swap`] does.
pub open spec fn set_public_swap_spec(m: PoolModel, caller: u64, val: bool) -> Result<
    PoolModel,
    Error,
> {
    if caller != m.controller {
        Err(Error::Unauthorized)
    } else if !m.finalized {
        Err(Error::NotFinalized)
    } else {
        Ok((PoolModel { public_swap: val, ..m }))
    }
}

/// Refuse a negative token amount, as the share-token entry points do before
/// touching any ledger state.
pub fn check_nonnegative_amount(amount: i128) -> (r: Result<(), Error>)
    ensures
        amount >= 0 ==> r == Ok::<(), Error>(()),
        amount < 0 ==> r == Err::<(), Error>(Error::NegativeAmount),
{
    if amount < 0 {
        Err(Error::NegativeAmount)
    } else {
        Ok(())
    }
}

/// A weighted constant-value pool.
pub struct CometPoolContract {
    controller: u64,
    factory: u64,
    swap_fee: i128,
    total_weight: i128,
    finalized: bool,
    public_swap: bool,
    total_shares: i128,
    tokens: Vec<u64>,
    records: Vec<Record>,
}

impl View for CometPoolContract {
    type V = PoolModel;

    closed spec fn view(&self) -> PoolModel {
        PoolModel {
            controller: self.controller,
            factory: self.factory,
            swap_fee: self.swap_fee,
            total_weight: self.total_weight,
            finalized: self.finalized,
            public_swap: self.public_swap,
            total_shares: self.total_shares,
            tokens: self.tokens@,
            records: self.records@,
        }
    }
}

impl CometPoolContract {
    /// The structural invariant, stated over the pool's mathematical image.
    pub closed spec fn wf(&self) -> bool {
        pool_wf(self@)
    }

    /// A fresh, empty, unfinalized pool with the least fee.
    pub fn init(factory: u64, controller: u64) -> (r: CometPoolContract)
        ensures
            r.wf(),
            r@ == (PoolModel {
                controller,
                factory,
                swap_fee: MIN_FEE,
                total_weight: 0,
                finalized: false,
                public_swap: false,
                total_shares: 0,
                tokens: Seq::<u64>::empty(),
                records: Seq::<Record>::empty(),
            }),
    {
        let r = CometPoolContract {
            controller,
            factory,
            swap_fee: MIN_FEE,
            total_weight: 0,
            finalized: false,
            public_swap: false,
            total_shares: 0,
            tokens: Vec::new(),
            records: Vec::new(),
        };
        proof {
            assert(r@.tokens =~= Seq::<u64>::empty());
            assert(r@.records =~= Seq::<Record>::empty());
        }
        r
    }

    /// Index of a token in the binding order, when it is bound.
    fn find_token(&self, t: u64) -> (r: Option<usize>)
        ensures
            match r {
                Some(i) => i < self@.tokens.len() && self@.tokens[i as int] == t && token_index(
                    self@.tokens,
                    t,
                ) == i,
                None => token_index(self@.tokens, t) == -1,
            },
    {
        let n = self.tokens.len();
        let mut i: usize = 0;
        while i < n
            invariant
                n == self@.tokens.len(),
                i <= n,
                forall|j: int| 0 <= j < i ==> self@.tokens[j] != t,
            decreases n - i,
        {
            if self.tokens[i] == t {
                proof {
                    lemma_token_index_first(self@.tokens, t, i as int);
                }
                return Some(i);
            }
            i += 1;
        }
        proof {
            lemma_token_index_none(self@.tokens, t);
        }
        None
    }

    /// The identity allowed to configure the pool.
    pub fn get_controller(&self) -> (r: u64)
        ensures
            r == self@.controller,
    {
        self.controller
    }

    /// The sum of all denormalized weights.
    pub fn get_total_denormalized_weight(&self) -> (r: i128)
        ensures
            r == self@.total_weight,
    {
        self.total_weight
    }

    /// How many tokens are bound.
    pub fn get_num_tokens(&self) -> (r: u32)
        requires
            self.wf(),
        ensures
            r == self@.tokens.len(),
    {
        self.tokens.len() as u32
    }

    /// The bound tokens in binding order.
    pub fn get_current_tokens(&self) -> (r: Vec<u64>)
        ensures
            r@ == self@.tokens,
    {
        let n = self.tokens.len();
        let mut out: Vec<u64> = Vec::new();
        let mut i: usize = 0;
        while i < n
            invariant
                n == self@.tokens.len(),
                i <= n,
                out@ == self@.tokens.subrange(0, i as int),
            decreases n - i,
        {
            out.push(self.tokens[i]);
            proof {
                assert(out@ =~= self@.tokens.subrange(0, i + 1));
            }
            i += 1;
        }
        proof {
            assert(out@ =~= self@.tokens);
        }
        out
    }

    /// The bound tokens, only once the pool is finalized.
    pub fn get_final_tokens(&self) -> (r: Result<Vec<u64>, Error>)
        ensures
            self@.finalized ==> r is Ok && r->Ok_0@ == self@.tokens,
            !self@.finalized ==> r == Err::<Vec<u64>, Error>(Error::NotFinalized),
    {
        if !self.finalized {
            return Err(Error::NotFinalized);
        }
        Ok(self.get_current_tokens())
    }

    /// The pool's balance of a bound token.
    pub fn get_balance(&self, token: u64) -> (r: Result<i128, Error>)
        requires
            self.wf(),
        ensures
            token_index(self@.tokens, token) >= 0 ==> r == Ok::<i128, Error>(
                self@.records[token_index(self@.tokens, token)].balance,
            ),
            token_index(self@.tokens, token) < 0 ==> r == Err::<i128, Error>(Error::NotBound),
    {
        match self.find_token(token) {
            None => Err(Error::NotBound),
            Some(i) => Ok(self.records[i].balance),
        }
    }

    /// The denormalized weight of a bound token.
    pub fn get_denormalized_weight(&self, token: u64) -> (r: Result<i128, Error>)
        requires
            self.wf(),
        ensures
            token_index(self@.tokens, token) >= 0 ==> r == Ok::<i128, Error>(
                self@.records[token_index(self@.tokens, token)].denorm,
            ),
            token_index(self@.tokens, token) < 0 ==> r == Err::<i128, Error>(Error::NotBound),
    {
        match self.find_token(token) {
            None => Err(Error::NotBound),
            Some(i) => Ok(self.records[i].denorm),
        }
    }

    /// The weight of a bound token divided by the total weight.
    pub fn get_normalized_weight(&self, token: u64) -> (r: Result<i128, Error>)
        requires
            self.wf(),
        ensures
            token_index(self@.tokens, token) >= 0 ==> to_int(r) == c_div_spec(
                self@.records[token_index(self@.tokens, token)].denorm as int,
                self@.total_weight as int,
            ),
            token_index(self@.tokens, token) < 0 ==> r == Err::<i128, Error>(Error::NotBound),
    {
        match self.find_token(token) {
            None => Err(Error::NotBound),
            Some(i) => c_div(self.records[i].denorm, self.total_weight),
        }
    }

    /// The swap fee.
    pub fn get_swap_fee(&self) -> (r: i128)
        ensures
            r == self@.swap_fee,
    {
        self.swap_fee
    }

    /// The spot price between two bound tokens, the swap fee included.
    pub fn get_spot_price(&self, token_in: u64, token_out: u64) -> (r: Result<i128, Error>)
        requires
            self.wf(),
        ensures
            to_int(r) == get_spot_price_spec(self@, token_in, token_out, self@.swap_fee as int),
    {
        let i = match self.find_token(token_in) {
            None => return Err(Error::NotBound),
            Some(v) => v,
        };
        let o = match self.find_token(token_out) {
            None => return Err(Error::NotBound),
            Some(v) => v,
        };
        let in_record = self.records[i];
        let out_record = self.records[o];
        calc_spot_price(
            in_record.balance,
            in_record.denorm,
            out_record.balance,
            out_record.denorm,
            self.swap_fee,
        )
    }

    /// The spot price between two bound tokens with no fee applied.
    pub fn get_spot_price_sans_fee(&self, token_in: u64, token_out: u64) -> (r: Result<
        i128,
        Error,
    >)
        requires
            self.wf(),
        ensures
            to_int(r) == get_spot_price_spec(self@, token_in, token_out, 0),
    {
        let i = match self.find_token(token_in) {
            None => return Err(Error::NotBound),
            Some(v) => v,
        };
        let o = match self.find_token(token_out) {
            None => return Err(Error::NotBound),
            Some(v) => v,
        };
        let in_record = self.records[i];
        let out_record = self.records[o];
        calc_spot_price(
            in_record.balance,
            in_record.denorm,
            out_record.balance,
            out_record.denorm,
            0,
        )
    }

    /// Is swapping open?
    pub fn is_public_swap(&self) -> (r: bool)
        ensures
            r == self@.public_swap,
    {
        self.public_swap
    }

    /// Is the pool finalized?
    pub fn is_finalized(&self) -> (r: bool)
        ensures
            r == self@.finalized,
    {
        self.finalized
    }

    /// Is the token bound?
    pub fn is_bound(&self, t: u64) -> (r: bool)
        ensures
            r == (token_index(self@.tokens, t) >= 0),
    {
        match self.find_token(t) {
            None => false,
            Some(_) => true,
        }
    }

    /// The outstanding liquidity-share supply.
    pub fn get_total_shares(&self) -> (r: i128)
        ensures
            r == self@.total_shares,
    {
        self.total_shares
    }

    /// Bind a new token with its opening balance and weight.  The caller must
    /// pull the opening balance into the pool on the outside ledger exactly
    /// when this returns success.
    pub fn bind(&mut self, token: u64, balance: i128, denorm: i128, caller: u64) -> (r: Result<
        (),
        Error,
    >)
        requires
            old(self).wf(),
        ensures
            final(self).wf(),
            match bind_spec(old(self)@, token, balance, denorm, caller) {
                Ok(m2) => r == Ok::<(), Error>(()) && final(self)@ == m2,
                Err(e) => r == Err::<(), Error>(e) && final(self)@ == old(self)@,
            },
    {
        if self.finalized {
            return Err(Error::AlreadyFinalized);
        }
        if self.find_token(token).is_some() {
            return Err(Error::AlreadyBound);
        }
        if caller != self.controller {
            return Err(Error::Unauthorized);
        }
        if self.tokens.len() >= MAX_BOUND_TOKENS as usize {
            return Err(Error::MaxTokens);
        }
        if denorm < MIN_WEIGHT {
            return Err(Error::MinWeight);
        }
        if denorm > MAX_WEIGHT {
            return Err(Error::MaxWeight);
        }
        if balance < MIN_BALANCE {
            return Err(Error::MinBalance);
        }
        let new_total = self.total_weight + denorm;
        if new_total > MAX_TOTAL_WEIGHT {
            return Err(Error::MaxTotalWeight);
        }
        let index = self.tokens.len() as u32;
        let rec = Record { bound: true, index, denorm, balance };
        proof {
            lemma_token_index_absent(self@.tokens, token);
            lemma_sum_weights_lower_bound(self@.records);
            lemma_sum_weights_push(self@.records, rec);
        }
        self.tokens.push(token);
        self.records.push(rec);
        self.total_weight = new_total;
        Ok(())
    }

    /// Change the balance and weight of an already bound token.  The caller
    /// settles the balance difference on the outside ledger exactly when this
    /// returns success.
    pub fn rebind(&mut self, token: u64, balance: i128, denorm: i128, caller: u64) -> (r: Result<
        (),
        Error,
    >)
        requires
            old(self).wf(),
        ensures
            final(self).wf(),
            match rebind_spec(old(self)@, token, balance, denorm, caller) {
                Ok(m2) => r == Ok::<(), Error>(()) && final(self)@ == m2,
                Err(e) => r == Err::<(), Error>(e) && final(self)@ == old(self)@,
            },
    {
        if self.finalized {
            return Err(Error::AlreadyFinalized);
        }
        if caller != self.controller {
            return Err(Error::Unauthorized);
        }
        let i = match self.find_token(token) {
            None => return Err(Error::NotBound),
            Some(v) => v,
        };
        if denorm < MIN_WEIGHT {
            return Err(Error::MinWeight);
        }
        if denorm > MAX_WEIGHT {
            return Err(Error::MaxWeight);
        }
        if balance < MIN_BALANCE {
            return Err(Error::MinBalance);
        }
        proof {
            lemma_sum_weights_lower_bound(self@.records);
        }
        let old_weight = self.records[i].denorm;
        let new_total = self.total_weight + denorm - old_weight;
        if denorm > old_weight && new_total > MAX_TOTAL_WEIGHT {
            return Err(Error::MaxTotalWeight);
        }
        let rec = Record { bound: true, index: i as u32, denorm, balance };
        proof {
            lemma_sum_weights_update(self@.records, i as int, rec);
        }
        self.records[i] = rec;
        self.total_weight = new_total;
        Ok(())
    }

    /// The one-way transition to the finalized state: opens swapping and
    /// mints the fixed initial share supply, which the caller credits to the
    /// controller on the share ledger.
    pub fn finalize(&mut self, caller: u64) -> (r: Result<(), Error>)
        requires
            old(self).wf(),
        ensures
            final(self).wf(),
            match finalize_spec(old(self)@, caller) {
                Ok(m2) => r == Ok::<(), Error>(()) && final(self)@ == m2,
                Err(e) => r == Err::<(), Error>(e) && final(self)@ == old(self)@,
            },
    {
        if self.finalized {
            return Err(Error::AlreadyFinalized);
        }
        if self.tokens.len() <= MIN_BOUND_TOKENS as usize {
            return Err(Error::MinTokens);
        }
        if caller != self.controller {
            return Err(Error::Unauthorized);
        }
        self.finalized = true;
        self.public_swap = true;
        self.total_shares = self.total_shares + INIT_POOL_SUPPLY;
        Ok(())
    }

    /// Set the swap fee, only before finalization and within the fee band.
    pub fn set_swap_fee(&mut self, fee: i128, caller: u64) -> (r: Result<(), Error>)
        requires
            old(self).wf(),
        ensures
            final(self).wf(),
            match set_swap_fee_spec(old(self)@, fee, caller) {
                Ok(m2) => r == Ok::<(), Error>(()) && final(self)@ == m2,
                Err(e) => r == Err::<(), Error>(e) && final(self)@ == old(self)@,
            },
    {
        if self.finalized {
            return Err(Error::AlreadyFinalized);
        }
        if fee < MIN_FEE {
            return Err(Error::MinFee);
        }
        if fee > MAX_FEE {
            return Err(Error::MaxFee);
        }
        if caller != self.controller {
            return Err(Error::Unauthorized);
        }
        self.swap_fee = fee;
        Ok(())
    }

    /// Hand control of the pool to another identity.
    pub fn set_controller(&mut self, caller: u64, manager: u64) -> (r: Result<(), Error>)
        requires
            old(self).wf(),
        ensures
            final(self).wf(),
            match set_controller_spec(old(self)@, caller, manager) {
                Ok(m2) => r == Ok::<(), Error>(()) && final(self)@ == m2,
                Err(e) => r == Err::<(), Error>(e) && final(self)@ == old(self)@,
            },
    {
        if caller != self.controller {
            return Err(Error::Unauthorized);
        }
        self.controller = manager;
        Ok(())
    }

    /// Open or close public swapping on a finalized pool.
    pub fn set_public_swap(&mut self, caller: u64, val: bool) -> (r: Result<(), Error>)
        requires
            old(self).wf(),
        ensures
            final(self).wf(),
            match set_public_swap_spec(old(self)@, caller, val) {
                Ok(m2) => r == Ok::<(), Error>(()) && final(self)@ == m2,
                Err(e) => r == Err::<(), Error>(e) && final(self)@ == old(self)@,
            },
    {
        if caller != self.controller {
            return Err(Error::Unauthorized);
        }
        if !self.finalized {
            return Err(Error::NotFinalized);
        }
        self.public_swap = val;
        Ok(())
    }

    /// Deposit every bound token pro rata for a desired amount of freshly
    /// minted shares, each deposit capped by the caller's limit for that
    /// token.  Returns the amounts paid in, in token order; the caller pulls
    /// exactly those amounts on the outside ledger and credits the shares.
    pub fn join_pool(&mut self, pool_amount_out: i128, max_amounts_in: &Vec<i128>) -> (r: Result<
        Vec<i128>,
        Error,
    >)
        requires
            old(self).wf(),
            pool_amount_out >= 0,
            max_amounts_in@.len() == old(self)@.tokens.len(),
        ensures
            final(self).wf(),
            match join_pool_spec(old(self)@, pool_amount_out as int, max_amounts_in@) {
                Ok(pair) => r is Ok && final(self)@ == pair.0 && (r->Ok_0)@ == pair.1,
                Err(e) => r == Err::<Vec<i128>, Error>(e) && final(self)@ == old(self)@,
            },
    {
        if !self.finalized {
            return Err(Error::NotFinalized);
        }
        let ratio = match c_div(pool_amount_out, self.total_shares) {
            Ok(v) => v,
            Err(e) => return Err(e),
        };
        if ratio == 0 {
            return Err(Error::MathApprox);
        }
        let n = self.tokens.len();
        let mut new_records: Vec<Record> = Vec::new();
        let mut amounts: Vec<i128> = Vec::new();
        let mut i: usize = 0;
        proof {
            assert(new_records@ + self@.records.skip(0) =~= self@.records);
            if join_loop_spec(self@.records, ratio as int, max_amounts_in@, 0) is Ok {
                let pair = join_loop_spec(self@.records, ratio as int, max_amounts_in@, 0)->Ok_0;
                assert(amounts@ + pair.1 =~= pair.1);
            }
        }
        while i < n
            invariant
                *self == *old(self),
                old(self).wf(),
                i <= n,
                n == self@.records.len(),
                max_amounts_in@.len() == n,
                new_records@.len() == i,
                amounts@.len() == i,
                old(self)@.finalized,
                c_div_spec(pool_amount_out as int, old(self)@.total_shares as int) == Ok::<
                    int,
                    Error,
                >(ratio as int),
                ratio != 0,
                join_loop_spec(self@.records, ratio as int, max_amounts_in@, 0) == join_cont(
                    new_records@,
                    amounts@,
                    self@.records,
                    ratio as int,
                    max_amounts_in@,
                    i as int,
                ),
            decreases n - i,
        {
            let ghost cur = new_records@ + self@.records.skip(i as int);
            let rec = self.records[i];
            proof {
                assert(cur[i as int] == rec);
                assert(cur.len() == n);
            }
            let amt = match c_mul(ratio, rec.balance) {
                Ok(v) => v,
                Err(e) => return Err(e),
            };
            if amt == 0 {
                return Err(Error::MathApprox);
            }
            if amt > max_amounts_in[i] {
                return Err(Error::LimitIn);
            }
            let nb = match c_add(rec.balance, amt) {
                Ok(v) => v,
                Err(e) => return Err(e),
            };
            let new_rec = Record { bound: rec.bound, index: rec.index, denorm: rec.denorm, balance: nb };
            proof {
                assert(cur.update(i as int, new_rec) =~= (new_records@.push(new_rec)) + self@.records.skip(
                    i + 1,
                ));
                if join_loop_spec(cur.update(i as int, new_rec), ratio as int, max_amounts_in@, i + 1) is Ok {
                    let pair = join_loop_spec(
                        cur.update(i as int, new_rec),
                        ratio as int,
                        max_amounts_in@,
                        i + 1,
                    )->Ok_0;
                    assert(amounts@ + (seq![amt] + pair.1) =~= (amounts@.push(amt)) + pair.1);
                }
            }
            new_records.push(new_rec);
            amounts.push(amt);
            i += 1;
        }
        proof {
            assert(new_records@ + self@.records.skip(n as int) =~= new_records@);
            assert(amounts@ + Seq::<i128>::empty() =~= amounts@);
        }
        let new_total_shares = match c_add(self.total_shares, pool_amount_out) {
            Ok(v) => v,
            Err(e) => return Err(e),
        };
        proof {
            lemma_join_loop_preserves(self@.records, ratio as int, max_amounts_in@, 0);
            lemma_sum_weights_congruence(new_records@, self@.records);
        }
        self.records = new_records;
        self.total_shares = new_total_shares;
        Ok(amounts)
    }

    /// Withdraw every bound token pro rata by burning a share amount, the
    /// flat exit fee taken from the shares first, each withdrawal at least
    /// the caller's floor for that token.  Returns the amounts paid out, in
    /// token order; the caller pulls the shares, burns the remainder, routes
    /// the fee to the share ledger's fee sink, and pushes exactly the
    /// returned amounts.
    pub fn exit_pool(&mut self, pool_amount_in: i128, min_amounts_out: &Vec<i128>) -> (r: Result<
        Vec<i128>,
        Error,
    >)
        requires
            old(self).wf(),
            0 <= pool_amount_in <= old(self)@.total_shares,
            min_amounts_out@.len() == old(self)@.tokens.len(),
        ensures
            final(self).wf(),
            match exit_pool_spec(old(self)@, pool_amount_in as int, min_amounts_out@) {
                Ok(pair) => r is Ok && final(self)@ == pair.0 && (r->Ok_0)@ == pair.1,
                Err(e) => r == Err::<Vec<i128>, Error>(e) && final(self)@ == old(self)@,
            },
    {
        if !self.finalized {
            return Err(Error::NotFinalized);
        }
        let pai_after_fee = match c_sub(pool_amount_in, EXIT_FEE) {
            Ok(v) => v,
            Err(e) => return Err(e),
        };
        let ratio = match c_div(pai_after_fee, self.total_shares) {
            Ok(v) => v,
            Err(e) => return Err(e),
        };
        if ratio == 0 {
            return Err(Error::MathApprox);
        }
        let n = self.tokens.len();
        let mut new_records: Vec<Record> = Vec::new();
        let mut amounts: Vec<i128> = Vec::new();
        let mut i: usize = 0;
        proof {
            assert(new_records@ + self@.records.skip(0) =~= self@.records);
            if exit_loop_spec(self@.records, ratio as int, min_amounts_out@, 0) is Ok {
                let pair = exit_loop_spec(self@.records, ratio as int, min_amounts_out@, 0)->Ok_0;
                assert(amounts@ + pair.1 =~= pair.1);
            }
        }
        while i < n
            invariant
                *self == *old(self),
                old(self).wf(),
                i <= n,
                n == self@.records.len(),
                min_amounts_out@.len() == n,
                new_records@.len() == i,
                amounts@.len() == i,
                old(self)@.finalized,
                c_sub_spec(pool_amount_in as int, EXIT_FEE as int) == Ok::<int, Error>(
                    pai_after_fee as int,
                ),
                c_div_spec(pai_after_fee as int, old(self)@.total_shares as int) == Ok::<
                    int,
                    Error,
                >(ratio as int),
                ratio != 0,
                exit_loop_spec(self@.records, ratio as int, min_amounts_out@, 0) == exit_cont(
                    new_records@,
                    amounts@,
                    self@.records,
                    ratio as int,
                    min_amounts_out@,
                    i as int,
                ),
            decreases n - i,
        {
            let ghost cur = new_records@ + self@.records.skip(i as int);
            let rec = self.records[i];
            proof {
                assert(cur[i as int] == rec);
                assert(cur.len() == n);
            }
            let amt = match c_mul(ratio, rec.balance) {
                Ok(v) => v,
                Err(e) => return Err(e),
            };
            if amt == 0 {
                return Err(Error::MathApprox);
            }
            if amt < min_amounts_out[i] {
                return Err(Error::LimitOut);
            }
            let nb = match c_sub(rec.balance, amt) {
                Ok(v) => v,
                Err(e) => return Err(e),
            };
            let new_rec = Record { bound: rec.bound, index: rec.index, denorm: rec.denorm, balance: nb };
            proof {
                assert(cur.update(i as int, new_rec) =~= (new_records@.push(new_rec)) + self@.records.skip(
                    i + 1,
                ));
                if exit_loop_spec(cur.update(i as int, new_rec), ratio as int, min_amounts_out@, i + 1) is Ok {
                    let pair = exit_loop_spec(
                        cur.update(i as int, new_rec),
                        ratio as int,
                        min_amounts_out@,
                        i + 1,
                    )->Ok_0;
                    assert(amounts@ + (seq![amt] + pair.1) =~= (amounts@.push(amt)) + pair.1);
                }
            }
            new_records.push(new_rec);
            amounts.push(amt);
            i += 1;
        }
        proof {
            assert(new_records@ + self@.records.skip(n as int) =~= new_records@);
            assert(amounts@ + Seq::<i128>::empty() =~= amounts@);
        }
        let new_total_shares = match c_sub(self.total_shares, pai_after_fee) {
            Ok(v) => v,
            Err(e) => return Err(e),
        };
        proof {
            lemma_exit_loop_preserves(self@.records, ratio as int, min_amounts_out@, 0);
            lemma_sum_weights_congruence(new_records@, self@.records);
        }
        self.records = new_records;
        self.total_shares = new_total_shares;
        Ok(amounts)
    }

    /// Swap a fixed in-amount for at least a floor of the out-token, holding
    /// the spot price under the caller's bound before and after.  Returns
    /// the amount paid out and the spot price after the swap; the caller
    /// pulls the in-amount and pushes the out-amount on the outside ledger.
    pub fn swap_exact_amount_in(
        &mut self,
        token_in: u64,
        token_amount_in: i128,
        token_out: u64,
        min_amount_out: i128,
        max_price: i128,
    ) -> (r: Result<(i128, i128), Error>)
        requires
            old(self).wf(),
            token_amount_in >= 0,
        ensures
            final(self).wf(),
            match swap_exact_amount_in_spec(
                old(self)@,
                token_in,
                token_amount_in,
                token_out,
                min_amount_out,
                max_price,
            ) {
                Ok(tr) => r is Ok && final(self)@ == tr.0 && (r->Ok_0).0 == tr.1 && (r->Ok_0).1
                    == tr.2,
                Err(e) => r == Err::<(i128, i128), Error>(e) && final(self)@ == old(self)@,
            },
    {
        if !self.public_swap {
            return Err(Error::SwapNotPublic);
        }
        let ii = match self.find_token(token_in) {
            None => return Err(Error::NotBound),
            Some(v) => v,
        };
        let oo = match self.find_token(token_out) {
            None => return Err(Error::NotBound),
            Some(v) => v,
        };
        let in_record = self.records[ii];
        let out_record = self.records[oo];
        let cap = match c_mul(in_record.balance, MAX_IN_RATIO) {
            Ok(v) => v,
            Err(e) => return Err(e),
        };
        if token_amount_in > cap {
            return Err(Error::MaxInRatio);
        }
        let spot_price_before = match calc_spot_price(
            in_record.balance,
            in_record.denorm,
            out_record.balance,
            out_record.denorm,
            self.swap_fee,
        ) {
            Ok(v) => v,
            Err(e) => return Err(e),
        };
        if spot_price_before > max_price {
            return Err(Error::BadLimitPrice);
        }
        let token_amount_out = match calc_token_out_given_token_in(
            in_record.balance,
            in_record.denorm,
            out_record.balance,
            out_record.denorm,
            token_amount_in,
            self.swap_fee,
        ) {
            Ok(v) => v,
            Err(e) => return Err(e),
        };
        if token_amount_out < min_amount_out {
            return Err(Error::LimitOut);
        }
        let new_balance_in = match c_add(in_record.balance, token_amount_in) {
            Ok(v) => v,
            Err(e) => return Err(e),
        };
        let new_balance_out = match c_sub(out_record.balance, token_amount_out) {
            Ok(v) => v,
            Err(e) => return Err(e),
        };
        let spot_price_after = match calc_spot_price(
            new_balance_in,
            in_record.denorm,
            new_balance_out,
            out_record.denorm,
            self.swap_fee,
        ) {
            Ok(v) => v,
            Err(e) => return Err(e),
        };
        if spot_price_after < spot_price_before {
            return Err(Error::MathApprox);
        }
        if spot_price_after > max_price {
            return Err(Error::LimitPrice);
        }
        let quotient = match c_div(token_amount_in, token_amount_out) {
            Ok(v) => v,
            Err(e) => return Err(e),
        };
        if spot_price_before > quotient {
            return Err(Error::MathApprox);
        }
        let new_in = Record {
            bound: in_record.bound,
            index: in_record.index,
            denorm: in_record.denorm,
            balance: new_balance_in,
        };
        let new_out = Record {
            bound: out_record.bound,
            index: out_record.index,
            denorm: out_record.denorm,
            balance: new_balance_out,
        };
        proof {
            lemma_sum_weights_update(self@.records, ii as int, new_in);
            lemma_sum_weights_update(self@.records.update(ii as int, new_in), oo as int, new_out);
        }
        self.records[ii] = new_in;
        self.records[oo] = new_out;
        Ok((token_amount_out, spot_price_after))
    }

    /// Swap at most a ceiling of the in-token for a fixed out-amount,
    /// holding the spot price under the caller's bound before and after.
    /// Returns the amount pulled in and the spot price after the swap.
    pub fn swap_exact_amount_out(
        &mut self,
        token_in: u64,
        max_amount_in: i128,
        token_out: u64,
        token_amount_out: i128,
        max_price: i128,
    ) -> (r: Result<(i128, i128), Error>)
        requires
            old(self).wf(),
            token_amount_out >= 0,
        ensures
            final(self).wf(),
            match swap_exact_amount_out_spec(
                old(self)@,
                token_in,
                max_amount_in,
                token_out,
                token_amount_out,
                max_price,
            ) {
                Ok(tr) => r is Ok && final(self)@ == tr.0 && (r->Ok_0).0 == tr.1 && (r->Ok_0).1
                    == tr.2,
                Err(e) => r == Err::<(i128, i128), Error>(e) && final(self)@ == old(self)@,
            },
    {
        let ii = match self.find_token(token_in) {
            None => return Err(Error::NotBound),
            Some(v) => v,
        };
        let oo = match self.find_token(token_out) {
            None => return Err(Error::NotBound),
            Some(v) => v,
        };
        if !self.public_swap {
            return Err(Error::SwapNotPublic);
        }
        let in_record = self.records[ii];
        let out_record = self.records[oo];
        let cap = match c_mul(out_record.balance, MAX_OUT_RATIO) {
            Ok(v) => v,
            Err(e) => return Err(e),
        };
        if token_amount_out > cap {
            return Err(Error::MaxOutRatio);
        }
        let spot_price_before = match calc_spot_price(
            in_record.balance,
            in_record.denorm,
            out_record.balance,
            out_record.denorm,
            self.swap_fee,
        ) {
            Ok(v) => v,
            Err(e) => return Err(e),
        };
        if spot_price_before > max_price {
            return Err(Error::BadLimitPrice);
        }
        let token_amount_in = match calc_token_in_given_token_out(
            in_record.balance,
            in_record.denorm,
            out_record.balance,
            out_record.denorm,
            token_amount_out,
            self.swap_fee,
        ) {
            Ok(v) => v,
            Err(e) => return Err(e),
        };
        if token_amount_in > max_amount_in {
            return Err(Error::LimitIn);
        }
        let new_balance_in = match c_add(in_record.balance, token_amount_in) {
            Ok(v) => v,
            Err(e) => return Err(e),
        };
        let new_balance_out = match c_sub(out_record.balance, token_amount_out) {
            Ok(v) => v,
            Err(e) => return Err(e),
        };
        let spot_price_after = match calc_spot_price(
            new_balance_in,
            in_record.denorm,
            new_balance_out,
            out_record.denorm,
            self.swap_fee,
        ) {
            Ok(v) => v,
            Err(e) => return Err(e),
        };
        if spot_price_after < spot_price_before {
            return Err(Error::MathApprox);
        }
        if spot_price_after > max_price {
            return Err(Error::LimitPrice);
        }
        let quotient = match c_div(token_amount_in, token_amount_out) {
            Ok(v) => v,
            Err(e) => return Err(e),
        };
        if spot_price_before > quotient {
            return Err(Error::MathApprox);
        }
        let new_in = Record {
            bound: in_record.bound,
            index: in_record.index,
            denorm: in_record.denorm,
            balance: new_balance_in,
        };
        let new_out = Record {
            bound: out_record.bound,
            index: out_record.index,
            denorm: out_record.denorm,
            balance: new_balance_out,
        };
        proof {
            lemma_sum_weights_update(self@.records, ii as int, new_in);
            lemma_sum_weights_update(self@.records.update(ii as int, new_in), oo as int, new_out);
        }
        self.records[ii] = new_in;
        self.records[oo] = new_out;
        Ok((token_amount_in, spot_price_after))
    }

    /// Deposit a fixed amount of one token for at least a floor of freshly
    /// minted shares.  Returns the shares minted.
    pub fn dep_tokn_amt_in_get_lp_tokns_out(
        &mut self,
        token_in: u64,
        token_amount_in: i128,
        min_pool_amount_out: i128,
    ) -> (r: Result<i128, Error>)
        requires
            old(self).wf(),
            token_amount_in >= 0,
        ensures
            final(self).wf(),
            match dep_tokn_amt_in_get_lp_tokns_out_spec(
                old(self)@,
                token_in,
                token_amount_in,
                min_pool_amount_out,
            ) {
                Ok(tr) => r is Ok && final(self)@ == tr.0 && r->Ok_0 == tr.1,
                Err(e) => r == Err::<i128, Error>(e) && final(self)@ == old(self)@,
            },
    {
        if !self.finalized {
            return Err(Error::NotFinalized);
        }
        let ii = match self.find_token(token_in) {
            None => return Err(Error::NotBound),
            Some(v) => v,
        };
        let in_record = self.records[ii];
        let cap = match c_mul(in_record.balance, MAX_IN_RATIO) {
            Ok(v) => v,
            Err(e) => return Err(e),
        };
        if token_amount_in > cap {
            return Err(Error::MaxInRatio);
        }
        proof {
            lemma_sum_weights_lower_bound(self@.records);
        }
        let pool_amount_out = match calc_lp_token_amount_given_token_deposits_in(
            in_record.balance,
            in_record.denorm,
            self.total_shares,
            self.total_weight,
            token_amount_in,
            self.swap_fee,
        ) {
            Ok(v) => v,
            Err(e) => return Err(e),
        };
        if pool_amount_out < min_pool_amount_out {
            return Err(Error::LimitOut);
        }
        let new_balance_in = match c_add(in_record.balance, token_amount_in) {
            Ok(v) => v,
            Err(e) => return Err(e),
        };
        let new_total_shares = match c_add(self.total_shares, pool_amount_out) {
            Ok(v) => v,
            Err(e) => return Err(e),
        };
        let new_in = Record {
            bound: in_record.bound,
            index: in_record.index,
            denorm: in_record.denorm,
            balance: new_balance_in,
        };
        proof {
            lemma_sum_weights_update(self@.records, ii as int, new_in);
        }
        self.records[ii] = new_in;
        self.total_shares = new_total_shares;
        Ok(pool_amount_out)
    }

    /// Deposit whatever single-token amount a desired share amount costs,
    /// up to the caller's ceiling.  Returns the amount deposited.
    pub fn dep_lp_tokn_amt_out_get_tokn_in(
        &mut self,
        token_in: u64,
        pool_amount_out: i128,
        max_amount_in: i128,
    ) -> (r: Result<i128, Error>)
        requires
            old(self).wf(),
            pool_amount_out >= 0,
        ensures
            final(self).wf(),
            match dep_lp_tokn_amt_out_get_tokn_in_spec(
                old(self)@,
                token_in,
                pool_amount_out,
                max_amount_in,
            ) {
                Ok(tr) => r is Ok && final(self)@ == tr.0 && r->Ok_0 == tr.1,
                Err(e) => r == Err::<i128, Error>(e) && final(self)@ == old(self)@,
            },
    {
        if !self.finalized {
            return Err(Error::NotFinalized);
        }
        let ii = match self.find_token(token_in) {
            None => return Err(Error::NotBound),
            Some(v) => v,
        };
        let in_record = self.records[ii];
        proof {
            lemma_sum_weights_lower_bound(self@.records);
        }
        let token_amount_in = match calc_token_deposits_in_given_lp_token_amount(
            in_record.balance,
            in_record.denorm,
            self.total_shares,
            self.total_weight,
            pool_amount_out,
            self.swap_fee,
        ) {
            Ok(v) => v,
            Err(e) => return Err(e),
        };
        if token_amount_in == 0 {
            return Err(Error::MathApprox);
        }
        if token_amount_in > max_amount_in {
            return Err(Error::LimitIn);
        }
        let cap = match c_mul(in_record.balance, MAX_IN_RATIO) {
            Ok(v) => v,
            Err(e) => return Err(e),
        };
        if token_amount_in > cap {
            return Err(Error::MaxInRatio);
        }
        let new_balance_in = match c_add(in_record.balance, token_amount_in) {
            Ok(v) => v,
            Err(e) => return Err(e),
        };
        let new_total_shares = match c_add(self.total_shares, pool_amount_out) {
            Ok(v) => v,
            Err(e) => return Err(e),
        };
        let new_in = Record {
            bound: in_record.bound,
            index: in_record.index,
            denorm: in_record.denorm,
            balance: new_balance_in,
        };
        proof {
            lemma_sum_weights_update(self@.records, ii as int, new_in);
        }
        self.records[ii] = new_in;
        self.total_shares = new_total_shares;
        Ok(token_amount_in)
    }

    /// Burn a fixed share amount for at least a floor of one token.  Returns
    /// the amount withdrawn; the caller pulls the shares, burns them less the
    /// flat exit fee, routes the fee to the fee sink, and pushes the amount.
    pub fn wdr_tokn_amt_in_get_lp_tokns_out(
        &mut self,
        token_out: u64,
        pool_amount_in: i128,
        min_amount_out: i128,
    ) -> (r: Result<i128, Error>)
        requires
            old(self).wf(),
            0 <= pool_amount_in <= old(self)@.total_shares,
        ensures
            final(self).wf(),
            match wdr_tokn_amt_in_get_lp_tokns_out_spec(
                old(self)@,
                token_out,
                pool_amount_in,
                min_amount_out,
            ) {
                Ok(tr) => r is Ok && final(self)@ == tr.0 && r->Ok_0 == tr.1,
                Err(e) => r == Err::<i128, Error>(e) && final(self)@ == old(self)@,
            },
    {
        if !self.finalized {
            return Err(Error::NotFinalized);
        }
        let oo = match self.find_token(token_out) {
            None => return Err(Error::NotBound),
            Some(v) => v,
        };
        let out_record = self.records[oo];
        proof {
            lemma_sum_weights_lower_bound(self@.records);
        }
        let token_amount_out = match calc_token_withdrawal_amount_given_lp_token_amount(
            out_record.balance,
            out_record.denorm,
            self.total_shares,
            self.total_weight,
            pool_amount_in,
            self.swap_fee,
        ) {
            Ok(v) => v,
            Err(e) => return Err(e),
        };
        if token_amount_out < min_amount_out {
            return Err(Error::LimitOut);
        }
        let cap = match c_mul(out_record.balance, MAX_OUT_RATIO) {
            Ok(v) => v,
            Err(e) => return Err(e),
        };
        if token_amount_out > cap {
            return Err(Error::MaxOutRatio);
        }
        let new_balance_out = match c_sub(out_record.balance, token_amount_out) {
            Ok(v) => v,
            Err(e) => return Err(e),
        };
        let burned = match c_sub(pool_amount_in, EXIT_FEE) {
            Ok(v) => v,
            Err(e) => return Err(e),
        };
        let new_total_shares = match c_sub(self.total_shares, burned) {
            Ok(v) => v,
            Err(e) => return Err(e),
        };
        let new_out = Record {
            bound: out_record.bound,
            index: out_record.index,
            denorm: out_record.denorm,
            balance: new_balance_out,
        };
        proof {
            lemma_sum_weights_update(self@.records, oo as int, new_out);
        }
        self.records[oo] = new_out;
        self.total_shares = new_total_shares;
        Ok(token_amount_out)
    }

    /// Burn whatever share amount a desired single-token withdrawal costs,
    /// up to the caller's ceiling.  Returns the shares burned.
    pub fn wdr_tokn_amt_out_get_lp_tokns_in(
        &mut self,
        token_out: u64,
        token_amount_out: i128,
        max_pool_amount_in: i128,
    ) -> (r: Result<i128, Error>)
        requires
            old(self).wf(),
            token_amount_out >= 0,
        ensures
            final(self).wf(),
            match wdr_tokn_amt_out_get_lp_tokns_in_spec(
                old(self)@,
                token_out,
                token_amount_out,
                max_pool_amount_in,
            ) {
                Ok(tr) => r is Ok && final(self)@ == tr.0 && r->Ok_0 == tr.1,
                Err(e) => r == Err::<i128, Error>(e) && final(self)@ == old(self)@,
            },
    {
        if !self.finalized {
            return Err(Error::NotFinalized);
        }
        let oo = match self.find_token(token_out) {
            None => return Err(Error::NotBound),
            Some(v) => v,
        };
        let out_record = self.records[oo];
        let cap = match c_mul(out_record.balance, MAX_OUT_RATIO) {
            Ok(v) => v,
            Err(e) => return Err(e),
        };
        if token_amount_out > cap {
            return Err(Error::MaxOutRatio);
        }
        proof {
            lemma_sum_weights_lower_bound(self@.records);
        }
        let pool_amount_in = match calc_lp_token_amount_given_token_withdrawal_amount(
            out_record.balance,
            out_record.denorm,
            self.total_shares,
            self.total_weight,
            token_amount_out,
            self.swap_fee,
        ) {
            Ok(v) => v,
            Err(e) => return Err(e),
        };
        if pool_amount_in == 0 {
            return Err(Error::MathApprox);
        }
        if pool_amount_in > max_pool_amount_in {
            return Err(Error::LimitIn);
        }
        let new_balance_out = match c_sub(out_record.balance, token_amount_out) {
            Ok(v) => v,
            Err(e) => return Err(e),
        };
        let burned = match c_sub(pool_amount_in, EXIT_FEE) {
            Ok(v) => v,
            Err(e) => return Err(e),
        };
        let new_total_shares = match c_sub(self.total_shares, burned) {
            Ok(v) => v,
            Err(e) => return Err(e),
        };
        let new_out = Record {
            bound: out_record.bound,
            index: out_record.index,
            denorm: out_record.denorm,
            balance: new_balance_out,
        };
        proof {
            lemma_sum_weights_update(self@.records, oo as int, new_out);
        }
        self.records[oo] = new_out;
        self.total_shares = new_total_shares;
        Ok(pool_amount_in)
    }
}

/// Do two pool states agree on everything but balances and the share
/// supply: the same tokens in the same order, the same weights, indices and
/// binding flags, and the same flags, fee and identities?
pub open spec fn same_configuration(m1: PoolModel, m2: PoolModel) -> bool {
    &&& m2.tokens == m1.tokens
    &&& m2.records.len() == m1.records.len()
    &&& forall|i: int|
        0 <= i < m1.records.len() ==> (#[trigger] m2.records[i]).denorm == m1.records[i].denorm
            && m2.records[i].index == m1.records[i].index && m2.records[i].bound
            == m1.records[i].bound
    &&& m2.controller == m1.controller
    &&& m2.factory == m1.factory
    &&& m2.swap_fee == m1.swap_fee
    &&& m2.finalized == m1.finalized
    &&& m2.public_swap == m1.public_swap
}

/// Law: finalization is one way.  A finalized pool refuses to finalize
/// again, and a successful finalization leaves the pool finalized with
/// public swapping open, the membership and weights untouched, and exactly
/// the initial share supply added.
pub proof fn lemma_finalize_one_way(m: PoolModel, caller: u64)
    requires
        pool_wf(m),
    ensures
        m.finalized ==> finalize_spec(m, caller) == Err::<PoolModel, Error>(
            Error::AlreadyFinalized,
        ),
        match finalize_spec(m, caller) {
            Ok(m2) => m2.finalized && m2.public_swap && m2.tokens == m.tokens && m2.records
                == m.records && m2.total_shares == m.total_shares + INIT_POOL_SUPPLY,
            Err(_) => true,
        },
{
}

/// Law: the liquidity and trading operations move balances and the share
/// supply alone.  Whichever of them succeeds, token membership, weights,
/// flags, fee and identities of the pool are exactly what they were: after
/// finalization nothing else ever changes.
#[verifier::rlimit(60)]
pub proof fn lemma_operations_freeze_configuration(
    m: PoolModel,
    token_in: u64,
    token_out: u64,
    amount: i128,
    limit: i128,
    max_price: i128,
    limits: Seq<i128>,
)
    requires
        pool_wf(m),
    ensures
        (join_pool_spec(m, amount as int, limits) matches Ok(pair) ==> same_configuration(
            m,
            pair.0,
        )),
        (exit_pool_spec(m, amount as int, limits) matches Ok(pair) ==> same_configuration(
            m,
            pair.0,
        )),
        (swap_exact_amount_in_spec(m, token_in, amount, token_out, limit, max_price) matches Ok(tr)
            ==> same_configuration(m, tr.0)),
        (swap_exact_amount_out_spec(m, token_in, limit, token_out, amount, max_price) matches Ok(
            tr,
        ) ==> same_configuration(m, tr.0)),
        (dep_tokn_amt_in_get_lp_tokns_out_spec(m, token_in, amount, limit) matches Ok(tr)
            ==> same_configuration(m, tr.0)),
        (dep_lp_tokn_amt_out_get_tokn_in_spec(m, token_in, amount, limit) matches Ok(tr)
            ==> same_configuration(m, tr.0)),
        (wdr_tokn_amt_in_get_lp_tokns_out_spec(m, token_out, amount, limit) matches Ok(tr)
            ==> same_configuration(m, tr.0)),
        (wdr_tokn_amt_out_get_lp_tokns_in_spec(m, token_out, amount, limit) matches Ok(tr)
            ==> same_configuration(m, tr.0)),
{
    if token_index(m.tokens, token_in) >= 0 {
        lemma_token_index_in_range(m.tokens, token_in);
    }
    if token_index(m.tokens, token_out) >= 0 {
        lemma_token_index_in_range(m.tokens, token_out);
    }
    if m.finalized {
        if c_div_spec(amount as int, m.total_shares as int) is Ok {
            lemma_join_loop_preserves(
                m.records,
                c_div_spec(amount as int, m.total_shares as int)->Ok_0,
                limits,
                0,
            );
        }
        if c_sub_spec(amount as int, EXIT_FEE as int) is Ok {
            let pai = c_sub_spec(amount as int, EXIT_FEE as int)->Ok_0;
            if c_div_spec(pai, m.total_shares as int) is Ok {
                lemma_exit_loop_preserves(
                    m.records,
                    c_div_spec(pai, m.total_shares as int)->Ok_0,
                    limits,
                    0,
                );
            }
        }
    }
}

/// Law: a successful all-token join is pro rata and exact.  Each token's
/// amount paid in is the share ratio applied to its balance, each balance
/// grows by exactly that amount, and the supply grows by exactly the shares
/// minted.
pub proof fn lemma_join_pool_pro_rata(m: PoolModel, pool_amount_out: i128, max_in: Seq<i128>)
    requires
        pool_wf(m),
    ensures
        match join_pool_spec(m, pool_amount_out as int, max_in) {
            Ok(pair) => {
                let ratio = c_div_spec(pool_amount_out as int, m.total_shares as int)->Ok_0;
                &&& pair.1.len() == m.records.len()
                &&& forall|j: int|
                    0 <= j < m.records.len() ==> c_mul_spec(
                        ratio,
                        (#[trigger] m.records[j]).balance as int,
                    ) == Ok::<int, Error>(pair.1[j] as int) && pair.0.records[j].balance
                        == m.records[j].balance + pair.1[j]
                &&& pair.0.total_shares == m.total_shares + pool_amount_out
            },
            Err(_) => true,
        },
{
    if m.finalized && c_div_spec(pool_amount_out as int, m.total_shares as int) is Ok {
        lemma_join_loop_preserves(
            m.records,
            c_div_spec(pool_amount_out as int, m.total_shares as int)->Ok_0,
            max_in,
            0,
        );
    }
}

/// Law: a successful all-token exit is pro rata and exact, the flat exit
/// fee taken from the shares first.  Each token's amount paid out is the
/// post-fee share ratio applied to its balance, each balance shrinks by
/// exactly that amount, and the supply shrinks by exactly the post-fee
/// shares.
pub proof fn lemma_exit_pool_pro_rata(m: PoolModel, pool_amount_in: i128, min_out: Seq<i128>)
    requires
        pool_wf(m),
    ensures
        match exit_pool_spec(m, pool_amount_in as int, min_out) {
            Ok(pair) => {
                let ratio = c_div_spec(
                    pool_amount_in - EXIT_FEE,
                    m.total_shares as int,
                )->Ok_0;
                &&& pair.1.len() == m.records.len()
                &&& forall|j: int|
                    0 <= j < m.records.len() ==> c_mul_spec(
                        ratio,
                        (#[trigger] m.records[j]).balance as int,
                    ) == Ok::<int, Error>(pair.1[j] as int) && pair.0.records[j].balance
                        == m.records[j].balance - pair.1[j]
                &&& pair.0.total_shares == m.total_shares - (pool_amount_in - EXIT_FEE)
            },
            Err(_) => true,
        },
{
    if m.finalized && c_sub_spec(pool_amount_in as int, EXIT_FEE as int) is Ok {
        let pai = c_sub_spec(pool_amount_in as int, EXIT_FEE as int)->Ok_0;
        if c_div_spec(pai, m.total_shares as int) is Ok {
            lemma_exit_loop_preserves(m.records, c_div_spec(pai, m.total_shares as int)->Ok_0, min_out, 0);
        }
    }
}

/// Law: a swap of a fixed in-amount that succeeds never lowers the spot
/// price, and never ends above the caller's price bound: the price it
/// returns is the price of the new state for the same pair, at least the
/// price quoted before the swap, and at most `max_price`.
pub proof fn lemma_swap_in_price_never_drops(
    m: PoolModel,
    token_in: u64,
    token_amount_in: i128,
    token_out: u64,
    min_amount_out: i128,
    max_price: i128,
)
    ensures
        match swap_exact_amount_in_spec(
            m,
            token_in,
            token_amount_in,
            token_out,
            min_amount_out,
            max_price,
        ) {
            Ok(tr) => {
                &&& get_spot_price_spec(m, token_in, token_out, m.swap_fee as int) is Ok
                &&& tr.2 >= get_spot_price_spec(m, token_in, token_out, m.swap_fee as int)->Ok_0
                &&& tr.2 <= max_price
            },
            Err(_) => true,
        },
{
}

/// Law: a swap for a fixed out-amount that succeeds never lowers the spot
/// price, and never ends above the caller's price bound, as
/// [`lemma_swap_in_price_never_drops`] states for the other direction.
pub proof fn lemma_swap_out_price_never_drops(
    m: PoolModel,
    token_in: u64,
    max_amount_in: i128,
    token_out: u64,
    token_amount_out: i128,
    max_price: i128,
)
    ensures
        match swap_exact_amount_out_spec(
            m,
            token_in,
            max_amount_in,
            token_out,
            token_amount_out,
            max_price,
        ) {
            Ok(tr) => {
                &&& get_spot_price_spec(m, token_in, token_out, m.swap_fee as int) is Ok
                &&& tr.2 >= get_spot_price_spec(m, token_in, token_out, m.swap_fee as int)->Ok_0
                &&& tr.2 <= max_price
            },
            Err(_) => true,
        },
{
}

/// What the two spot-price queries return: `NotBound` for an unbound side,
/// otherwise the pricing formula on the two records with the given fee.
pub open spec fn get_spot_price_spec(m: PoolModel, token_in: u64, token_out: u64, fee: int) -> Result<
    int,
    Error,
> {
    if token_index(m.tokens, token_in) < 0 {
        Err(Error::NotBound)
    } else if token_index(m.tokens, token_out) < 0 {
        Err(Error::NotBound)
    } else {
        let ri = m.records[token_index(m.tokens, token_in)];
        let ro = m.records[token_index(m.tokens, token_out)];
        calc_spot_price_spec(ri.balance as int, ri.denorm as int, ro.balance as int, ro.denorm as int, fee)
    }
}

} // verus!

