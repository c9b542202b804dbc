//! The bonding-curve math library.
//!
//! Pure functions over fixed-point values expressing the weighted
//! constant-value invariant: spot price, swap conversions in both directions,
//! and the four conversions between a single token amount and liquidity
//! shares.  Each function is pinned to a spec-level mirror built from the
//! mirrors of the arithmetic core.
//!
//! All functions other than [`calc_spot_price`] assume the weights already
//! reflect a validated pool record; any internal arithmetic failure there is
//! a fatal input-validation failure and is reported as the single
//! domain-specific [`Error::InvariantViolation`], never as a partial result.

use vstd::prelude::*;

use crate::c_consts::BONE;
use crate::c_consts::EXIT_FEE;
use crate::c_num::c_add;
use crate::c_num::c_add_spec;
use crate::c_num::c_div;
use crate::c_num::c_div_spec;
use crate::c_num::c_mul;
use crate::c_num::c_mul_spec;
use crate::c_num::c_pow;
use crate::c_num::c_pow_spec;
use crate::c_num::c_sub;
use crate::c_num::c_sub_spec;
use crate::c_num::div_trunc;
use crate::c_num::to_int;
use crate::errors::Error;

verus! {

/// Fold any arithmetic failure into the fatal invariant violation, keeping a
/// successful value as it is.
pub open spec fn iv(r: Result<int, Error>) -> Result<int, Error> {
    match r {
        Ok(v) => Ok(v),
        Err(_) => Err(Error::InvariantViolation),
    }
}

/// What [`calc_spot_price`] returns:
/// `((balance_in / weight_in) / (balance_out / weight_out)) / (1 - fee)`,
/// with every step rounded by the arithmetic core and every arithmetic
/// failure propagated as it is.
pub open spec fn calc_spot_price_spec(
    token_balance_in: int,
    token_weight_in: int,
    token_balance_out: int,
    token_weight_out: int,
    swap_fee: int,
) -> Result<int, Error> {
    match c_div_spec(token_balance_in, token_weight_in) {
        Err(e) => Err(e),
        Ok(numer) => match c_div_spec(token_balance_out, token_weight_out) {
            Err(e) => Err(e),
            Ok(denom) => match c_div_spec(numer, denom) {
                Err(e) => Err(e),
                Ok(ratio) => match c_sub_spec(BONE as int, swap_fee) {
                    Err(e) => Err(e),
                    Ok(fee_comp) => match c_div_spec(BONE as int, fee_comp) {
                        Err(e) => Err(e),
                        Ok(scale) => c_mul_spec(ratio, scale),
                    },
                },
            },
        },
    }
}

/// The spot price for a token pair from its weights and balances, the swap
/// fee included.  It grows as the in-balance grows against the out-balance,
/// and fails on a zero weight by division by zero.
pub fn calc_spot_price(
    token_balance_in: i128,
    token_weight_in: i128,
    token_balance_out: i128,
    token_weight_out: i128,
    swap_fee: i128,
) -> (r: Result<i128, Error>)
    ensures
        to_int(r) == calc_spot_price_spec(
            token_balance_in as int,
            token_weight_in as int,
            token_balance_out as int,
            token_weight_out as int,
            swap_fee as int,
        ),
{
    let numer = match c_div(token_balance_in, token_weight_in) {
        Ok(v) => v,
        Err(e) => return Err(e),
    };
    let denom = match c_div(token_balance_out, token_weight_out) {
        Ok(v) => v,
        Err(e) => return Err(e),
    };
    let ratio = match c_div(numer, denom) {
        Ok(v) => v,
        Err(e) => return Err(e),
    };
    let fee_comp = match c_sub(BONE, swap_fee) {
        Ok(v) => v,
        Err(e) => return Err(e),
    };
    let scale = match c_div(BONE, fee_comp) {
        Ok(v) => v,
        Err(e) => return Err(e),
    };
    c_mul(ratio, scale)
}

/// What [`calc_token_out_given_token_in`] returns:
/// `balance_out * (1 - (balance_in / (balance_in + amount_in * (1 - fee))) ^ (weight_in / weight_out))`,
/// rounded step by step, with any internal failure folded into the fatal
/// invariant violation.
pub open spec fn calc_token_out_given_token_in_spec(
    token_balance_in: int,
    token_weight_in: int,
    token_balance_out: int,
    token_weight_out: int,
    token_amount_in: int,
    swap_fee: int,
) -> Result<int, Error> {
    match iv(c_div_spec(token_weight_in, token_weight_out)) {
        Err(e) => Err(e),
        Ok(weight_ratio) => match iv(c_sub_spec(BONE as int, swap_fee)) {
            Err(e) => Err(e),
            Ok(fee_comp) => match iv(c_mul_spec(token_amount_in, fee_comp)) {
                Err(e) => Err(e),
                Ok(adjusted_in) => match iv(c_add_spec(token_balance_in, adjusted_in)) {
                    Err(e) => Err(e),
                    Ok(grown_in) => match iv(c_div_spec(token_balance_in, grown_in)) {
                        Err(e) => Err(e),
                        Ok(y) => match iv(c_pow_spec(y, weight_ratio)) {
                            Err(e) => Err(e),
                            Ok(foo) => match iv(c_sub_spec(BONE as int, foo)) {
                                Err(e) => Err(e),
                                Ok(bar) => iv(c_mul_spec(token_balance_out, bar)),
                            },
                        },
                    },
                },
            },
        },
    }
}

/// The amount of the out-token a swap pays for a given in-amount: the closed
/// form of the constant-value curve, the fee applied to the input.
pub fn calc_token_out_given_token_in(
    token_balance_in: i128,
    token_weight_in: i128,
    token_balance_out: i128,
    token_weight_out: i128,
    token_amount_in: i128,
    swap_fee: i128,
) -> (r: Result<i128, Error>)
    requires
        token_weight_in > 0,
        token_weight_out > 0,
    ensures
        to_int(r) == calc_token_out_given_token_in_spec(
            token_balance_in as int,
            token_weight_in as int,
            token_balance_out as int,
            token_weight_out as int,
            token_amount_in as int,
            swap_fee as int,
        ),
{
    let weight_ratio = match c_div(token_weight_in, token_weight_out) {
        Ok(v) => v,
        Err(_) => return Err(Error::InvariantViolation),
    };
    proof {
        lemma_ratio_nonneg(token_weight_in as int, token_weight_out as int);
    }
    let fee_comp = match c_sub(BONE, swap_fee) {
        Ok(v) => v,
        Err(_) => return Err(Error::InvariantViolation),
    };
    let adjusted_in = match c_mul(token_amount_in, fee_comp) {
        Ok(v) => v,
        Err(_) => return Err(Error::InvariantViolation),
    };
    let grown_in = match c_add(token_balance_in, adjusted_in) {
        Ok(v) => v,
        Err(_) => return Err(Error::InvariantViolation),
    };
    let y = match c_div(token_balance_in, grown_in) {
        Ok(v) => v,
        Err(_) => return Err(Error::InvariantViolation),
    };
    let foo = match c_pow(y, weight_ratio) {
        Ok(v) => v,
        Err(_) => return Err(Error::InvariantViolation),
    };
    let bar = match c_sub(BONE, foo) {
        Ok(v) => v,
        Err(_) => return Err(Error::InvariantViolation),
    };
    match c_mul(token_balance_out, bar) {
        Ok(v) => Ok(v),
        Err(_) => Err(Error::InvariantViolation),
    }
}

/// What [`calc_token_in_given_token_out`] returns: the inverse of the swap
/// curve, solving for the input that extracts a desired output, the fee
/// applied to the result.
pub open spec fn calc_token_in_given_token_out_spec(
    token_balance_in: int,
    token_weight_in: int,
    token_balance_out: int,
    token_weight_out: int,
    token_amount_out: int,
    swap_fee: int,
) -> Result<int, Error> {
    match iv(c_div_spec(token_weight_out, token_weight_in)) {
        Err(e) => Err(e),
        Ok(weight_ratio) => match iv(c_sub_spec(token_balance_out, token_amount_out)) {
            Err(e) => Err(e),
            Ok(diff) => match iv(c_div_spec(token_balance_out, diff)) {
                Err(e) => Err(e),
                Ok(y) => match iv(c_pow_spec(y, weight_ratio)) {
                    Err(e) => Err(e),
                    Ok(foo) => match iv(c_sub_spec(foo, BONE as int)) {
                        Err(e) => Err(e),
                        Ok(grown) => match iv(c_sub_spec(BONE as int, swap_fee)) {
                            Err(e) => Err(e),
                            Ok(fee_comp) => match iv(c_mul_spec(token_balance_in, grown)) {
                                Err(e) => Err(e),
                                Ok(scaled) => iv(c_div_spec(scaled, fee_comp)),
                            },
                        },
                    },
                },
            },
        },
    }
}

/// The amount of the in-token a swap needs for a desired out-amount.
pub fn calc_token_in_given_token_out(
    token_balance_in: i128,
    token_weight_in: i128,
    token_balance_out: i128,
    token_weight_out: i128,
    token_amount_out: i128,
    swap_fee: i128,
) -> (r: Result<i128, Error>)
    requires
        token_weight_in > 0,
        token_weight_out > 0,
    ensures
        to_int(r) == calc_token_in_given_token_out_spec(
            token_balance_in as int,
            token_weight_in as int,
            token_balance_out as int,
            token_weight_out as int,
            token_amount_out as int,
            swap_fee as int,
        ),
{
    let weight_ratio = match c_div(token_weight_out, token_weight_in) {
        Ok(v) => v,
        Err(_) => return Err(Error::InvariantViolation),
    };
    proof {
        lemma_ratio_nonneg(token_weight_out as int, token_weight_in as int);
    }
    let diff = match c_sub(token_balance_out, token_amount_out) {
        Ok(v) => v,
        Err(_) => return Err(Error::InvariantViolation),
    };
    let y = match c_div(token_balance_out, diff) {
        Ok(v) => v,
        Err(_) => return Err(Error::InvariantViolation),
    };
    let foo = match c_pow(y, weight_ratio) {
        Ok(v) => v,
        Err(_) => return Err(Error::InvariantViolation),
    };
    let grown = match c_sub(foo, BONE) {
        Ok(v) => v,
        Err(_) => return Err(Error::InvariantViolation),
    };
    let fee_comp = match c_sub(BONE, swap_fee) {
        Ok(v) => v,
        Err(_) => return Err(Error::InvariantViolation),
    };
    let scaled = match c_mul(token_balance_in, grown) {
        Ok(v) => v,
        Err(_) => return Err(Error::InvariantViolation),
    };
    match c_div(scaled, fee_comp) {
        Ok(v) => Ok(v),
        Err(_) => Err(Error::InvariantViolation),
    }
}

/// What [`calc_lp_token_amount_given_token_deposits_in`] returns: the pool
/// shares minted for a single-token deposit, an asymmetric-deposit penalty
/// proportional to `(1 - normalized_weight) * fee` applied to the deposit.
pub open spec fn calc_lp_token_amount_given_token_deposits_in_spec(
    token_balance_in: int,
    token_weight_in: int,
    pool_supply: int,
    total_weight: int,
    token_amount_in: int,
    swap_fee: int,
) -> Result<int, Error> {
    match iv(c_div_spec(token_weight_in, total_weight)) {
        Err(e) => Err(e),
        Ok(normalized_weight) => match iv(c_sub_spec(BONE as int, normalized_weight)) {
            Err(e) => Err(e),
            Ok(weight_comp) => match iv(c_mul_spec(weight_comp, swap_fee)) {
                Err(e) => Err(e),
                Ok(zaz) => match iv(c_sub_spec(BONE as int, zaz)) {
                    Err(e) => Err(e),
                    Ok(fee_scale) => match iv(c_mul_spec(token_amount_in, fee_scale)) {
                        Err(e) => Err(e),
                        Ok(amount_after_fee) => match iv(
                            c_add_spec(token_balance_in, amount_after_fee),
                        ) {
                            Err(e) => Err(e),
                            Ok(new_balance_in) => match iv(
                                c_div_spec(new_balance_in, token_balance_in),
                            ) {
                                Err(e) => Err(e),
                                Ok(token_in_ratio) => match iv(
                                    c_pow_spec(token_in_ratio, normalized_weight),
                                ) {
                                    Err(e) => Err(e),
                                    Ok(pool_ratio) => match iv(c_mul_spec(pool_ratio, pool_supply)) {
                                        Err(e) => Err(e),
                                        Ok(new_supply) => iv(c_sub_spec(new_supply, pool_supply)),
                                    },
                                },
                            },
                        },
                    },
                },
            },
        },
    }
}

/// The pool shares minted to a user for a given single-token deposit.
pub fn calc_lp_token_amount_given_token_deposits_in(
    token_balance_in: i128,
    token_weight_in: i128,
    pool_supply: i128,
    total_weight: i128,
    token_amount_in: i128,
    swap_fee: i128,
) -> (r: Result<i128, Error>)
    requires
        token_weight_in > 0,
        total_weight > 0,
    ensures
        to_int(r) == calc_lp_token_amount_given_token_deposits_in_spec(
            token_balance_in as int,
            token_weight_in as int,
            pool_supply as int,
            total_weight as int,
            token_amount_in as int,
            swap_fee as int,
        ),
{
    let normalized_weight = match c_div(token_weight_in, total_weight) {
        Ok(v) => v,
        Err(_) => return Err(Error::InvariantViolation),
    };
    proof {
        lemma_ratio_nonneg(token_weight_in as int, total_weight as int);
    }
    let weight_comp = match c_sub(BONE, normalized_weight) {
        Ok(v) => v,
        Err(_) => return Err(Error::InvariantViolation),
    };
    let zaz = match c_mul(weight_comp, swap_fee) {
        Ok(v) => v,
        Err(_) => return Err(Error::InvariantViolation),
    };
    let fee_scale = match c_sub(BONE, zaz) {
        Ok(v) => v,
        Err(_) => return Err(Error::InvariantViolation),
    };
    let amount_after_fee = match c_mul(token_amount_in, fee_scale) {
        Ok(v) => v,
        Err(_) => return Err(Error::InvariantViolation),
    };
    let new_balance_in = match c_add(token_balance_in, amount_after_fee) {
        Ok(v) => v,
        Err(_) => return Err(Error::InvariantViolation),
    };
    let token_in_ratio = match c_div(new_balance_in, token_balance_in) {
        Ok(v) => v,
        Err(_) => return Err(Error::InvariantViolation),
    };
    let pool_ratio = match c_pow(token_in_ratio, normalized_weight) {
        Ok(v) => v,
        Err(_) => return Err(Error::InvariantViolation),
    };
    let new_supply = match c_mul(pool_ratio, pool_supply) {
        Ok(v) => v,
        Err(_) => return Err(Error::InvariantViolation),
    };
    match c_sub(new_supply, pool_supply) {
        Ok(v) => Ok(v),
        Err(_) => Err(Error::InvariantViolation),
    }
}

/// What [`calc_token_deposits_in_given_lp_token_amount`] returns: the inverse
/// of the deposit conversion, solving for the deposit that mints a desired
/// share amount.
pub open spec fn calc_token_deposits_in_given_lp_token_amount_spec(
    token_balance_in: int,
    token_weight_in: int,
    pool_supply: int,
    total_weight: int,
    pool_amount_out: int,
    swap_fee: int,
) -> Result<int, Error> {
    match iv(c_div_spec(token_weight_in, total_weight)) {
        Err(e) => Err(e),
        Ok(normalized_weight) => match iv(c_add_spec(pool_supply, pool_amount_out)) {
            Err(e) => Err(e),
            Ok(new_supply) => match iv(c_div_spec(new_supply, pool_supply)) {
                Err(e) => Err(e),
                Ok(pool_ratio) => match iv(c_div_spec(BONE as int, normalized_weight)) {
                    Err(e) => Err(e),
                    Ok(weight_inverse) => match iv(c_pow_spec(pool_ratio, weight_inverse)) {
                        Err(e) => Err(e),
                        Ok(token_in_ratio) => match iv(c_mul_spec(token_in_ratio, token_balance_in)) {
                            Err(e) => Err(e),
                            Ok(new_balance_in) => match iv(
                                c_sub_spec(new_balance_in, token_balance_in),
                            ) {
                                Err(e) => Err(e),
                                Ok(amount_after_fee) => match iv(
                                    c_sub_spec(BONE as int, normalized_weight),
                                ) {
                                    Err(e) => Err(e),
                                    Ok(weight_comp) => match iv(c_mul_spec(weight_comp, swap_fee)) {
                                        Err(e) => Err(e),
                                        Ok(zar) => match iv(c_sub_spec(BONE as int, zar)) {
                                            Err(e) => Err(e),
                                            Ok(fee_scale) => iv(
                                                c_div_spec(amount_after_fee, fee_scale),
                                            ),
                                        },
                                    },
                                },
                            },
                        },
                    },
                },
            },
        },
    }
}

/// The single-token deposit needed to mint a desired share amount.
pub fn calc_token_deposits_in_given_lp_token_amount(
    token_balance_in: i128,
    token_weight_in: i128,
    pool_supply: i128,
    total_weight: i128,
    pool_amount_out: i128,
    swap_fee: i128,
) -> (r: Result<i128, Error>)
    requires
        token_weight_in > 0,
        total_weight > 0,
    ensures
        to_int(r) == calc_token_deposits_in_given_lp_token_amount_spec(
            token_balance_in as int,
            token_weight_in as int,
            pool_supply as int,
            total_weight as int,
            pool_amount_out as int,
            swap_fee as int,
        ),
{
    let normalized_weight = match c_div(token_weight_in, total_weight) {
        Ok(v) => v,
        Err(_) => return Err(Error::InvariantViolation),
    };
    proof {
        lemma_ratio_nonneg(token_weight_in as int, total_weight as int);
    }
    let new_supply = match c_add(pool_supply, pool_amount_out) {
        Ok(v) => v,
        Err(_) => return Err(Error::InvariantViolation),
    };
    let pool_ratio = match c_div(new_supply, pool_supply) {
        Ok(v) => v,
        Err(_) => return Err(Error::InvariantViolation),
    };
    let weight_inverse = match c_div(BONE, normalized_weight) {
        Ok(v) => v,
        Err(_) => return Err(Error::InvariantViolation),
    };
    proof {
        lemma_ratio_nonneg(BONE as int, normalized_weight as int);
    }
    let token_in_ratio = match c_pow(pool_ratio, weight_inverse) {
        Ok(v) => v,
        Err(_) => return Err(Error::InvariantViolation),
    };
    let new_balance_in = match c_mul(token_in_ratio, token_balance_in) {
        Ok(v) => v,
        Err(_) => return Err(Error::InvariantViolation),
    };
    let amount_after_fee = match c_sub(new_balance_in, token_balance_in) {
        Ok(v) => v,
        Err(_) => return Err(Error::InvariantViolation),
    };
    let weight_comp = match c_sub(BONE, normalized_weight) {
        Ok(v) => v,
        Err(_) => return Err(Error::InvariantViolation),
    };
    let zar = match c_mul(weight_comp, swap_fee) {
        Ok(v) => v,
        Err(_) => return Err(Error::InvariantViolation),
    };
    let fee_scale = match c_sub(BONE, zar) {
        Ok(v) => v,
        Err(_) => return Err(Error::InvariantViolation),
    };
    match c_div(amount_after_fee, fee_scale) {
        Ok(v) => Ok(v),
        Err(_) => Err(Error::InvariantViolation),
    }
}

/// What [`calc_lp_token_amount_given_token_withdrawal_amount`] returns: the
/// shares to burn for a desired single-token withdrawal, the flat exit fee
/// taken from the share side.
pub open spec fn calc_lp_token_amount_given_token_withdrawal_amount_spec(
    token_balance_out: int,
    token_weight_out: int,
    pool_supply: int,
    total_weight: int,
    token_amount_out: int,
    swap_fee: int,
) -> Result<int, Error> {
    match iv(c_div_spec(token_weight_out, total_weight)) {
        Err(e) => Err(e),
        Ok(normalized_weight) => match iv(c_sub_spec(BONE as int, normalized_weight)) {
            Err(e) => Err(e),
            Ok(weight_comp) => match iv(c_mul_spec(weight_comp, swap_fee)) {
                Err(e) => Err(e),
                Ok(zar) => match iv(c_sub_spec(BONE as int, zar)) {
                    Err(e) => Err(e),
                    Ok(fee_scale) => match iv(c_div_spec(token_amount_out, fee_scale)) {
                        Err(e) => Err(e),
                        Ok(amount_before_fee) => match iv(
                            c_sub_spec(token_balance_out, amount_before_fee),
                        ) {
                            Err(e) => Err(e),
                            Ok(new_balance_out) => match iv(
                                c_div_spec(new_balance_out, token_balance_out),
                            ) {
                                Err(e) => Err(e),
                                Ok(token_out_ratio) => match iv(
                                    c_pow_spec(token_out_ratio, normalized_weight),
                                ) {
                                    Err(e) => Err(e),
                                    Ok(pool_ratio) => match iv(c_mul_spec(pool_ratio, pool_supply)) {
                                        Err(e) => Err(e),
                                        Ok(new_supply) => match iv(
                                            c_sub_spec(pool_supply, new_supply),
                                        ) {
                                            Err(e) => Err(e),
                                            Ok(amount_after_exit_fee) => match iv(
                                                c_sub_spec(BONE as int, EXIT_FEE as int),
                                            ) {
                                                Err(e) => Err(e),
                                                Ok(exit_scale) => iv(
                                                    c_div_spec(amount_after_exit_fee, exit_scale),
                                                ),
                                            },
                                        },
                                    },
                                },
                            },
                        },
                    },
                },
            },
        },
    }
}

/// The pool shares a user must burn for a desired single-token withdrawal.
pub fn calc_lp_token_amount_given_token_withdrawal_amount(
    token_balance_out: i128,
    token_weight_out: i128,
    pool_supply: i128,
    total_weight: i128,
    token_amount_out: i128,
    swap_fee: i128,
) -> (r: Result<i128, Error>)
    requires
        token_weight_out > 0,
        total_weight > 0,
    ensures
        to_int(r) == calc_lp_token_amount_given_token_withdrawal_amount_spec(
            token_balance_out as int,
            token_weight_out as int,
            pool_supply as int,
            total_weight as int,
            token_amount_out as int,
            swap_fee as int,
        ),
{
    let normalized_weight = match c_div(token_weight_out, total_weight) {
        Ok(v) => v,
        Err(_) => return Err(Error::InvariantViolation),
    };
    proof {
        lemma_ratio_nonneg(token_weight_out as int, total_weight as int);
    }
    let weight_comp = match c_sub(BONE, normalized_weight) {
        Ok(v) => v,
        Err(_) => return Err(Error::InvariantViolation),
    };
    let zar = match c_mul(weight_comp, swap_fee) {
        Ok(v) => v,
        Err(_) => return Err(Error::InvariantViolation),
    };
    let fee_scale = match c_sub(BONE, zar) {
        Ok(v) => v,
        Err(_) => return Err(Error::InvariantViolation),
    };
    let amount_before_fee = match c_div(token_amount_out, fee_scale) {
        Ok(v) => v,
        Err(_) => return Err(Error::InvariantViolation),
    };
    let new_balance_out = match c_sub(token_balance_out, amount_before_fee) {
        Ok(v) => v,
        Err(_) => return Err(Error::InvariantViolation),
    };
    let token_out_ratio = match c_div(new_balance_out, token_balance_out) {
        Ok(v) => v,
        Err(_) => return Err(Error::InvariantViolation),
    };
    let pool_ratio = match c_pow(token_out_ratio, normalized_weight) {
        Ok(v) => v,
        Err(_) => return Err(Error::InvariantViolation),
    };
    let new_supply = match c_mul(pool_ratio, pool_supply) {
        Ok(v) => v,
        Err(_) => return Err(Error::InvariantViolation),
    };
    let amount_after_exit_fee = match c_sub(pool_supply, new_supply) {
        Ok(v) => v,
        Err(_) => return Err(Error::InvariantViolation),
    };
    let exit_scale = match c_sub(BONE, EXIT_FEE) {
        Ok(v) => v,
        Err(_) => return Err(Error::InvariantViolation),
    };
    match c_div(amount_after_exit_fee, exit_scale) {
        Ok(v) => Ok(v),
        Err(_) => Err(Error::InvariantViolation),
    }
}

/// What [`calc_token_withdrawal_amount_given_lp_token_amount`] returns: the
/// single-token withdrawal paid for burning a given share amount, the flat
/// exit fee taken from the shares first.
pub open spec fn calc_token_withdrawal_amount_given_lp_token_amount_spec(
    token_balance_out: int,
    token_weight_out: int,
    pool_supply: int,
    total_weight: int,
    pool_amount_in: int,
    swap_fee: int,
) -> Result<int, Error> {
    match iv(c_div_spec(token_weight_out, total_weight)) {
        Err(e) => Err(e),
        Ok(normalized_weight) => match iv(c_sub_spec(BONE as int, EXIT_FEE as int)) {
            Err(e) => Err(e),
            Ok(exit_scale) => match iv(c_mul_spec(pool_amount_in, exit_scale)) {
                Err(e) => Err(e),
                Ok(amount_after_exit_fee) => match iv(c_sub_spec(pool_supply, amount_after_exit_fee)) {
                    Err(e) => Err(e),
                    Ok(new_supply) => match iv(c_div_spec(new_supply, pool_supply)) {
                        Err(e) => Err(e),
                        Ok(pool_ratio) => match iv(c_div_spec(BONE as int, normalized_weight)) {
                            Err(e) => Err(e),
                            Ok(weight_inverse) => match iv(c_pow_spec(pool_ratio, weight_inverse)) {
                                Err(e) => Err(e),
                                Ok(token_out_ratio) => match iv(
                                    c_mul_spec(token_out_ratio, token_balance_out),
                                ) {
                                    Err(e) => Err(e),
                                    Ok(new_balance_out) => match iv(
                                        c_sub_spec(token_balance_out, new_balance_out),
                                    ) {
                                        Err(e) => Err(e),
                                        Ok(amount_before_fee) => match iv(
                                            c_sub_spec(BONE as int, normalized_weight),
                                        ) {
                                            Err(e) => Err(e),
                                            Ok(weight_comp) => match iv(
                                                c_mul_spec(weight_comp, swap_fee),
                                            ) {
                                                Err(e) => Err(e),
                                                Ok(zaz) => match iv(c_sub_spec(BONE as int, zaz)) {
                                                    Err(e) => Err(e),
                                                    Ok(fee_scale) => iv(
                                                        c_mul_spec(amount_before_fee, fee_scale),
                                                    ),
                                                },
                                            },
                                        },
                                    },
                                },
                            },
                        },
                    },
                },
            },
        },
    }
}

/// The single-token withdrawal returned for burning a given share amount.
pub fn calc_token_withdrawal_amount_given_lp_token_amount(
    token_balance_out: i128,
    token_weight_out: i128,
    pool_supply: i128,
    total_weight: i128,
    pool_amount_in: i128,
    swap_fee: i128,
) -> (r: Result<i128, Error>)
    requires
        token_weight_out > 0,
        total_weight > 0,
    ensures
        to_int(r) == calc_token_withdrawal_amount_given_lp_token_amount_spec(
            token_balance_out as int,
            token_weight_out as int,
            pool_supply as int,
            total_weight as int,
            pool_amount_in as int,
            swap_fee as int,
        ),
{
    let normalized_weight = match c_div(token_weight_out, total_weight) {
        Ok(v) => v,
        Err(_) => return Err(Error::InvariantViolation),
    };
    proof {
        lemma_ratio_nonneg(token_weight_out as int, total_weight as int);
    }
    let exit_scale = match c_sub(BONE, EXIT_FEE) {
        Ok(v) => v,
        Err(_) => return Err(Error::InvariantViolation),
    };
    let amount_after_exit_fee = match c_mul(pool_amount_in, exit_scale) {
        Ok(v) => v,
        Err(_) => return Err(Error::InvariantViolation),
    };
    let new_supply = match c_sub(pool_supply, amount_after_exit_fee) {
        Ok(v) => v,
        Err(_) => return Err(Error::InvariantViolation),
    };
    let pool_ratio = match c_div(new_supply, pool_supply) {
        Ok(v) => v,
        Err(_) => return Err(Error::InvariantViolation),
    };
    let weight_inverse = match c_div(BONE, normalized_weight) {
        Ok(v) => v,
        Err(_) => return Err(Error::InvariantViolation),
    };
    proof {
        lemma_ratio_nonneg(BONE as int, normalized_weight as int);
    }
    let token_out_ratio = match c_pow(pool_ratio, weight_inverse) {
        Ok(v) => v,
        Err(_) => return Err(Error::InvariantViolation),
    };
    let new_balance_out = match c_mul(token_out_ratio, token_balance_out) {
        Ok(v) => v,
        Err(_) => return Err(Error::InvariantViolation),
    };
    let amount_before_fee = match c_sub(token_balance_out, new_balance_out) {
        Ok(v) => v,
        Err(_) => return Err(Error::InvariantViolation),
    };
    let weight_comp = match c_sub(BONE, normalized_weight) {
        Ok(v) => v,
        Err(_) => return Err(Error::InvariantViolation),
    };
    let zaz = match c_mul(weight_comp, swap_fee) {
        Ok(v) => v,
        Err(_) => return Err(Error::InvariantViolation),
    };
    let fee_scale = match c_sub(BONE, zaz) {
        Ok(v) => v,
        Err(_) => return Err(Error::InvariantViolation),
    };
    match c_mul(amount_before_fee, fee_scale) {
        Ok(v) => Ok(v),
        Err(_) => Err(Error::InvariantViolation),
    }
}

/// A successful fixed-point division of nonnegative by positive is
/// nonnegative: the sign fact the power calls above need for their exponents.
proof fn lemma_ratio_nonneg(a: int, b: int)
    requires
        a >= 0,
        b > 0,
    ensures
        c_div_spec(a, b) is Ok ==> c_div_spec(a, b)->Ok_0 >= 0,
{
    if c_div_spec(a, b) is Ok {
        let num = a * BONE + div_trunc(b, 2);
        assert(a * BONE >= 0) by (nonlinear_arith)
            requires
                a >= 0,
        ;
        assert(div_trunc(b, 2) >= 0);
        assert(num / b >= 0) by (nonlinear_arith)
            requires
                num >= 0,
                b > 0,
        ;
    }
}

} // verus!

