//! The error taxonomy: arithmetic failures, invariant violations,
//! authorization failures and state failures.  Every fallible operation of the
//! crate reports one of these variants; no verified function panics.

use vstd::prelude::*;

verus! {

/// Why an operation was refused.  Arithmetic variants come from the
/// fixed-point core; the pricing functions fold any internal arithmetic
/// failure into [`Error::InvariantViolation`]; the remaining variants come
/// from the pool state machine.
#[derive(Clone, Copy, Debug, PartialEq, Eq, Structural)]
pub enum Error {
    /// Signed addition left the representable range.
    AddOverflow,
    /// Subtraction of a negative operand left the representable range upward.
    SubOverflow,
    /// Subtraction left the representable range, not upward as above.
    SubUnderflow,
    /// Fixed-point multiplication overflowed, at the product or at rounding.
    MulOverflow,
    /// Division by zero.
    DivByZero,
    /// Fixed-point division overflowed while scaling or rounding.
    DivInternal,
    /// Power base below [`crate::c_consts::MIN_CPOW_BASE`].
    PowBaseTooLow,
    /// Power base above [`crate::c_consts::MAX_CPOW_BASE`].
    PowBaseTooHigh,
    /// An arithmetic step failed inside a pricing function whose inputs a
    /// well-formed bound pool should never produce.
    InvariantViolation,
    /// The pool is already finalized.
    AlreadyFinalized,
    /// The pool is not finalized yet.
    NotFinalized,
    /// The token is already bound.
    AlreadyBound,
    /// The token is not bound.
    NotBound,
    /// Binding one more token would exceed the token capacity.
    MaxTokens,
    /// Too few tokens are bound to finalize the pool.
    MinTokens,
    /// The caller is not the controller.
    Unauthorized,
    /// Weight below [`crate::c_consts::MIN_WEIGHT`].
    MinWeight,
    /// Weight above [`crate::c_consts::MAX_WEIGHT`].
    MaxWeight,
    /// Balance below [`crate::c_consts::MIN_BALANCE`].
    MinBalance,
    /// Total weight above [`crate::c_consts::MAX_TOTAL_WEIGHT`].
    MaxTotalWeight,
    /// Fee below [`crate::c_consts::MIN_FEE`].
    MinFee,
    /// Fee above [`crate::c_consts::MAX_FEE`].
    MaxFee,
    /// A computed ratio or amount rounded to zero.
    MathApprox,
    /// An input amount exceeded the caller's stated limit.
    LimitIn,
    /// An output amount fell short of the caller's stated limit.
    LimitOut,
    /// An input amount exceeded the in-ratio cap.
    MaxInRatio,
    /// An output amount exceeded the out-ratio cap.
    MaxOutRatio,
    /// The spot price already exceeded the caller's price bound.
    BadLimitPrice,
    /// The spot price after the swap exceeded the caller's price bound.
    LimitPrice,
    /// Swapping is not public on this pool.
    SwapNotPublic,
    /// A token amount was negative.
    NegativeAmount,
}

impl Error {
    /// What [`Error::msg`] returns for each variant.
    pub open spec fn msg_spec(&self) -> Seq<char> {
        match self {
            Error::AddOverflow => "ERR_ADD_OVERFLOW"@,
            Error::SubOverflow => "ERR_SUB_OVERFLOW"@,
            Error::SubUnderflow => "ERR_SUB_UNDERFLOW"@,
            Error::MulOverflow => "ERR_MUL_OVERFLOW"@,
            Error::DivByZero => "ERR_DIV_ZERO"@,
            Error::DivInternal => "ERR_DIV_INTERNAL"@,
            Error::PowBaseTooLow => "ERR_CPOW_BASE_TOO_LOW"@,
            Error::PowBaseTooHigh => "ERR_CPOW_BASE_TOO_HIGH"@,
            Error::InvariantViolation => "ERR_INVARIANT_VIOLATION"@,
            Error::AlreadyFinalized => "ERR_FINALIZED"@,
            Error::NotFinalized => "ERR_NOT_FINALIZED"@,
            Error::AlreadyBound => "ERR_IS_BOUND"@,
            Error::NotBound => "ERR_NOT_BOUND"@,
            Error::MaxTokens => "ERR_MAX_TOKENS"@,
            Error::MinTokens => "ERR_MIN_TOKENS"@,
            Error::Unauthorized => "ERR_NOT_CONTROLLER"@,
            Error::MinWeight => "ERR_MIN_WEIGHT"@,
            Error::MaxWeight => "ERR_MAX_WEIGHT"@,
            Error::MinBalance => "ERR_MIN_BALANCE"@,
            Error::MaxTotalWeight => "ERR_MAX_TOTAL_WEIGHT"@,
            Error::MinFee => "ERR_MIN_FEE"@,
            Error::MaxFee => "ERR_MAX_FEE"@,
            Error::MathApprox => "ERR_MATH_APPROX"@,
            Error::LimitIn => "ERR_LIMIT_IN"@,
            Error::LimitOut => "ERR_LIMIT_OUT"@,
            Error::MaxInRatio => "ERR_MAX_IN_RATIO"@,
            Error::MaxOutRatio => "ERR_MAX_OUT_RATIO"@,
            Error::BadLimitPrice => "ERR_BAD_LIMIT_PRICE"@,
            Error::LimitPrice => "ERR_LIMIT_PRICE"@,
            Error::SwapNotPublic => "ERR_SWAP_NOT_PUBLIC"@,
            Error::NegativeAmount => "ERR_NEGATIVE_AMOUNT"@,
        }
    }

    /// The error code as the short diagnostic string it is reported under.
    pub fn msg(&self) -> (r: &'static str)
        ensures
            r@ == self.msg_spec(),
    {
        match self {
            Error::AddOverflow => "ERR_ADD_OVERFLOW",
            Error::SubOverflow => "ERR_SUB_OVERFLOW",
            Error::SubUnderflow => "ERR_SUB_UNDERFLOW",
            Error::MulOverflow => "ERR_MUL_OVERFLOW",
            Error::DivByZero => "ERR_DIV_ZERO",
            Error::DivInternal => "ERR_DIV_INTERNAL",
            Error::PowBaseTooLow => "ERR_CPOW_BASE_TOO_LOW",
            Error::PowBaseTooHigh => "ERR_CPOW_BASE_TOO_HIGH",
            Error::InvariantViolation => "ERR_INVARIANT_VIOLATION",
            Error::AlreadyFinalized => "ERR_FINALIZED",
            Error::NotFinalized => "ERR_NOT_FINALIZED",
            Error::AlreadyBound => "ERR_IS_BOUND",
            Error::NotBound => "ERR_NOT_BOUND",
            Error::MaxTokens => "ERR_MAX_TOKENS",
            Error::MinTokens => "ERR_MIN_TOKENS",
            Error::Unauthorized => "ERR_NOT_CONTROLLER",
            Error::MinWeight => "ERR_MIN_WEIGHT",
            Error::MaxWeight => "ERR_MAX_WEIGHT",
            Error::MinBalance => "ERR_MIN_BALANCE",
            Error::MaxTotalWeight => "ERR_MAX_TOTAL_WEIGHT",
            Error::MinFee => "ERR_MIN_FEE",
            Error::MaxFee => "ERR_MAX_FEE",
            Error::MathApprox => "ERR_MATH_APPROX",
            Error::LimitIn => "ERR_LIMIT_IN",
            Error::LimitOut => "ERR_LIMIT_OUT",
            Error::MaxInRatio => "ERR_MAX_IN_RATIO",
            Error::MaxOutRatio => "ERR_MAX_OUT_RATIO",
            Error::BadLimitPrice => "ERR_BAD_LIMIT_PRICE",
            Error::LimitPrice => "ERR_LIMIT_PRICE",
            Error::SwapNotPublic => "ERR_SWAP_NOT_PUBLIC",
            Error::NegativeAmount => "ERR_NEGATIVE_AMOUNT",
        }
    }
}

} // verus!
