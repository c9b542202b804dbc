//! A weighted constant-value automated market maker.
//!
//! The pool holds up to a small number of tokens, each with a denormalized
//! weight, and prices trades, deposits and withdrawals with a bonding-curve
//! invariant over a shared fixed-point representation.  The arithmetic core
//! lives in [`c_num`], the pure pricing functions in [`c_math`], and the pool
//! state machine in [`c_pool`].

pub mod c_consts;
pub mod c_math;
pub mod c_num;
pub mod c_pool;
pub mod errors;
