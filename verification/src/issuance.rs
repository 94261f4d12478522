//! The deterministic token-amount formula.
//!
//! `amount = alpha · dollar_rate · time_bonus(duration) · value · 10`, all in
//! integer arithmetic with every multiplication before the one division (the
//! alpha ratio). Overflow is a fatal computation error, never wrapped.

use vstd::prelude::*;

use crate::types::LockdropError;

verus! {

/// One day in seconds.
pub const DAY_SECS: u64 = 24 * 60 * 60;

/// Denominator of the alpha ratio: alpha is counted in parts per billion.
pub const ALPHA_ACCURACY: u32 = 1_000_000_000;

/// The alpha parameter: a fraction in [0, 1], counted in parts per billion.
#[derive(Clone, Copy, PartialEq, Eq, Structural, Debug)]
pub struct Alpha {
    pub parts: u32,
}

impl Alpha {
    /// A well-formed alpha never exceeds one.
    pub open spec fn wf(self) -> bool {
        self.parts <= ALPHA_ACCURACY
    }
}

/// `alpha · rate`, rounded down: multiply first, divide by the accuracy once.
pub open spec fn spec_alpha_rate(parts: u32, rate: u64) -> int {
    (rate * parts) / (ALPHA_ACCURACY as int)
}

/// The lockdrop bonus as a step function of the locking duration in seconds:
/// under 30 days the lock is ineligible, then 24 up to 100 days, 100 up to
/// 300 days, 360 up to 1000 days, and 1600 from 1000 days on.
pub open spec fn spec_time_bonus(duration_sec: u64) -> u16 {
    if duration_sec < 30 * DAY_SECS {
        0u16
    } else if duration_sec < 100 * DAY_SECS {
        24u16
    } else if duration_sec < 300 * DAY_SECS {
        100u16
    } else if duration_sec < 1000 * DAY_SECS {
        360u16
    } else {
        1600u16
    }
}

/// The issued amount as an unbounded integer:
/// `(alpha · rate) · bonus · value · 10`.
pub open spec fn spec_issue_amount(parts: u32, rate: u64, bonus: u16, value: u128) -> int {
    spec_alpha_rate(parts, rate) * bonus * value * 10
}

/// Lockdrop bonus for a locking duration in seconds.
pub fn time_bonus(duration_sec: u64) -> (r: u16)
    ensures
        r == spec_time_bonus(duration_sec),
{
    if duration_sec < 30 * DAY_SECS {
        0
    } else if duration_sec < 100 * DAY_SECS {
        24
    } else if duration_sec < 300 * DAY_SECS {
        100
    } else if duration_sec < 1000 * DAY_SECS {
        360
    } else {
        1600
    }
}

/// Issue amount for the given alpha, dollar rate, bonus and value. Returns
/// the exact formula value whenever it fits the balance type, and reports
/// overflow otherwise.
pub fn issue_amount(alpha: Alpha, rate: u64, bonus: u16, value: u128) -> (r: Result<
    u128,
    LockdropError,
>)
    requires
        alpha.wf(),
    ensures
        match r {
            Ok(amount) => amount == spec_issue_amount(alpha.parts, rate, bonus, value),
            Err(e) => e == LockdropError::Overflow && spec_issue_amount(
                alpha.parts,
                rate,
                bonus,
                value,
            ) > u128::MAX,
        },
{
    proof {
        assert(rate * alpha.parts <= 0xffff_ffff_ffff_ffff * 0xffff_ffff) by (nonlinear_arith)
            requires
                0 <= rate <= 0xffff_ffff_ffff_ffff,
                0 <= alpha.parts <= 0xffff_ffff,
        ;
    }
    let scaled: u128 = (rate as u128) * (alpha.parts as u128) / (ALPHA_ACCURACY as u128);
    proof {
        assert(rate * alpha.parts <= rate * ALPHA_ACCURACY) by (nonlinear_arith)
            requires
                alpha.parts <= ALPHA_ACCURACY,
                0 <= rate,
        ;
        assert((rate * ALPHA_ACCURACY) / (ALPHA_ACCURACY as int) == rate) by (nonlinear_arith)
            requires
                ALPHA_ACCURACY > 0,
                0 <= rate,
        ;
        assert((rate * alpha.parts) / (ALPHA_ACCURACY as int) <= (rate * ALPHA_ACCURACY) / (
        ALPHA_ACCURACY as int)) by (nonlinear_arith)
            requires
                rate * alpha.parts <= rate * ALPHA_ACCURACY,
                ALPHA_ACCURACY > 0,
        ;
        assert(scaled <= rate);
        assert(scaled * bonus <= 0xffff_ffff_ffff_ffff * 0xffff) by (nonlinear_arith)
            requires
                scaled <= 0xffff_ffff_ffff_ffff,
                bonus <= 0xffff,
                0 <= scaled,
                0 <= bonus,
        ;
    }
    let with_bonus: u128 = scaled * (bonus as u128);
    let with_value: u128 = match with_bonus.checked_mul(value) {
        Some(v) => v,
        None => {
            proof {
                assert(with_bonus * value * 10 >= with_bonus * value) by (nonlinear_arith)
                    requires
                        0 <= with_bonus * value,
                ;
            }
            return Err(LockdropError::Overflow);
        },
    };
    match with_value.checked_mul(10) {
        Some(v) => Ok(v),
        None => Err(LockdropError::Overflow),
    }
}

} // verus!
