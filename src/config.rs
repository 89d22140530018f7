use vstd::prelude::*;

use crate::game::{DEFAULT_DIGITS, DEFAULT_MAX_AMOUNT};
use crate::limit::LimitMode;

verus! {

/// Settings a round starts with.
#[derive(Clone, Copy, Debug, PartialEq, Eq, Structural)]
pub struct InitConfig {
    pub mode: LimitMode,
    pub digits: u8,
    pub max_amount: u64,
}

impl Default for InitConfig {
    fn default() -> (r: InitConfig)
        ensures
            r == (InitConfig {
                mode: LimitMode::ByDigits,
                digits: DEFAULT_DIGITS,
                max_amount: DEFAULT_MAX_AMOUNT,
            }),
    {
        InitConfig { mode: LimitMode::ByDigits, digits: DEFAULT_DIGITS, max_amount: DEFAULT_MAX_AMOUNT }
    }
}

/// A digit count read as any integer, brought into `1..=9`.
pub open spec fn clamp_query_digits(d: i64) -> u8 {
    if d < 1 {
        1
    } else if d > 9 {
        9
    } else {
        d as u8
    }
}

/// A maximum amount read as any integer, raised to at least one (and held
/// to what a `u64` carries).
pub open spec fn floor_query_max(m: i128) -> u64 {
    if m < 1 {
        1
    } else if m > u64::MAX as i128 {
        u64::MAX
    } else {
        m as u64
    }
}

/// The starting settings from the two optional query values: a digit count
/// wins over a maximum amount; with neither, the defaults.
pub fn initial_config(digits: Option<i64>, max: Option<i128>) -> (r: InitConfig)
    ensures
        r == match (digits, max) {
            (Some(d), _) => InitConfig {
                mode: LimitMode::ByDigits,
                digits: clamp_query_digits(d),
                max_amount: DEFAULT_MAX_AMOUNT,
            },
            (None, Some(m)) => InitConfig {
                mode: LimitMode::ByMaxAmount,
                digits: DEFAULT_DIGITS,
                max_amount: floor_query_max(m),
            },
            (None, None) => InitConfig {
                mode: LimitMode::ByDigits,
                digits: DEFAULT_DIGITS,
                max_amount: DEFAULT_MAX_AMOUNT,
            },
        },
{
    match digits {
        Some(d) => InitConfig {
            mode: LimitMode::ByDigits,
            digits: if d < 1 {
                1
            } else if d > 9 {
                9
            } else {
                d as u8
            },
            max_amount: DEFAULT_MAX_AMOUNT,
        },
        None => match max {
            Some(m) => InitConfig {
                mode: LimitMode::ByMaxAmount,
                digits: DEFAULT_DIGITS,
                max_amount: if m < 1 {
                    1
                } else if m > u64::MAX as i128 {
                    u64::MAX
                } else {
                    m as u64
                },
            },
            None => InitConfig::default(),
        },
    }
}

/// The key that the query string carries for the active mode.
#[derive(Clone, Copy, Debug, PartialEq, Eq, Structural)]
pub enum QueryKey {
    Digits,
    Max,
}

impl QueryKey {
    /// The key's text in the query string.
    pub fn name(&self) -> (r: &'static str)
        ensures
            *self == QueryKey::Digits ==> r@ == "digits"@,
            *self == QueryKey::Max ==> r@ == "max"@,
    {
        match self {
            QueryKey::Digits => "digits",
            QueryKey::Max => "max",
        }
    }
}

/// The one query entry that echoes the settings: the digit count under
/// `ByDigits`, the maximum amount under `ByMaxAmount`.
pub fn query_entry(mode: LimitMode, digits: u8, max_amount: u64) -> (r: (QueryKey, u64))
    ensures
        mode == LimitMode::ByDigits ==> r == (QueryKey::Digits, digits as u64),
        mode == LimitMode::ByMaxAmount ==> r == (QueryKey::Max, max_amount),
{
    match mode {
        LimitMode::ByDigits => (QueryKey::Digits, digits as u64),
        LimitMode::ByMaxAmount => (QueryKey::Max, max_amount),
    }
}

} // verus!
