//! Fixed-point ratios with 18 decimal places, held as their atomic units.
use vstd::prelude::*;

verus! {

/// Atomic units in one whole: a ratio `x` is held as `x * 10^18`.
pub const DECIMAL_FRACTIONAL: u128 = 1_000_000_000_000_000_000;

/// Atomic units of `n / d`, rounded down.
pub open spec fn ratio_spec(n: u128, d: u128) -> int {
    (n * DECIMAL_FRACTIONAL) as int / d as int
}

/// What `cosmwasm_std::Decimal::from_str` reads from a text, as atomic
/// units, or `None` where it refuses the text.
pub uninterp spec fn decimal_atomics(s: Seq<char>) -> Option<u128>;

/// Relies on `cosmwasm_std::Decimal::checked_from_ratio` and
/// `Decimal::atomics`: the ratio is `n * 10^18 / d` rounded down, computed
/// without overflow, and refused only where it exceeds `u128`.
#[verifier::external_body]
pub(crate) fn ratio_atomics(n: u128, d: u128) -> (r: Option<u128>)
    requires
        d > 0,
    ensures
        r.is_some() <==> ratio_spec(n, d) <= u128::MAX,
        r.is_some() ==> r.unwrap() == ratio_spec(n, d),
{
    match cosmwasm_std::Decimal::checked_from_ratio(n, d) {
        Ok(v) => Some(v.atomics().u128()),
        Err(_) => None,
    }
}

/// Relies on `cosmwasm_std::Decimal::from_str` and `Decimal::atomics`: the
/// decimal that a text denotes, which depends on the text alone.
#[verifier::external_body]
pub(crate) fn parse_decimal(s: &str) -> (r: Option<u128>)
    ensures
        r == decimal_atomics(s@),
{
    match <cosmwasm_std::Decimal as std::str::FromStr>::from_str(s) {
        Ok(v) => Some(v.atomics().u128()),
        Err(_) => None,
    }
}

} // verus!
