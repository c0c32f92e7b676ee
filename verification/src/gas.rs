//! Gas accounting: a monotonic cost counter with a fixed budget.
//!
//! Every host operation declares a cost, computed from one of a small set of
//! complexity classes over the sizes of its arguments or result. Charging
//! happens before the dependent work runs (or right after a cheaply measured
//! result); exceeding the budget aborts the invocation deterministically.

use vstd::prelude::*;
use crate::errors::DeterministicHostError;

verus! {

/// Fixed per-call overhead charged by every host operation.
pub const DEFAULT_BASE_COST: u64 = 100_000;

/// Cost charged per byte of measured input or output.
pub const DEFAULT_GAS_PER_BYTE: u64 = 1_000;

/// Flat cost of one blockchain contract call.
pub const ETHEREUM_CALL_COST: u64 = 1_000_000_000;

/// Flat cost of requesting a dynamic data source.
pub const CREATE_DATA_SOURCE_COST: u64 = 1_000_000;

/// Flat cost of one structured log emission.
pub const LOG_COST: u64 = 100_000;

/// The gas budget of one sandbox invocation.
pub const MAX_GAS_PER_HANDLER: u64 = 1_000_000_000_000;

/// A mathematical size clamped into the `u64` gas domain.
pub open spec fn cap64(n: int) -> u64 {
    if n > u64::MAX {
        u64::MAX
    } else if n < 0 {
        0u64
    } else {
        n as u64
    }
}

/// Addition that tops out at `u64::MAX` instead of wrapping.
pub open spec fn spec_sat_add(a: u64, b: u64) -> u64 {
    if a + b > u64::MAX {
        u64::MAX
    } else {
        (a + b) as u64
    }
}

/// Multiplication that tops out at `u64::MAX` instead of wrapping.
pub open spec fn spec_sat_mul(a: u64, b: u64) -> u64 {
    if a * b > u64::MAX {
        u64::MAX
    } else {
        (a * b) as u64
    }
}

/// Saturating exponentiation.
pub open spec fn spec_sat_pow(base: u64, exp: nat) -> u64
    decreases exp,
{
    if exp == 0 {
        1u64
    } else {
        spec_sat_mul(spec_sat_pow(base, (exp - 1) as nat), base)
    }
}

pub fn sat_add(a: u64, b: u64) -> (r: u64)
    ensures
        r == spec_sat_add(a, b),
{
    match a.checked_add(b) {
        Some(v) => v,
        None => u64::MAX,
    }
}

pub fn sat_mul(a: u64, b: u64) -> (r: u64)
    ensures
        r == spec_sat_mul(a, b),
{
    match a.checked_mul(b) {
        Some(v) => v,
        None => u64::MAX,
    }
}

pub fn sat_pow(base: u64, exp: u8) -> (r: u64)
    ensures
        r == spec_sat_pow(base, exp as nat),
{
    let mut r: u64 = 1;
    let mut i: u8 = 0;
    while i < exp
        invariant
            i <= exp,
            r == spec_sat_pow(base, i as nat),
        decreases exp - i,
    {
        r = sat_mul(r, base);
        i = i + 1;
    }
    r
}

/// Constant complexity: the fixed per-call overhead alone.
pub open spec fn spec_gas_const(c: u64) -> u64 {
    c
}

/// Linear (size) complexity: base cost plus the measured size, per byte.
pub open spec fn spec_gas_linear(size: u64) -> u64 {
    spec_sat_add(DEFAULT_BASE_COST, spec_sat_mul(size, DEFAULT_GAS_PER_BYTE))
}

/// Max complexity: linear in the larger of two operand sizes, so padding
/// one operand cannot inflate the price of the other.
pub open spec fn spec_gas_max(s1: u64, s2: u64) -> u64 {
    spec_gas_linear(if s1 >= s2 { s1 } else { s2 })
}

/// Min complexity: linear in the smaller of two operand sizes.
pub open spec fn spec_gas_min(s1: u64, s2: u64) -> u64 {
    spec_gas_linear(if s1 <= s2 { s1 } else { s2 })
}

/// Multiplicative complexity: base cost plus the product of the operand
/// sizes, per byte — the true cost of multiply, divide and modulo.
pub open spec fn spec_gas_mul(s1: u64, s2: u64) -> u64 {
    spec_sat_add(DEFAULT_BASE_COST, spec_sat_mul(spec_sat_mul(s1, s2), DEFAULT_GAS_PER_BYTE))
}

/// Exponential complexity: base cost plus `size` raised to the declared
/// small exponent, per byte — prices big-integer exponentiation.
pub open spec fn spec_gas_exponential(size: u64, exp: nat) -> u64 {
    spec_sat_add(DEFAULT_BASE_COST, spec_sat_mul(spec_sat_pow(size, exp), DEFAULT_GAS_PER_BYTE))
}

pub fn gas_linear(size: u64) -> (r: u64)
    ensures
        r == spec_gas_linear(size),
{
    sat_add(DEFAULT_BASE_COST, sat_mul(size, DEFAULT_GAS_PER_BYTE))
}

pub fn gas_max(s1: u64, s2: u64) -> (r: u64)
    ensures
        r == spec_gas_max(s1, s2),
{
    gas_linear(if s1 >= s2 { s1 } else { s2 })
}

pub fn gas_min(s1: u64, s2: u64) -> (r: u64)
    ensures
        r == spec_gas_min(s1, s2),
{
    gas_linear(if s1 <= s2 { s1 } else { s2 })
}

pub fn gas_mul(s1: u64, s2: u64) -> (r: u64)
    ensures
        r == spec_gas_mul(s1, s2),
{
    sat_add(DEFAULT_BASE_COST, sat_mul(sat_mul(s1, s2), DEFAULT_GAS_PER_BYTE))
}

pub fn gas_exponential(size: u64, exp: u8) -> (r: u64)
    ensures
        r == spec_gas_exponential(size, exp as nat),
{
    sat_add(DEFAULT_BASE_COST, sat_mul(sat_pow(size, exp), DEFAULT_GAS_PER_BYTE))
}

/// One non-negative gas accumulator per sandbox instance, bounded by a
/// fixed budget, strictly increasing and never reset mid-execution.
pub struct GasCounter {
    /// Gas consumed so far.
    pub used: u64,
    /// The fixed budget; once `used` passes it, every further charge fails.
    pub budget: u64,
}

impl GasCounter {
    /// A fresh counter for one sandbox invocation.
    pub fn new(budget: u64) -> (r: GasCounter)
        ensures
            r.used == 0,
            r.budget == budget,
    {
        GasCounter { used: 0, budget }
    }

    /// Charges `cost` gas. The counter always advances (monotonically,
    /// saturating); the charge succeeds exactly when the accumulated total
    /// stays within the budget, and a deterministic budget-exceeded error
    /// is returned otherwise — before the dependent operation runs.
    pub fn consume_host_fn(&mut self, cost: u64) -> (r: Result<(), DeterministicHostError>)
        ensures
            final(self).budget == old(self).budget,
            final(self).used == spec_sat_add(old(self).used, cost),
            r.is_ok() <==> spec_sat_add(old(self).used, cost) <= old(self).budget,
    {
        self.used = sat_add(self.used, cost);
        if self.used <= self.budget {
            Ok(())
        } else {
            Err(DeterministicHostError::new("gas limit exceeded"))
        }
    }
}

} // verus!
