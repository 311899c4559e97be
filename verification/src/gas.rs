//! Dual-unit gas model.
//!
//! The host environment meters resources in its own gas currency ("host
//! units"); the embedded interpreter charges bytecode in its own units
//! ("interpreter units").  A fixed conversion factor says how many host
//! units equal one interpreter unit.  Runtime charging always happens in
//! interpreter units with the closed-form base-plus-marginal cost
//! function; the host-unit side exists only for cross-checking and
//! calibration.  All arithmetic is unsigned; an overflow is a fault,
//! never a wraparound.

use vstd::prelude::*;
use vstd::arithmetic::div_mod::lemma_div_multiples_vanish;
use vstd::arithmetic::mul::lemma_mul_inequality;
use vstd::arithmetic::mul::lemma_mul_is_distributive_sub_other_way;

verus! {

/// Interpreter-unit gas always charged for a promise-result call.
pub const PROMISE_RESULT_BASE_COST: u64 = 111;

/// Interpreter-unit gas charged per byte of encoded outcome data.
pub const PROMISE_RESULT_BYTE_COST: u64 = 2;

/// Host gas units per interpreter gas unit.
pub const NEAR_GAS_PER_EVM: u64 = 175_000_000;

/// A fault that aborts the current call frame.
#[derive(Clone, Copy, Debug, PartialEq, Eq, Structural)]
pub enum Fault {
    /// The call frame's remaining gas is below the computed cost.
    OutOfGas,
    /// Cost arithmetic would exceed the representable range.
    Overflow,
}

/// The environment-calibrated constants of the cost model, fixed at build
/// time and injected into the handler at construction.
#[derive(Clone, Copy, Debug, PartialEq, Eq, Structural)]
pub struct GasModel {
    /// Interpreter-unit cost charged on every call.
    pub base_cost: u64,
    /// Interpreter-unit cost charged per byte of encoded outcome data.
    pub byte_cost: u64,
    /// Host gas units per interpreter gas unit; always positive.
    pub conversion_factor: u64,
}

impl Default for GasModel {
    /// The build-time constants of the promise-result handler.
    fn default() -> (r: GasModel)
        ensures
            r == (GasModel {
                base_cost: PROMISE_RESULT_BASE_COST,
                byte_cost: PROMISE_RESULT_BYTE_COST,
                conversion_factor: NEAR_GAS_PER_EVM,
            }),
            r.wf(),
    {
        GasModel {
            base_cost: PROMISE_RESULT_BASE_COST,
            byte_cost: PROMISE_RESULT_BYTE_COST,
            conversion_factor: NEAR_GAS_PER_EVM,
        }
    }
}

impl GasModel {
    /// The conversion factor is a positive integer.
    pub open spec fn wf(self) -> bool {
        self.conversion_factor >= 1
    }

    /// The closed-form cost, in interpreter units, of returning `len`
    /// bytes of encoded outcome data: base plus marginal.
    pub open spec fn spec_cost(self, len: nat) -> int {
        self.base_cost + self.byte_cost * len
    }

    /// Computes the interpreter-unit cost for `len` bytes of encoded
    /// outcome data; an overflow of the cost arithmetic is a fault.
    pub fn cost_of_len(&self, len: u64) -> (r: Result<u64, Fault>)
        ensures
            r is Ok <==> self.spec_cost(len as nat) <= u64::MAX,
            r matches Ok(c) ==> c == self.spec_cost(len as nat),
            r is Err ==> r == Result::<u64, Fault>::Err(Fault::Overflow),
    {
        match self.byte_cost.checked_mul(len) {
            Some(marginal) => match self.base_cost.checked_add(marginal) {
                Some(total) => Ok(total),
                None => Err(Fault::Overflow),
            },
            None => Err(Fault::Overflow),
        }
    }

    /// Converts interpreter units to host units; used only for
    /// cross-checking and calibration, never for runtime charging.
    pub fn to_host_units(&self, interpreter_units: u64) -> (r: Result<u64, Fault>)
        ensures
            r is Ok <==> interpreter_units * self.conversion_factor <= u64::MAX,
            r matches Ok(h) ==> h == interpreter_units * self.conversion_factor,
            r is Err ==> r == Result::<u64, Fault>::Err(Fault::Overflow),
    {
        match interpreter_units.checked_mul(self.conversion_factor) {
            Some(host) => Ok(host),
            None => Err(Fault::Overflow),
        }
    }

    /// Converts host units back to interpreter units with floor
    /// (truncating) division; used when comparing host-measured costs
    /// against the model.
    pub fn from_host_units(&self, host_units: u64) -> (r: u64)
        requires
            self.wf(),
        ensures
            r == host_units as int / self.conversion_factor as int,
    {
        host_units / self.conversion_factor
    }

    /// Host-to-interpreter conversion inverts interpreter-to-host
    /// conversion exactly.
    pub proof fn lemma_unit_conversion_round_trip(self, interpreter_units: u64)
        requires
            self.wf(),
        ensures
            (interpreter_units * self.conversion_factor) / self.conversion_factor as int
                == interpreter_units,
    {
        lemma_div_multiples_vanish(interpreter_units as int, self.conversion_factor as int);
        vstd::arithmetic::mul::lemma_mul_is_commutative(
            interpreter_units as int,
            self.conversion_factor as int,
        );
    }
}

/// Linearity: between any two encoded lengths the marginal cost per byte
/// is exactly the per-byte constant, and subtracting the marginal part
/// recovers exactly the base constant.  A differential measurement of an
/// exact model therefore infers the coded constants with zero deviation,
/// well within any calibration tolerance.
pub proof fn lemma_cost_linearity(m: GasModel, x1: nat, x2: nat)
    requires
        x1 < x2,
    ensures
        (m.spec_cost(x2) - m.spec_cost(x1)) / (x2 - x1) == m.byte_cost,
        m.spec_cost(x1) - m.byte_cost * x1 == m.base_cost,
{
    assert(m.spec_cost(x2) - m.spec_cost(x1) == (x2 - x1) * m.byte_cost) by {
        lemma_mul_is_distributive_sub_other_way(m.byte_cost as int, x2 as int, x1 as int);
    }
    lemma_div_multiples_vanish(m.byte_cost as int, x2 - x1);
}

/// Monotonicity: the cost is non-decreasing in the encoded length.
pub proof fn lemma_cost_monotonic(m: GasModel, x1: nat, x2: nat)
    requires
        x1 <= x2,
    ensures
        m.spec_cost(x1) <= m.spec_cost(x2),
{
    lemma_mul_inequality(x1 as int, x2 as int, m.byte_cost as int);
    vstd::arithmetic::mul::lemma_mul_is_commutative(x1 as int, m.byte_cost as int);
    vstd::arithmetic::mul::lemma_mul_is_commutative(x2 as int, m.byte_cost as int);
}

/// Zero case: a zero encoded length costs exactly the base constant.
pub proof fn lemma_cost_zero_case(m: GasModel)
    ensures
        m.spec_cost(0) == m.base_cost,
{
}

} // verus!
