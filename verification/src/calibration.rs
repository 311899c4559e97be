//! Calibration oracle arithmetic.
//!
//! The model's constants are fixed at build time; their correctness is
//! established by a differential measurement procedure that runs the
//! handler on two contexts, subtracts a baseline, and infers the base and
//! per-byte coefficients from the two (encoded length, host-unit cost)
//! observations.  Measurement itself happens outside the runtime; this
//! module holds the inference and acceptance arithmetic it is defined by:
//! floor division throughout, and a bounded-percentage tolerance rather
//! than exact equality, because host-side overhead contributes noise.
//! [`lemma_exact_measurements_recover_constants`] shows the procedure is
//! sound: on noise-free measurements of the model itself it returns the
//! coded constants exactly.

use vstd::prelude::*;
use vstd::arithmetic::div_mod::lemma_div_multiples_vanish;
use vstd::arithmetic::mul::lemma_mul_is_distributive_add_other_way;
use vstd::arithmetic::mul::lemma_mul_is_distributive_sub;
use vstd::arithmetic::mul::lemma_mul_is_distributive_sub_other_way;
use crate::gas::GasModel;

verus! {

/// Whether `actual` deviates from `expected` by at most `tolerance`
/// percent of `expected`.
pub open spec fn spec_within_percent(tolerance: int, actual: int, expected: int) -> bool {
    (if actual >= expected {
        actual - expected
    } else {
        expected - actual
    }) * 100 <= tolerance * expected
}

/// Acceptance check of the calibration oracle: the measured value is
/// within `tolerance` percent of the expected value.
pub fn within_x_percent(tolerance: u64, actual: u64, expected: u64) -> (r: bool)
    ensures
        r <==> spec_within_percent(tolerance as int, actual as int, expected as int),
{
    let diff: u64 = if actual >= expected {
        actual - expected
    } else {
        expected - actual
    };
    proof {
        assert((tolerance as u128) * (expected as u128) == tolerance * expected
            && tolerance * expected <= u128::MAX) by (nonlinear_arith)
            requires
                tolerance <= u64::MAX,
                expected <= u64::MAX,
        ;
    }
    (diff as u128) * 100 <= (tolerance as u128) * (expected as u128)
}

/// One differential observation: the serialized length of the outcome
/// data of a context, and the measured host-unit cost of the handler call
/// on that context (baseline already subtracted).
#[derive(Clone, Copy, Debug, PartialEq, Eq, Structural)]
pub struct CalibrationSample {
    /// Byte length of the encoded outcome data.
    pub encoded_len: u64,
    /// Measured cost in host gas units.
    pub host_cost: u64,
}

/// The coefficients a differential measurement infers, converted back to
/// interpreter units.
#[derive(Clone, Copy, Debug, PartialEq, Eq, Structural)]
pub struct InferredCoefficients {
    /// Inferred base cost, in interpreter units.
    pub base_cost: u64,
    /// Inferred per-byte cost, in interpreter units.
    pub byte_cost: u64,
}

/// The host-unit marginal cost per byte between two observations, with
/// floor division.
pub open spec fn spec_marginal_host(s1: CalibrationSample, s2: CalibrationSample) -> int {
    (s2.host_cost - s1.host_cost) / (s2.encoded_len - s1.encoded_len)
}

/// The host-unit base cost inferred from the first observation after
/// removing the marginal part.
pub open spec fn spec_base_host(s1: CalibrationSample, s2: CalibrationSample) -> int {
    s1.host_cost - spec_marginal_host(s1, s2) * s1.encoded_len
}

/// What the inference procedure returns: interpreter-unit coefficients by
/// floor division through the conversion factor, or nothing when the
/// observations are unusable (lengths not increasing, cost decreasing, or
/// a negative inferred base).
pub open spec fn spec_infer(
    s1: CalibrationSample,
    s2: CalibrationSample,
    conversion_factor: int,
) -> Option<(int, int)> {
    if s1.encoded_len < s2.encoded_len && s1.host_cost <= s2.host_cost && spec_base_host(s1, s2)
        >= 0 {
        Some(
            (
                spec_base_host(s1, s2) / conversion_factor,
                spec_marginal_host(s1, s2) / conversion_factor,
            ),
        )
    } else {
        None
    }
}

/// Infers the model coefficients from two observations, as the
/// differential measurement procedure defines them: host-unit marginal
/// cost by floor division over the length difference, host-unit base by
/// removing the marginal part from the first observation, both converted
/// to interpreter units by floor division through the conversion factor.
pub fn infer_coefficients(
    s1: CalibrationSample,
    s2: CalibrationSample,
    conversion_factor: u64,
) -> (r: Option<InferredCoefficients>)
    requires
        conversion_factor >= 1,
    ensures
        r is Some <==> spec_infer(s1, s2, conversion_factor as int) is Some,
        r matches Some(c) ==> spec_infer(s1, s2, conversion_factor as int) == Some(
            (c.base_cost as int, c.byte_cost as int),
        ),
{
    if s1.encoded_len >= s2.encoded_len {
        return None;
    }
    if s1.host_cost > s2.host_cost {
        return None;
    }
    let dx = s2.encoded_len - s1.encoded_len;
    let dy = s2.host_cost - s1.host_cost;
    let marginal_host = dy / dx;
    proof {
        assert((marginal_host as u128) * (s1.encoded_len as u128) == (marginal_host as int) * (
        s1.encoded_len as int) && (marginal_host as int) * (s1.encoded_len as int) <= u128::MAX)
            by (nonlinear_arith)
            requires
                marginal_host <= u64::MAX,
                s1.encoded_len <= u64::MAX,
        ;
    }
    let marginal_part = (marginal_host as u128) * (s1.encoded_len as u128);
    if marginal_part > s1.host_cost as u128 {
        return None;
    }
    let base_host = s1.host_cost - (marginal_part as u64);
    Some(
        InferredCoefficients {
            base_cost: base_host / conversion_factor,
            byte_cost: marginal_host / conversion_factor,
        },
    )
}

/// Runs the whole acceptance test of the calibration oracle: infers the
/// coefficients from the two observations and accepts exactly when both
/// lie within their tolerances of the model's coded constants.
pub fn validate_model(
    model: &GasModel,
    s1: CalibrationSample,
    s2: CalibrationSample,
    base_tolerance: u64,
    byte_tolerance: u64,
) -> (r: bool)
    requires
        model.wf(),
    ensures
        r <==> match spec_infer(s1, s2, model.conversion_factor as int) {
            Some((base, byte)) => spec_within_percent(
                base_tolerance as int,
                base,
                model.base_cost as int,
            ) && spec_within_percent(byte_tolerance as int, byte, model.byte_cost as int),
            None => false,
        },
{
    match infer_coefficients(s1, s2, model.conversion_factor) {
        Some(c) => within_x_percent(base_tolerance, c.base_cost, model.base_cost)
            && within_x_percent(byte_tolerance, c.byte_cost, model.byte_cost),
        None => false,
    }
}

/// A measurement that equals its expectation is within any tolerance.
pub proof fn lemma_exact_is_within_tolerance(tolerance: int, value: int)
    requires
        tolerance >= 0,
        value >= 0,
    ensures
        spec_within_percent(tolerance, value, value),
{
    assert(tolerance * value >= 0) by (nonlinear_arith)
        requires
            tolerance >= 0,
            value >= 0,
    ;
}

/// Soundness of the differential procedure: on noise-free measurements —
/// each observation's host cost is exactly the model's interpreter-unit
/// cost times the conversion factor — the inference returns the model's
/// coded constants exactly, and therefore passes the acceptance test
/// under any tolerance.
pub proof fn lemma_exact_measurements_recover_constants(
    m: GasModel,
    x1: u64,
    x2: u64,
    y1: u64,
    y2: u64,
)
    requires
        m.wf(),
        x1 < x2,
        y1 == m.spec_cost(x1 as nat) * m.conversion_factor,
        y2 == m.spec_cost(x2 as nat) * m.conversion_factor,
    ensures
        spec_infer(
            CalibrationSample { encoded_len: x1, host_cost: y1 },
            CalibrationSample { encoded_len: x2, host_cost: y2 },
            m.conversion_factor as int,
        ) == Some((m.base_cost as int, m.byte_cost as int)),
{
    let s1 = CalibrationSample { encoded_len: x1, host_cost: y1 };
    let s2 = CalibrationSample { encoded_len: x2, host_cost: y2 };
    let b = m.byte_cost as int;
    let base = m.base_cost as int;
    let f = m.conversion_factor as int;
    let d = x2 - x1;

    // The host-unit cost difference is the marginal part times the factor.
    assert(y2 - y1 == (b * d) * f) by {
        lemma_mul_is_distributive_sub_other_way(f, m.spec_cost(x2 as nat), m.spec_cost(x1 as nat));
        lemma_mul_is_distributive_sub(b, x2 as int, x1 as int);
        lemma_mul_is_distributive_sub_other_way(f, b * x2, b * x1);
    }
    assert(y1 <= y2) by {
        assert((b * d) * f >= 0) by (nonlinear_arith)
            requires
                b >= 0,
                d > 0,
                f >= 1,
        ;
    }

    // Dividing by the length difference recovers the host-unit marginal cost.
    assert(spec_marginal_host(s1, s2) == b * f) by {
        assert((b * d) * f == d * (b * f)) by (nonlinear_arith);
        lemma_div_multiples_vanish(b * f, d);
    }

    // Removing the marginal part leaves the host-unit base cost.
    assert(spec_base_host(s1, s2) == base * f) by {
        assert(y1 == base * f + (b * f) * (x1 as int)) by {
            lemma_mul_is_distributive_add_other_way(f, base, b * (x1 as int));
            assert((b * (x1 as int)) * f == (b * f) * (x1 as int)) by (nonlinear_arith);
        }
    }

    // Floor division through the factor yields the coded constants.
    assert(base * f >= 0) by (nonlinear_arith)
        requires
            base >= 0,
            f >= 1,
    ;
    assert((base * f) / f == base) by {
        lemma_div_multiples_vanish(base, f);
        assert(base * f == f * base) by (nonlinear_arith);
    }
    assert((b * f) / f == b) by {
        lemma_div_multiples_vanish(b, f);
        assert(b * f == f * b) by (nonlinear_arith);
    }
}

/// On noise-free measurements of the model the acceptance test passes
/// under any tolerances, the narrow coded ones included.
pub proof fn lemma_exact_measurements_pass_validation(
    m: GasModel,
    x1: u64,
    x2: u64,
    y1: u64,
    y2: u64,
    base_tolerance: u64,
    byte_tolerance: u64,
)
    requires
        m.wf(),
        x1 < x2,
        y1 == m.spec_cost(x1 as nat) * m.conversion_factor,
        y2 == m.spec_cost(x2 as nat) * m.conversion_factor,
    ensures
        match spec_infer(
            CalibrationSample { encoded_len: x1, host_cost: y1 },
            CalibrationSample { encoded_len: x2, host_cost: y2 },
            m.conversion_factor as int,
        ) {
            Some((base, byte)) => spec_within_percent(base_tolerance as int, base, m.base_cost as int)
                && spec_within_percent(byte_tolerance as int, byte, m.byte_cost as int),
            None => false,
        },
{
    lemma_exact_measurements_recover_constants(m, x1, x2, y1, y2);
    lemma_exact_is_within_tolerance(base_tolerance as int, m.base_cost as int);
    lemma_exact_is_within_tolerance(byte_tolerance as int, m.byte_cost as int);
}

} // verus!
