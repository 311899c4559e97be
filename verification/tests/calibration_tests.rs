//! Tests of the calibration oracle arithmetic: the tolerance check, the
//! differential inference, and the acceptance test on exact and on
//! unusable measurements.

use promise_precompile::calibration::infer_coefficients;
use promise_precompile::calibration::validate_model;
use promise_precompile::calibration::within_x_percent;
use promise_precompile::calibration::CalibrationSample;
use promise_precompile::calibration::InferredCoefficients;
use promise_precompile::gas::GasModel;

#[test]
fn within_x_percent_boundaries() {
    assert!(within_x_percent(10, 100, 100));
    assert!(within_x_percent(10, 110, 100));
    assert!(within_x_percent(10, 90, 100));
    assert!(!within_x_percent(10, 111, 100));
    assert!(!within_x_percent(10, 89, 100));
    assert!(within_x_percent(0, 42, 42));
    assert!(!within_x_percent(0, 43, 42));
}

fn exact_sample(model: &GasModel, encoded_len: u64) -> CalibrationSample {
    let cost = model.cost_of_len(encoded_len).unwrap();
    CalibrationSample {
        encoded_len,
        host_cost: model.to_host_units(cost).unwrap(),
    }
}

#[test]
fn exact_measurements_recover_the_constants() {
    let model = GasModel::default();
    let s1 = exact_sample(&model, 0);
    let s2 = exact_sample(&model, 119);
    assert_eq!(
        infer_coefficients(s1, s2, model.conversion_factor),
        Some(InferredCoefficients {
            base_cost: model.base_cost,
            byte_cost: model.byte_cost,
        })
    );
    assert!(validate_model(&model, s1, s2, 10, 5));
}

#[test]
fn noisy_measurements_within_tolerance_are_accepted() {
    let model = GasModel::default();
    let s1 = exact_sample(&model, 0);
    let mut s2 = exact_sample(&model, 1000);
    // Host-side overhead adds under five percent to the marginal cost.
    s2.host_cost += 1000 * (model.byte_cost * model.conversion_factor / 25);
    assert!(validate_model(&model, s1, s2, 10, 5));
}

#[test]
fn deviant_measurements_are_rejected() {
    let model = GasModel::default();
    let s1 = exact_sample(&model, 0);
    let mut s2 = exact_sample(&model, 1000);
    // Twice the marginal cost is far outside a five percent tolerance.
    s2.host_cost += 1000 * model.byte_cost * model.conversion_factor;
    assert!(!validate_model(&model, s1, s2, 10, 5));
}

#[test]
fn unusable_observations_are_refused() {
    let model = GasModel::default();
    let s1 = exact_sample(&model, 100);
    let s2 = exact_sample(&model, 200);
    // Lengths must increase between the observations.
    assert_eq!(infer_coefficients(s2, s1, model.conversion_factor), None);
    assert_eq!(infer_coefficients(s1, s1, model.conversion_factor), None);
    // A cost that falls as the length grows is no measurement of a
    // non-decreasing model.
    let falling = CalibrationSample {
        encoded_len: 300,
        host_cost: s1.host_cost - 1,
    };
    assert_eq!(infer_coefficients(s1, falling, model.conversion_factor), None);
    assert!(!validate_model(&model, s2, s1, 10, 5));
}
