//! Tests of the dual-unit gas model and of the handler's charging
//! behavior: exact cost values, input independence, the zero case, the
//! out-of-gas boundary, and overflow faults.

use promise_precompile::codec::encode;
use promise_precompile::gas::Fault;
use promise_precompile::gas::GasModel;
use promise_precompile::gas::NEAR_GAS_PER_EVM;
use promise_precompile::gas::PROMISE_RESULT_BASE_COST;
use promise_precompile::gas::PROMISE_RESULT_BYTE_COST;
use promise_precompile::handler::PromiseResultHandler;
use promise_precompile::outcome::ExecutionContext;
use promise_precompile::outcome::PromiseOutcome;

fn example_outcomes() -> Vec<PromiseOutcome> {
    vec![
        PromiseOutcome::Successful(vec![0xde, 0xad, 0xbe, 0xef]),
        PromiseOutcome::Failed,
    ]
}

#[test]
fn default_model_exposes_the_coded_constants() {
    let model = GasModel::default();
    assert_eq!(model.base_cost, PROMISE_RESULT_BASE_COST);
    assert_eq!(model.byte_cost, PROMISE_RESULT_BYTE_COST);
    assert_eq!(model.conversion_factor, NEAR_GAS_PER_EVM);
}

#[test]
fn cost_is_base_plus_marginal() {
    let model = GasModel::default();
    assert_eq!(
        model.cost_of_len(14),
        Ok(PROMISE_RESULT_BASE_COST + PROMISE_RESULT_BYTE_COST * 14)
    );
}

#[test]
fn cost_is_non_decreasing_in_length() {
    let model = GasModel::default();
    let mut previous = model.cost_of_len(0).unwrap();
    for len in 1..200 {
        let cost = model.cost_of_len(len).unwrap();
        assert!(cost >= previous);
        previous = cost;
    }
}

#[test]
fn cost_overflow_is_a_fault() {
    let model = GasModel {
        base_cost: 1,
        byte_cost: u64::MAX,
        conversion_factor: 1,
    };
    assert_eq!(model.cost_of_len(2), Err(Fault::Overflow));
    assert_eq!(
        GasModel {
            base_cost: u64::MAX,
            byte_cost: 1,
            conversion_factor: 1,
        }
        .cost_of_len(1),
        Err(Fault::Overflow)
    );
}

#[test]
fn unit_conversion_round_trips() {
    let model = GasModel::default();
    let host = model.to_host_units(125).unwrap();
    assert_eq!(host, 125 * NEAR_GAS_PER_EVM);
    assert_eq!(model.from_host_units(host), 125);
    // Floor division: host-side noise below one interpreter unit vanishes.
    assert_eq!(model.from_host_units(host + NEAR_GAS_PER_EVM - 1), 125);
}

#[test]
fn unit_conversion_overflow_is_a_fault() {
    let model = GasModel::default();
    assert_eq!(model.to_host_units(u64::MAX), Err(Fault::Overflow));
}

#[test]
fn empty_outcome_list_costs_exactly_the_base() {
    let handler = PromiseResultHandler::new(GasModel::default());
    let ctx = ExecutionContext::new(Vec::new()).unwrap();
    let mut gas: u64 = u64::MAX;
    let (output, cost) = handler.handle(&[], &ctx, &mut gas).unwrap();
    assert_eq!(cost, PROMISE_RESULT_BASE_COST);
    assert_eq!(output, vec![0, 0, 0, 0]);
    assert_eq!(gas, u64::MAX - PROMISE_RESULT_BASE_COST);
}

#[test]
fn handler_output_and_cost_ignore_the_call_input() {
    let handler = PromiseResultHandler::new(GasModel::default());
    let ctx = ExecutionContext::new(example_outcomes()).unwrap();

    let mut gas_a: u64 = 1_000_000;
    let a = handler.handle(&[], &ctx, &mut gas_a).unwrap();
    let mut gas_b: u64 = 1_000_000;
    let b = handler
        .handle(&[0xff, 0x00, 0x17, 0x99, 0x42], &ctx, &mut gas_b)
        .unwrap();

    assert_eq!(a, b);
    assert_eq!(gas_a, gas_b);
}

#[test]
fn handler_charges_base_plus_byte_cost_of_the_encoding() {
    let outcomes = example_outcomes();
    let handler = PromiseResultHandler::new(GasModel::default());
    let ctx = ExecutionContext::new(outcomes.clone()).unwrap();
    let mut gas: u64 = u64::MAX;
    let (output, cost) = handler.handle(&[], &ctx, &mut gas).unwrap();

    let encoded = encode(&outcomes);
    assert_eq!(output, encoded);
    // The outcome data after the fixed 4-byte count prefix is what the
    // per-byte constant meters.
    let body_len = (encoded.len() - 4) as u64;
    assert_eq!(
        cost,
        PROMISE_RESULT_BASE_COST + PROMISE_RESULT_BYTE_COST * body_len
    );
    assert_eq!(gas, u64::MAX - cost);
}

#[test]
fn out_of_gas_boundary() {
    let handler = PromiseResultHandler::new(GasModel::default());
    let ctx = ExecutionContext::new(example_outcomes()).unwrap();

    let mut probe_gas: u64 = u64::MAX;
    let (_, cost) = handler.handle(&[], &ctx, &mut probe_gas).unwrap();

    // One unit short: out-of-gas fault, no output, no charge.
    let mut gas: u64 = cost - 1;
    assert_eq!(handler.handle(&[], &ctx, &mut gas), Err(Fault::OutOfGas));
    assert_eq!(gas, cost - 1);

    // Exactly the cost: success, the whole budget is consumed.
    let mut gas: u64 = cost;
    let (output, charged) = handler.handle(&[], &ctx, &mut gas).unwrap();
    assert_eq!(charged, cost);
    assert_eq!(output, encode(&example_outcomes()));
    assert_eq!(gas, 0);
}

#[test]
fn handler_overflow_fault_leaves_gas_untouched() {
    let handler = PromiseResultHandler::new(GasModel {
        base_cost: u64::MAX,
        byte_cost: u64::MAX,
        conversion_factor: 1,
    });
    let ctx = ExecutionContext::new(example_outcomes()).unwrap();
    let mut gas: u64 = u64::MAX;
    assert_eq!(handler.handle(&[], &ctx, &mut gas), Err(Fault::Overflow));
    assert_eq!(gas, u64::MAX);
}
