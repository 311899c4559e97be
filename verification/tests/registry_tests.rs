//! Tests of the precompile registry: exact address matching, the closed
//! reserved set, isolation of existing entries under registration, and
//! the dispatch short-circuit.

use promise_precompile::gas::GasModel;
use promise_precompile::handler::PromiseResultHandler;
use promise_precompile::outcome::ExecutionContext;
use promise_precompile::outcome::PromiseOutcome;
use promise_precompile::registry::dispatch_call;
use promise_precompile::registry::promise_results_address;
use promise_precompile::registry::Address;
use promise_precompile::registry::HandlerKind;
use promise_precompile::registry::Registry;

#[test]
fn standard_registry_reserves_the_promise_results_address() {
    let registry = Registry::standard();
    assert_eq!(
        registry.lookup(&promise_results_address()),
        Some(HandlerKind::PromiseResults)
    );
}

#[test]
fn unreserved_addresses_miss() {
    let registry = Registry::standard();
    assert_eq!(registry.lookup(&Address { bytes: [0; 20] }), None);
    assert_eq!(registry.lookup(&Address { bytes: [0xff; 20] }), None);
    // Matching is exact on the full 20 bytes, not on a prefix.
    let mut near_miss = promise_results_address();
    near_miss.bytes[0] ^= 1;
    assert_eq!(registry.lookup(&near_miss), None);
}

#[test]
fn registration_is_isolated_and_exclusive() {
    let mut registry = Registry::standard();
    let extra = Address { bytes: [7; 20] };

    assert!(registry.register(extra.clone(), HandlerKind::PromiseResults));
    // The new entry resolves, the existing one exactly as before.
    assert_eq!(
        registry.lookup(&extra),
        Some(HandlerKind::PromiseResults)
    );
    assert_eq!(
        registry.lookup(&promise_results_address()),
        Some(HandlerKind::PromiseResults)
    );

    // A taken address is refused.
    assert!(!registry.register(extra, HandlerKind::PromiseResults));
    assert!(!registry.register(
        promise_results_address(),
        HandlerKind::PromiseResults
    ));
}

#[test]
fn dispatch_intercepts_only_reserved_addresses() {
    let registry = Registry::standard();
    let handler = PromiseResultHandler::new(GasModel::default());
    let outcomes = vec![PromiseOutcome::Failed];
    let ctx = ExecutionContext::new(outcomes).unwrap();

    // A miss leaves the gas untouched and hands the call to bytecode.
    let mut gas: u64 = 1_000_000;
    let miss = dispatch_call(
        &registry,
        &handler,
        &Address { bytes: [0x11; 20] },
        &[],
        &ctx,
        &mut gas,
    );
    assert!(miss.is_none());
    assert_eq!(gas, 1_000_000);

    // A hit returns exactly what the handler returns and charges once.
    let mut direct_gas: u64 = 1_000_000;
    let direct = handler.handle(&[], &ctx, &mut direct_gas);
    let mut gas: u64 = 1_000_000;
    let hit = dispatch_call(
        &registry,
        &handler,
        &promise_results_address(),
        &[],
        &ctx,
        &mut gas,
    );
    assert_eq!(hit, Some(direct));
    assert_eq!(gas, direct_gas);
}
