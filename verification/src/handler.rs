//! Promise-result handler: the native handler behind the reserved
//! precompile address.
//!
//! It reads the execution context's outcome list, serializes it with the
//! canonical codec, prices the encoded outcome data with the gas model,
//! charges the call frame's remaining gas, and returns the encoded bytes.
//! The call input is accepted but ignored: the handler is a read-only
//! projection of already-scheduled promise state, so its output and cost
//! depend on the context alone, never on the input's contents or length.
//! The contract of [`PromiseResultHandler::handle`] states exactly that:
//! its result is [`handle_spec`] of the model, the context and the gas
//! budget, in which the input does not occur.

use vstd::prelude::*;
use crate::codec::encode;
use crate::codec::encode_full;
use crate::codec::encode_outcomes;
use crate::codec::lemma_encode_full_len;
use crate::gas::Fault;
use crate::gas::GasModel;
use crate::outcome::ExecutionContext;
use crate::outcome::OutcomeModel;

verus! {

/// The interpreter-unit cost of surfacing the outcome list `s`: base cost
/// plus per-byte cost of the encoded outcome data (the bytes that follow
/// the fixed count prefix, whose cost the base constant covers).
pub open spec fn spec_cost_of(m: GasModel, s: Seq<OutcomeModel>) -> int {
    m.spec_cost(encode_outcomes(s).len())
}

/// The handler's entire observable behavior, as a function of the gas
/// model, the context's outcome list and the remaining gas alone: the
/// encoded outcome list and its cost on success, an overflow fault when
/// the cost is not representable, an out-of-gas fault when the budget is
/// below the cost.
pub open spec fn handle_spec(m: GasModel, s: Seq<OutcomeModel>, remaining_gas: u64) -> Result<
    (Seq<u8>, u64),
    Fault,
> {
    let cost = spec_cost_of(m, s);
    if cost > u64::MAX {
        Err(Fault::Overflow)
    } else if remaining_gas < cost {
        Err(Fault::OutOfGas)
    } else {
        Ok((encode_full(s), cost as u64))
    }
}

/// The promise-result precompile, with its injected cost constants.
pub struct PromiseResultHandler {
    /// The cost model the handler charges with.
    pub model: GasModel,
}

impl PromiseResultHandler {
    /// Builds the handler around the given cost constants.
    pub fn new(model: GasModel) -> (r: PromiseResultHandler)
        ensures
            r.model == model,
    {
        PromiseResultHandler { model }
    }

    /// Serves one call to the precompile: encodes the context's outcome
    /// list, computes the cost, and charges it against the call frame's
    /// remaining gas, atomically with the cost check.  On success the
    /// output bytes and the charged cost are returned and the gas counter
    /// is decremented exactly once; on any fault no output is produced
    /// and the gas counter is untouched.  The call input plays no part.
    pub fn handle(&self, call_input: &[u8], ctx: &ExecutionContext, remaining_gas: &mut u64) -> (r:
        Result<(Vec<u8>, u64), Fault>)
        requires
            ctx.wf(),
        ensures
            match handle_spec(self.model, ctx@, *old(remaining_gas)) {
                Ok((out, cost)) => {
                    &&& r matches Ok((r_out, r_cost)) && r_out@ == out && r_cost == cost
                    &&& *final(remaining_gas) == *old(remaining_gas) - cost
                },
                Err(fault) => {
                    &&& r == Result::<(Vec<u8>, u64), Fault>::Err(fault)
                    &&& *final(remaining_gas) == *old(remaining_gas)
                },
            },
    {
        let encoded = encode(ctx.outcomes());
        proof {
            lemma_encode_full_len(ctx@);
        }
        let body_len = encoded.len() - 4;
        let cost = match self.model.cost_of_len(body_len as u64) {
            Ok(cost) => cost,
            Err(fault) => {
                return Err(fault);
            },
        };
        if *remaining_gas < cost {
            return Err(Fault::OutOfGas);
        }
        *remaining_gas = *remaining_gas - cost;
        Ok((encoded, cost))
    }
}

/// Out-of-gas boundary: with one gas unit less than the cost the call
/// fails with an out-of-gas fault and produces no output; with exactly
/// the cost it succeeds.
pub proof fn lemma_out_of_gas_boundary(m: GasModel, s: Seq<OutcomeModel>)
    requires
        1 <= spec_cost_of(m, s) <= u64::MAX,
    ensures
        handle_spec(m, s, (spec_cost_of(m, s) - 1) as u64) == Result::<(Seq<u8>, u64), Fault>::Err(
            Fault::OutOfGas,
        ),
        handle_spec(m, s, spec_cost_of(m, s) as u64) == Result::<(Seq<u8>, u64), Fault>::Ok(
            (encode_full(s), spec_cost_of(m, s) as u64),
        ),
{
}

/// Zero case: surfacing an empty outcome list costs exactly the base
/// constant.
pub proof fn lemma_empty_list_costs_base(m: GasModel)
    ensures
        spec_cost_of(m, Seq::<OutcomeModel>::empty()) == m.base_cost,
{
    assert(encode_outcomes(Seq::<OutcomeModel>::empty()).len() == 0);
}

} // verus!
