//! The resolved outcomes of previously scheduled asynchronous
//! cross-contract calls ("promises"), and the execution context that
//! carries them.
//!
//! The host populates an ordered, immutable outcome list before the
//! interpreter starts; the promise-result handler only reads it.

use vstd::prelude::*;

verus! {

/// Mathematical model of one promise outcome: the payload of a successful
/// outcome is a plain byte sequence.
pub enum OutcomeModel {
    /// The promise has not resolved yet.
    NotReady,
    /// The promise resolved successfully with the given result bytes.
    Successful(Seq<u8>),
    /// The promise resolved with a failure; no payload.
    Failed,
}

/// One resolved (or still pending) outcome of an asynchronous
/// cross-contract call, in executable form.
#[derive(Clone, Debug, PartialEq, Eq)]
pub enum PromiseOutcome {
    /// The promise has not resolved yet.
    NotReady,
    /// The promise resolved successfully with the given result bytes.
    Successful(Vec<u8>),
    /// The promise resolved with a failure; no payload.
    Failed,
}

impl View for PromiseOutcome {
    type V = OutcomeModel;

    open spec fn view(&self) -> OutcomeModel {
        match self {
            PromiseOutcome::NotReady => OutcomeModel::NotReady,
            PromiseOutcome::Successful(payload) => OutcomeModel::Successful(payload@),
            PromiseOutcome::Failed => OutcomeModel::Failed,
        }
    }
}

impl DeepView for PromiseOutcome {
    type V = OutcomeModel;

    open spec fn deep_view(&self) -> OutcomeModel {
        self.view()
    }
}

/// A successful payload must fit the codec's 4-byte length prefix.
pub open spec fn outcome_wf(o: OutcomeModel) -> bool {
    match o {
        OutcomeModel::Successful(payload) => payload.len() <= u32::MAX,
        _ => true,
    }
}

/// An outcome list is encodable when its length and every payload fit the
/// codec's 4-byte prefixes.
pub open spec fn outcomes_wf(s: Seq<OutcomeModel>) -> bool {
    &&& s.len() <= u32::MAX
    &&& forall|i: int| 0 <= i < s.len() ==> outcome_wf(#[trigger] s[i])
}

/// The per-call execution context: the ordered outcome list of the current
/// call tree, fixed by the host before interpreter entry and read-only for
/// the lifetime of the context.
pub struct ExecutionContext {
    outcomes: Vec<PromiseOutcome>,
}

impl View for ExecutionContext {
    type V = Seq<OutcomeModel>;

    closed spec fn view(&self) -> Seq<OutcomeModel> {
        self.outcomes.deep_view()
    }
}

impl ExecutionContext {
    /// The context is well formed when its outcome list is encodable.
    pub open spec fn wf(&self) -> bool {
        outcomes_wf(self@)
    }

    /// Builds a context from the host-supplied outcome list; rejects a
    /// list the codec could not represent (a payload or a count that does
    /// not fit a 4-byte length prefix).
    pub fn new(outcomes: Vec<PromiseOutcome>) -> (r: Option<ExecutionContext>)
        ensures
            r is Some <==> outcomes_wf(outcomes.deep_view()),
            r matches Some(ctx) ==> ctx@ == outcomes.deep_view(),
    {
        if outcomes.len() > u32::MAX as usize {
            return None;
        }
        let n = outcomes.len();
        let mut i: usize = 0;
        while i < n
            invariant
                n == outcomes.len(),
                i <= n,
                forall|k: int| 0 <= k < i ==> outcome_wf(#[trigger] outcomes.deep_view()[k]),
            decreases n - i,
        {
            match &outcomes[i] {
                PromiseOutcome::Successful(payload) => {
                    if payload.len() > u32::MAX as usize {
                        proof {
                            assert(!outcome_wf(outcomes.deep_view()[i as int]));
                        }
                        return None;
                    }
                },
                _ => {},
            }
            proof {
                assert(outcome_wf(outcomes.deep_view()[i as int]));
            }
            i += 1;
        }
        Some(ExecutionContext { outcomes })
    }

    /// The outcome list, in the scheduling order of the promises.
    pub fn outcomes(&self) -> (r: &Vec<PromiseOutcome>)
        ensures
            r.deep_view() == self@,
    {
        &self.outcomes
    }
}

} // verus!
