//! Precompile registry: the closed set of reserved 20-byte addresses and
//! the native handlers behind them.
//!
//! The interpreter consults the registry before ordinary bytecode
//! dispatch.  Matching is exact on the full address; a miss means the
//! call proceeds to bytecode, a hit short-circuits to the handler.
//! Registration of a new precompile never alters the lookup of an
//! existing address (isolation), which [`lemma_register_isolation`]
//! states and proves.

use vstd::prelude::*;
use crate::gas::Fault;
use crate::handler::PromiseResultHandler;
use crate::handler::handle_spec;
use crate::outcome::ExecutionContext;

verus! {

/// A 20-byte address of the interpreter's address space.
#[derive(Clone, Debug)]
pub struct Address {
    /// The raw address bytes.
    pub bytes: [u8; 20],
}

impl View for Address {
    type V = Seq<u8>;

    open spec fn view(&self) -> Seq<u8> {
        self.bytes@
    }
}

impl Address {
    /// Exact equality on the full 20 bytes; no prefix or range matching.
    pub fn matches(&self, other: &Address) -> (r: bool)
        ensures
            r <==> self@ == other@,
    {
        let mut i: usize = 0;
        while i < 20
            invariant
                i <= 20,
                forall|k: int| 0 <= k < i ==> self@[k] == other@[k],
            decreases 20 - i,
        {
            if self.bytes[i] != other.bytes[i] {
                return false;
            }
            i += 1;
        }
        proof {
            assert(self@ =~= other@);
        }
        true
    }
}

/// The kinds of native handler a reserved address can map to: a closed,
/// exhaustively enumerable set.
#[derive(Clone, Copy, Debug, PartialEq, Eq, Structural)]
pub enum HandlerKind {
    /// The handler that surfaces the context's promise outcomes.
    PromiseResults,
}

/// The distinguished address reserved for the promise-result handler,
/// outside the range reachable by ordinary contract deployment.
pub open spec fn spec_promise_results_address() -> Seq<u8> {
    seq![
        0u8, 0u8, 0u8, 0u8, 0u8, 0u8, 0u8, 0u8, 0u8, 0u8, 0u8, 0u8, 0u8, 0u8, 0u8, 0u8, 0u8, 0u8,
        0u8, 0x0au8,
    ]
}

/// The reserved address of the promise-result handler, in executable form.
pub fn promise_results_address() -> (r: Address)
    ensures
        r@ == spec_promise_results_address(),
{
    let a = Address {
        bytes: [
            0u8, 0u8, 0u8, 0u8, 0u8, 0u8, 0u8, 0u8, 0u8, 0u8, 0u8, 0u8, 0u8, 0u8, 0u8, 0u8, 0u8,
            0u8, 0u8, 0x0au8,
        ],
    };
    proof {
        assert(a@ =~= spec_promise_results_address());
    }
    a
}

/// First-match lookup over a sequence of (address, handler) entries; with
/// distinct addresses it is the only match.
pub open spec fn spec_lookup(entries: Seq<(Seq<u8>, HandlerKind)>, addr: Seq<u8>) -> Option<
    HandlerKind,
>
    decreases entries.len(),
{
    if entries.len() == 0 {
        None
    } else if entries[0].0 == addr {
        Some(entries[0].1)
    } else {
        spec_lookup(entries.drop_first(), addr)
    }
}

/// The table of reserved addresses, consulted before bytecode dispatch.
pub struct Registry {
    entries: Vec<(Address, HandlerKind)>,
}

impl View for Registry {
    type V = Seq<(Seq<u8>, HandlerKind)>;

    closed spec fn view(&self) -> Seq<(Seq<u8>, HandlerKind)> {
        Seq::new(self.entries@.len(), |i: int| (self.entries@[i].0@, self.entries@[i].1))
    }
}

impl Registry {
    /// Reserved addresses are pairwise distinct, so each maps to exactly
    /// one handler.
    pub open spec fn wf(&self) -> bool {
        forall|i: int, j: int|
            0 <= i < j < self@.len() ==> (#[trigger] self@[i]).0 != (#[trigger] self@[j]).0
    }

    /// An empty registry: every call proceeds to bytecode dispatch.
    pub fn empty() -> (r: Registry)
        ensures
            r@ == Seq::<(Seq<u8>, HandlerKind)>::empty(),
            r.wf(),
    {
        let r = Registry { entries: Vec::new() };
        proof {
            assert(r@ =~= Seq::<(Seq<u8>, HandlerKind)>::empty());
        }
        r
    }

    /// The standard registry: the promise-result handler at its reserved
    /// address.
    pub fn standard() -> (r: Registry)
        ensures
            r@ == seq![(spec_promise_results_address(), HandlerKind::PromiseResults)],
            r.wf(),
    {
        let mut entries: Vec<(Address, HandlerKind)> = Vec::new();
        entries.push((promise_results_address(), HandlerKind::PromiseResults));
        let r = Registry { entries };
        proof {
            assert(r@ =~= seq![(spec_promise_results_address(), HandlerKind::PromiseResults)]);
        }
        r
    }

    /// Looks up the handler reserved for `addr`: `None` means no match,
    /// and the call proceeds with normal bytecode dispatch.  The lookup
    /// is side-effect-free and exact on the full address.
    pub fn lookup(&self, addr: &Address) -> (r: Option<HandlerKind>)
        ensures
            r == spec_lookup(self@, addr@),
    {
        let n = self.entries.len();
        let mut i: usize = 0;
        proof {
            assert(self@.skip(0) =~= self@);
        }
        while i < n
            invariant
                n == self.entries.len(),
                i <= n,
                spec_lookup(self@, addr@) == spec_lookup(self@.skip(i as int), addr@),
            decreases n - i,
        {
            let ghost rem = self@.skip(i as int);
            proof {
                assert(rem[0] == self@[i as int]);
                assert(rem.drop_first() =~= self@.skip(i + 1));
            }
            if self.entries[i].0.matches(addr) {
                return Some(self.entries[i].1);
            }
            i += 1;
        }
        proof {
            assert(self@.skip(n as int).len() == 0);
        }
        None
    }

    /// Registers a new precompile.  The address must be free: on success
    /// the entry is appended and every other address resolves as before;
    /// a reserved address that is already taken is refused and the
    /// registry is unchanged.
    pub fn register(&mut self, addr: Address, handler: HandlerKind) -> (r: bool)
        ensures
            r <==> spec_lookup(old(self)@, addr@) is None,
            r ==> final(self)@ == old(self)@.push((addr@, handler)),
            !r ==> final(self)@ == old(self)@,
            old(self).wf() ==> final(self).wf(),
    {
        let taken = self.lookup(&addr);
        match taken {
            Some(_) => {
                proof {
                    lemma_lookup_some_implies_present(self@, addr@);
                }
                false
            },
            None => {
                proof {
                    lemma_lookup_none_implies_absent(self@, addr@);
                }
                let ghost pre = self@;
                self.entries.push((addr, handler));
                proof {
                    assert(self@ =~= pre.push((addr@, handler)));
                }
                true
            },
        }
    }
}

/// A successful lookup names an entry of the table.
proof fn lemma_lookup_some_implies_present(entries: Seq<(Seq<u8>, HandlerKind)>, addr: Seq<u8>)
    requires
        spec_lookup(entries, addr) is Some,
    ensures
        exists|i: int| 0 <= i < entries.len() && (#[trigger] entries[i]).0 == addr,
    decreases entries.len(),
{
    if entries[0].0 == addr {
        assert(entries[0].0 == addr);
    } else {
        lemma_lookup_some_implies_present(entries.drop_first(), addr);
        let i = choose|i: int|
            0 <= i < entries.drop_first().len() && (#[trigger] entries.drop_first()[i]).0 == addr;
        assert(entries[i + 1].0 == addr);
    }
}

/// A failed lookup means no entry of the table holds the address.
proof fn lemma_lookup_none_implies_absent(entries: Seq<(Seq<u8>, HandlerKind)>, addr: Seq<u8>)
    requires
        spec_lookup(entries, addr) is None,
    ensures
        forall|i: int| 0 <= i < entries.len() ==> (#[trigger] entries[i]).0 != addr,
    decreases entries.len(),
{
    if entries.len() > 0 {
        lemma_lookup_none_implies_absent(entries.drop_first(), addr);
        assert forall|i: int| 0 <= i < entries.len() implies (#[trigger] entries[i]).0 != addr by {
            if i > 0 {
                assert(entries.drop_first()[i - 1] == entries[i]);
            }
        }
    }
}

/// Isolation: appending a new precompile leaves the lookup of every other
/// address exactly as it was, so adding a precompile cannot alter the
/// behavior or gas accounting of an existing one.
pub proof fn lemma_register_isolation(
    entries: Seq<(Seq<u8>, HandlerKind)>,
    entry: (Seq<u8>, HandlerKind),
    addr: Seq<u8>,
)
    requires
        addr != entry.0,
    ensures
        spec_lookup(entries.push(entry), addr) == spec_lookup(entries, addr),
    decreases entries.len(),
{
    if entries.len() == 0 {
        assert(entries.push(entry)[0] == entry);
        assert(entries.push(entry).drop_first() =~= Seq::<(Seq<u8>, HandlerKind)>::empty());
    } else {
        assert(entries.push(entry)[0] == entries[0]);
        assert(entries.push(entry).drop_first() =~= entries.drop_first().push(entry));
        lemma_register_isolation(entries.drop_first(), entry, addr);
    }
}

/// Intercepts a call-type operation: when the target address is reserved,
/// the matching native handler serves the call and the result is `Some`;
/// otherwise `None` is returned, the gas counter is untouched, and the
/// interpreter proceeds with normal bytecode dispatch.
pub fn dispatch_call(
    registry: &Registry,
    handler: &PromiseResultHandler,
    target: &Address,
    call_input: &[u8],
    ctx: &ExecutionContext,
    remaining_gas: &mut u64,
) -> (r: Option<Result<(Vec<u8>, u64), Fault>>)
    requires
        ctx.wf(),
    ensures
        r is None <==> spec_lookup(registry@, target@) is None,
        r is None ==> *final(remaining_gas) == *old(remaining_gas),
        spec_lookup(registry@, target@) == Some(HandlerKind::PromiseResults) ==> match handle_spec(
            handler.model,
            ctx@,
            *old(remaining_gas),
        ) {
            Ok((out, cost)) => {
                &&& r matches Some(Ok((r_out, r_cost))) && r_out@ == out && r_cost == cost
                &&& *final(remaining_gas) == *old(remaining_gas) - cost
            },
            Err(fault) => {
                &&& r == Some(Result::<(Vec<u8>, u64), Fault>::Err(fault))
                &&& *final(remaining_gas) == *old(remaining_gas)
            },
        },
{
    match registry.lookup(target) {
        Some(HandlerKind::PromiseResults) => Some(handler.handle(call_input, ctx, remaining_gas)),
        None => None,
    }
}

} // verus!
