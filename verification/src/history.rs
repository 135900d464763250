//! What a whole run of calls on the adapter leaves behind at the host.

use crate::allocator::{after_call, call_honoured, Call};
use crate::host::{
    lemma_reserve_keeps_blocks, lemma_reserve_keeps_disjoint, pairwise_disjoint, valid_for, Block,
    SENTINEL,
};
use vstd::prelude::*;

verus! {

/// The blocks handed out by the host once all of `calls` are over, in their
/// order, where `granted` are those handed out before the first.
pub open spec fn after_calls(granted: Seq<Block>, calls: Seq<Call>) -> Seq<Block>
    decreases calls.len(),
{
    if calls.len() == 0 {
        granted
    } else {
        after_call(after_calls(granted, calls.drop_last()), calls.last())
    }
}

/// Whether the host kept its promise during each of `calls`.
pub open spec fn calls_honoured(granted: Seq<Block>, calls: Seq<Call>) -> bool
    decreases calls.len(),
{
    calls.len() == 0 || (calls_honoured(granted, calls.drop_last()) && call_honoured(
        after_calls(granted, calls.drop_last()),
        calls.last(),
    ))
}

/// Whether `call` is an allocation.
pub open spec fn is_allocation(call: Call) -> bool {
    call is Allocate
}

/// Releases leave no trace: the blocks handed out after `calls` are those
/// handed out after the allocations among them alone, and the host kept its
/// promise during the ones exactly when it did during the others. No later
/// allocation can tell whether a release came before it.
pub proof fn lemma_deallocs_leave_no_trace(granted: Seq<Block>, calls: Seq<Call>)
    ensures
        after_calls(granted, calls) == after_calls(
            granted,
            calls.filter(|c: Call| is_allocation(c)),
        ),
        calls_honoured(granted, calls) == calls_honoured(
            granted,
            calls.filter(|c: Call| is_allocation(c)),
        ),
    decreases calls.len(),
{
    let allocation = |c: Call| is_allocation(c);
    reveal(Seq::filter);
    if calls.len() > 0 {
        let before = calls.drop_last();
        lemma_deallocs_leave_no_trace(granted, before);
        if is_allocation(calls.last()) {
            let kept = before.filter(allocation).push(calls.last());
            assert(calls.filter(allocation) == kept);
            assert(kept.drop_last() == before.filter(allocation));
            assert(kept.last() == calls.last());
        } else {
            assert(calls.filter(allocation) == before.filter(allocation));
        }
    }
}

/// The first `n` of `calls` hand out the first blocks of all that `calls` hand
/// out, and the host kept its promise during them if it did during all.
pub proof fn lemma_earlier_calls(granted: Seq<Block>, calls: Seq<Call>, n: int)
    requires
        0 <= n <= calls.len(),
    ensures
        after_calls(granted, calls.take(n)).len() <= after_calls(granted, calls).len(),
        forall|i: int|
            0 <= i < after_calls(granted, calls.take(n)).len() ==> after_calls(granted, calls)[i]
                == after_calls(granted, calls.take(n))[i],
        calls_honoured(granted, calls) ==> calls_honoured(granted, calls.take(n)),
    decreases calls.len(),
{
    if n == calls.len() {
        assert(calls.take(n) == calls);
    } else {
        let before = calls.drop_last();
        assert(before.take(n) == calls.take(n));
        lemma_earlier_calls(granted, before, n);
        match calls.last() {
            Call::Allocate { layout, addr } => {
                lemma_reserve_keeps_blocks(after_calls(granted, before), layout.size(), addr);
            },
            Call::Dealloc { .. } => {},
        }
    }
}

/// An address that an allocation returned, if not the sentinel, stays good
/// for as many bytes as were asked for through all calls that follow, a
/// release of that very address among them: no block is ever taken back.
pub proof fn lemma_allocation_stays_valid(granted: Seq<Block>, calls: Seq<Call>, at: int)
    requires
        0 <= at < calls.len(),
        calls[at] is Allocate,
        calls[at]->Allocate_addr != SENTINEL,
    ensures
        valid_for(
            after_calls(granted, calls),
            calls[at]->Allocate_addr,
            calls[at]->Allocate_layout.size() as int,
        ),
{
    let upto = calls.take(at + 1);
    assert(upto.drop_last() == calls.take(at));
    assert(upto.last() == calls[at]);
    let place: int = after_calls(granted, calls.take(at)).len() as int;
    assert(after_calls(granted, upto)[place] == Block {
        base: calls[at]->Allocate_addr,
        len: calls[at]->Allocate_layout.size(),
    });
    lemma_earlier_calls(granted, calls, at + 1);
    assert(after_calls(granted, calls)[place].base == calls[at]->Allocate_addr);
}

/// As long as the host keeps its promise, the blocks it has handed out stay
/// free of one another through any calls on the adapter, releases among them
/// or not.
pub proof fn lemma_calls_keep_disjoint(granted: Seq<Block>, calls: Seq<Call>)
    requires
        pairwise_disjoint(granted),
        calls_honoured(granted, calls),
    ensures
        pairwise_disjoint(after_calls(granted, calls)),
    decreases calls.len(),
{
    if calls.len() > 0 {
        let before = calls.drop_last();
        lemma_calls_keep_disjoint(granted, before);
        match calls.last() {
            Call::Allocate { layout, addr } => {
                lemma_reserve_keeps_disjoint(after_calls(granted, before), layout.size(), addr);
            },
            Call::Dealloc { .. } => {},
        }
    }
}

/// Any two allocations among `calls` that did not end in the sentinel got
/// blocks with no byte in common, whatever was released between them, as long
/// as the host kept its promise.
pub proof fn lemma_allocations_never_overlap(
    granted: Seq<Block>,
    calls: Seq<Call>,
    earlier: int,
    later: int,
)
    requires
        calls_honoured(granted, calls),
        0 <= earlier < later < calls.len(),
        calls[earlier] is Allocate,
        calls[later] is Allocate,
        calls[earlier]->Allocate_addr != SENTINEL,
        calls[later]->Allocate_addr != SENTINEL,
    ensures
        !(Block {
            base: calls[earlier]->Allocate_addr,
            len: calls[earlier]->Allocate_layout.size(),
        }).overlaps(
            Block { base: calls[later]->Allocate_addr, len: calls[later]->Allocate_layout.size() },
        ),
{
    let first = Block {
        base: calls[earlier]->Allocate_addr,
        len: calls[earlier]->Allocate_layout.size(),
    };
    // The blocks that the host had handed out when the later allocation came.
    let upto_later = calls.take(later + 1);
    lemma_earlier_calls(granted, calls, later + 1);
    assert(upto_later.drop_last() == calls.take(later));
    assert(upto_later.last() == calls[later]);
    let seen = after_calls(granted, calls.take(later));
    assert(call_honoured(seen, calls[later]));
    // The earlier block is one of them.
    let upto_earlier = calls.take(earlier + 1);
    assert(upto_earlier.drop_last() == calls.take(earlier));
    assert(upto_earlier.last() == calls[earlier]);
    let at: int = after_calls(granted, calls.take(earlier)).len() as int;
    assert(after_calls(granted, upto_earlier)[at] == first);
    assert(calls.take(later).take(earlier + 1) == upto_earlier);
    lemma_earlier_calls(granted, calls.take(later), earlier + 1);
    assert(seen[at] == first);
}

} // verus!
