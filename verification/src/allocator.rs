//! The adapter between a program that asks for memory by layout and a host
//! that reserves memory by size alone.

use crate::host::{
    after_reserve, block_aligned, keeps_alignment, keeps_promise, reply_honoured, valid_for,
    Block, BLOCK_ALIGN, SENTINEL,
};
use crate::layout::Layout;
use vstd::arithmetic::div_mod::lemma_small_mod;
use vstd::arithmetic::power2::is_pow2;
use vstd::prelude::*;

verus! {

/// The adapter: a value without state that hands every request for memory on
/// to the host and never gives memory back.
pub struct WasmAllocator {}

impl WasmAllocator {
    /// Builds the adapter.
    pub fn new() -> (allocator: Self)
        ensures
            allocator == (WasmAllocator {}),
        no_unwind
    {
        WasmAllocator {}
    }

    /// Asks the host, through `host_reserve`, for as many bytes as `layout`
    /// has, and returns the host's reply as it came: the address of the block,
    /// or the host's sentinel. The alignment of `layout` is not looked at, and
    /// the reply is not held against it.
    pub fn allocate<H>(&self, layout: Layout, host_reserve: H) -> (addr: usize) where
        H: FnOnce(usize) -> usize,

        requires
            host_reserve.requires((layout.size(),)),
        ensures
            host_reserve.ensures((layout.size(),), addr),
    {
        let size: usize = layout.size();
        host_reserve(size)
    }

    /// Releases nothing: the block at `addr` is never returned to the host,
    /// whatever `addr` and `layout` are. There is no way for this to fail.
    pub fn dealloc(&self, addr: usize, layout: Layout)
        no_unwind
    {
    }
}

/// One call on the adapter, with the address that it returned or was given.
pub enum Call {
    /// `allocate` was called with `layout` and returned `addr`.
    Allocate { layout: Layout, addr: usize },
    /// `dealloc` was called with `addr` and `layout`.
    Dealloc { addr: usize, layout: Layout },
}

/// The blocks handed out by the host once `call` is over, where `granted` are
/// those handed out before it. An allocation adds the block that the host
/// gave for the layout's size; a release changes nothing.
pub open spec fn after_call(granted: Seq<Block>, call: Call) -> Seq<Block> {
    match call {
        Call::Allocate { layout, addr } => after_reserve(granted, layout.size(), addr),
        Call::Dealloc { .. } => granted,
    }
}

/// Whether the host kept its promise during `call`. Only an allocation
/// reaches the host; of a release there is nothing to keep.
pub open spec fn call_honoured(granted: Seq<Block>, call: Call) -> bool {
    match call {
        Call::Allocate { layout, addr } => reply_honoured(granted, layout.size(), addr),
        Call::Dealloc { .. } => true,
    }
}

/// What `allocate` returns is the sentinel or an address good for as many
/// bytes as the layout has, never for fewer, as long as the host keeps its
/// promise.
pub proof fn lemma_allocate_sentinel_or_valid<H>(
    allocator: WasmAllocator,
    layout: Layout,
    host_reserve: H,
    addr: usize,
    granted: Seq<Block>,
) where H: FnOnce(usize) -> usize
    requires
        keeps_promise(host_reserve, granted),
        call_ensures(WasmAllocator::allocate::<H>, (&allocator, layout, host_reserve), addr),
    ensures
        call_honoured(granted, Call::Allocate { layout, addr }),
        addr == SENTINEL || valid_for(
            after_call(granted, Call::Allocate { layout, addr }),
            addr,
            layout.size() as int,
        ),
{
    if addr != SENTINEL {
        let after = after_call(granted, Call::Allocate { layout, addr });
        assert(after[granted.len() as int] == Block { base: addr, len: layout.size() });
    }
}

/// Two allocations with a release of the first block between them: the second
/// block shares no byte with the first, as long as the host keeps its promise.
/// The space of a released block is not used again.
pub proof fn lemma_no_reuse_after_dealloc<H1, H2>(
    allocator: WasmAllocator,
    granted: Seq<Block>,
    first: Layout,
    first_reserve: H1,
    first_addr: usize,
    second: Layout,
    second_reserve: H2,
    second_addr: usize,
) where H1: FnOnce(usize) -> usize, H2: FnOnce(usize) -> usize
    requires
        keeps_promise(first_reserve, granted),
        call_ensures(
            WasmAllocator::allocate::<H1>,
            (&allocator, first, first_reserve),
            first_addr,
        ),
        call_ensures(WasmAllocator::dealloc, (&allocator, first_addr, first), ()),
        keeps_promise(
            second_reserve,
            after_call(
                after_call(granted, Call::Allocate { layout: first, addr: first_addr }),
                Call::Dealloc { addr: first_addr, layout: first },
            ),
        ),
        call_ensures(
            WasmAllocator::allocate::<H2>,
            (&allocator, second, second_reserve),
            second_addr,
        ),
    ensures
        first_addr != SENTINEL && second_addr != SENTINEL ==> !(Block {
            base: first_addr,
            len: first.size(),
        }).overlaps(Block { base: second_addr, len: second.size() }),
{
    if first_addr != SENTINEL && second_addr != SENTINEL {
        let between = after_call(granted, Call::Allocate { layout: first, addr: first_addr });
        assert(between[granted.len() as int] == Block { base: first_addr, len: first.size() });
    }
}

/// Where a layout asks for no more than the host's own alignment, and the
/// host aligns its replies, what `allocate` returns is aligned as the layout
/// asks.
pub proof fn lemma_allocate_aligned_within_block_align<H>(
    allocator: WasmAllocator,
    layout: Layout,
    host_reserve: H,
    addr: usize,
) where H: FnOnce(usize) -> usize
    requires
        layout.wf(),
        layout.align() <= BLOCK_ALIGN,
        keeps_alignment(host_reserve),
        call_ensures(WasmAllocator::allocate::<H>, (&allocator, layout, host_reserve), addr),
    ensures
        block_aligned(addr),
        addr % layout.align() == 0,
{
    let align: usize = layout.align();
    assert(align == 1 || align == 2 || align == 4 || align == 8 || align == 16 || align == 32) by {
        reveal_with_fuel(is_pow2, 7);
    }
    if align == 1 {
        assert(addr % 1 == 0);
    } else if align == 2 {
        assert(addr % 2 == 0);
    } else if align == 4 {
        assert(addr % 4 == 0);
    } else if align == 8 {
        assert(addr % 8 == 0);
    } else if align == 16 {
        assert(addr % 16 == 0);
    }
}

/// Where a layout asks for more than the host's own alignment, that the host
/// aligns its replies is no warrant: there is an address with the host's
/// alignment that is not aligned as the layout asks. `allocate` would hand it
/// on all the same.
pub proof fn lemma_block_align_is_no_warrant_beyond(layout: Layout)
    requires
        layout.align() > BLOCK_ALIGN,
    ensures
        exists|addr: usize|
            addr != SENTINEL && #[trigger] block_aligned(addr) && addr % layout.align() != 0,
{
    lemma_small_mod(BLOCK_ALIGN as nat, layout.align() as nat);
    assert(block_aligned(BLOCK_ALIGN));
}

} // verus!
