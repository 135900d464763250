//! A heap-allocation adapter for a host that offers a single primitive for
//! reserving raw memory, and two small entry points around it.
//!
//! The host is not part of this library. Whoever calls hands in the host's
//! primitive as a function, and the contracts speak of what that function
//! returns.

use crate::allocator::WasmAllocator;
use crate::host::{keeps_promise, Block, SENTINEL};
use crate::layout::Layout;
use vstd::arithmetic::power2::is_pow2;
use vstd::prelude::*;

pub mod allocator;
pub mod history;
pub mod host;
pub mod layout;

verus! {

/// How many bytes `foo` asks for.
pub const DEMO_SIZE: usize = 5;

/// How far into its block `foo` writes.
pub const DEMO_OFFSET: usize = 3;

/// The byte that `foo` writes.
pub const DEMO_BYTE: u8 = 42;

/// The number `x` cut down to its low sixteen bits and read as a signed
/// number.
pub open spec fn wrap_i16(x: int) -> int {
    let low = x % 0x1_0000;
    if low >= 0x8000 {
        low - 0x1_0000
    } else {
        low
    }
}

/// Adds two bytes as sixteen-bit signed numbers, wrapping around. The sum of
/// two bytes always fits, so nothing ever wraps.
pub fn add(lhs: u8, rhs: u8) -> (sum: i16)
    ensures
        sum == wrap_i16(lhs + rhs),
        sum == lhs + rhs,
{
    (lhs as i16).wrapping_add(rhs as i16)
}

/// Allocates `DEMO_SIZE` bytes through `allocator` and has `host_store` write
/// `DEMO_BYTE` at `DEMO_OFFSET` bytes past the address that came back, be it a
/// block's address or the sentinel.
pub fn foo<H, W>(allocator: &WasmAllocator, host_reserve: H, host_store: W) where
    H: FnOnce(usize) -> usize,
    W: FnOnce(usize, u8),

    requires
        host_reserve.requires((DEMO_SIZE,)),
        forall|addr: usize| #[trigger]
            host_reserve.ensures((DEMO_SIZE,), addr) ==> addr + DEMO_OFFSET <= usize::MAX
                && host_store.requires(((addr + DEMO_OFFSET) as usize, DEMO_BYTE)),
    ensures
        exists|addr: usize| #[trigger]
            host_reserve.ensures((DEMO_SIZE,), addr) && host_store.ensures(
                ((addr + DEMO_OFFSET) as usize, DEMO_BYTE),
                (),
            ),
{
    proof {
        reveal(is_pow2);
    }
    let layout: Layout = Layout::from_size_align(DEMO_SIZE, 1).unwrap();
    let addr: usize = allocator.allocate(layout, host_reserve);
    host_store(addr + DEMO_OFFSET, DEMO_BYTE);
}

/// With a host that keeps its promise `foo` can always do its write: the
/// byte has an address, and it lies within the block where the host gave one.
pub proof fn lemma_foo_writes_within_its_block<H>(
    host_reserve: H,
    granted: Seq<Block>,
    addr: usize,
) where H: FnOnce(usize) -> usize
    requires
        keeps_promise(host_reserve, granted),
        host_reserve.ensures((DEMO_SIZE,), addr),
    ensures
        addr + DEMO_OFFSET <= usize::MAX,
        addr != SENTINEL ==> (Block { base: addr, len: DEMO_SIZE }).holds(addr + DEMO_OFFSET),
{
}

} // verus!
