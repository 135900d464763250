//! The host's one primitive, seen from outside: the blocks of memory it has
//! handed out, and what it promises of each reply.
//!
//! Nothing here runs. The host keeps its own books, out of reach; these
//! definitions say what a caller may rely on, so that the adapter's
//! behaviour can be stated against them.

use vstd::prelude::*;

verus! {

/// The address by which the host says that it has no memory to give.
pub const SENTINEL: usize = 0;

/// The alignment, in bytes, that the host is relied on to give to every block
/// it hands out.
pub const BLOCK_ALIGN: usize = 32;

/// A run of `len` bytes that starts at address `base`.
pub struct Block {
    pub base: usize,
    pub len: usize,
}

impl Block {
    /// The address just past the last byte.
    pub open spec fn end(self) -> int {
        self.base + self.len
    }

    /// Whether the byte at address `byte` belongs to the block.
    pub open spec fn holds(self, byte: int) -> bool {
        self.base <= byte < self.end()
    }

    /// Whether the two blocks have a byte in common.
    pub open spec fn overlaps(self, other: Block) -> bool {
        exists|byte: int| #[trigger] self.holds(byte) && other.holds(byte)
    }

    /// Two blocks have a byte in common exactly when neither is empty and each
    /// starts before the other ends.
    pub proof fn lemma_overlaps_by_bounds(self, other: Block)
        ensures
            self.overlaps(other) <==> (self.len > 0 && other.len > 0 && self.base < other.end()
                && other.base < self.end()),
    {
        if self.len > 0 && other.len > 0 && self.base < other.end() && other.base < self.end() {
            let byte: int = if self.base <= other.base {
                other.base as int
            } else {
                self.base as int
            };
            assert(self.holds(byte) && other.holds(byte));
        }
    }
}

/// Whether no two of the blocks in `granted` have a byte in common.
pub open spec fn pairwise_disjoint(granted: Seq<Block>) -> bool {
    forall|i: int, j: int|
        0 <= i < j < granted.len() ==> !(#[trigger] granted[i]).overlaps(#[trigger] granted[j])
}

/// Whether `addr` is good for `n` bytes: one of the blocks in `granted` starts
/// there and is at least `n` bytes long.
pub open spec fn valid_for(granted: Seq<Block>, addr: usize, n: int) -> bool {
    exists|i: int|
        0 <= i < granted.len() && (#[trigger] granted[i]).base == addr && n <= granted[i].len
}

/// What the host promises of its reply `addr` to a request for `size` bytes,
/// where `granted` are the blocks it has handed out so far: the reply is the
/// sentinel, or the `size` bytes from `addr` on lie within the address space
/// and share no byte with any block handed out before.
pub open spec fn reply_honoured(granted: Seq<Block>, size: usize, addr: usize) -> bool {
    addr != SENTINEL ==> {
        &&& addr + size <= usize::MAX + 1
        &&& forall|i: int|
            0 <= i < granted.len() ==> !(#[trigger] granted[i]).overlaps(
                Block { base: addr, len: size },
            )
    }
}

/// The blocks handed out once the host has replied `addr` to a request for
/// `size` bytes: those in `granted`, and the new block unless the reply was the
/// sentinel.
pub open spec fn after_reserve(granted: Seq<Block>, size: usize, addr: usize) -> Seq<Block> {
    if addr == SENTINEL {
        granted
    } else {
        granted.push(Block { base: addr, len: size })
    }
}

/// Whether `addr` is a multiple of the alignment that the host gives to its
/// blocks. The sentinel is one.
pub open spec fn block_aligned(addr: usize) -> bool {
    addr % BLOCK_ALIGN == 0
}

/// Whether every reply that `host_reserve` can give keeps the host's promise,
/// where `granted` are the blocks handed out so far.
pub open spec fn keeps_promise<H: FnOnce(usize) -> usize>(
    host_reserve: H,
    granted: Seq<Block>,
) -> bool {
    forall|size: usize, addr: usize| #[trigger]
        host_reserve.ensures((size,), addr) ==> reply_honoured(granted, size, addr)
}

/// Whether every reply that `host_reserve` can give has the host's alignment.
/// This is taken on trust of a host, apart from the promise above.
pub open spec fn keeps_alignment<H: FnOnce(usize) -> usize>(host_reserve: H) -> bool {
    forall|size: usize, addr: usize| #[trigger]
        host_reserve.ensures((size,), addr) ==> block_aligned(addr)
}

/// A reply that keeps the host's promise leaves the blocks free of one
/// another, given that they were so before.
pub proof fn lemma_reserve_keeps_disjoint(granted: Seq<Block>, size: usize, addr: usize)
    requires
        pairwise_disjoint(granted),
        reply_honoured(granted, size, addr),
    ensures
        pairwise_disjoint(after_reserve(granted, size, addr)),
{
}

/// Whatever the host replies, every block handed out before is still there,
/// at its place.
pub proof fn lemma_reserve_keeps_blocks(granted: Seq<Block>, size: usize, addr: usize)
    ensures
        granted.len() <= after_reserve(granted, size, addr).len(),
        forall|i: int|
            0 <= i < granted.len() ==> after_reserve(granted, size, addr)[i] == granted[i],
{
}

} // verus!
