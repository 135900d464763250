//! The description of a request for memory: how many bytes, and how aligned.

use vstd::arithmetic::power2::is_pow2;
use vstd::prelude::*;

verus! {

/// Size and alignment of a block of memory that a caller asks for.
///
/// The alignment of every `Layout` is a power of two; the size is any number
/// of bytes, zero included.
#[derive(Clone, Copy, Debug, PartialEq, Eq)]
pub struct Layout {
    size: usize,
    align: usize,
}

/// Tells whether `n` is a power of two, by halving it while it is even.
fn is_power_of_two(n: usize) -> (yes: bool)
    ensures
        yes == is_pow2(n as int),
    no_unwind
{
    let mut m: usize = n;
    while m > 1 && m % 2 == 0
        invariant
            is_pow2(m as int) == is_pow2(n as int),
        decreases m,
    {
        proof {
            reveal(is_pow2);
        }
        m = m / 2;
    }
    proof {
        reveal(is_pow2);
    }
    m == 1
}

impl Layout {
    /// Every layout that executable code can hold has a power of two as its
    /// alignment.
    #[verifier::type_invariant]
    pub open spec fn wf(&self) -> bool {
        is_pow2(self.align() as int)
    }

    /// The number of bytes asked for.
    pub closed spec fn spec_size(&self) -> usize {
        self.size
    }

    /// The alignment asked for, in bytes.
    pub closed spec fn spec_align(&self) -> usize {
        self.align
    }

    /// A layout is its size and its alignment, and nothing more.
    pub proof fn lemma_same_size_and_align(self, other: Layout)
        requires
            self.size() == other.size(),
            self.align() == other.align(),
        ensures
            self == other,
    {
    }

    /// Builds the layout of `size` bytes aligned to `align`, or nothing where
    /// `align` is not a power of two.
    pub fn from_size_align(size: usize, align: usize) -> (layout: Option<Layout>)
        ensures
            layout is Some <==> is_pow2(align as int),
            layout matches Some(l) ==> l.wf() && l.size() == size && l.align() == align,
        no_unwind
    {
        if is_power_of_two(align) {
            Some(Layout { size, align })
        } else {
            None
        }
    }

    /// The number of bytes asked for.
    #[verifier::when_used_as_spec(spec_size)]
    pub fn size(&self) -> (n: usize)
        ensures
            n == self.size(),
        no_unwind
    {
        self.size
    }

    /// The alignment asked for, in bytes: a power of two.
    #[verifier::when_used_as_spec(spec_align)]
    pub fn align(&self) -> (a: usize)
        ensures
            a == self.align(),
            is_pow2(a as int),
        no_unwind
    {
        proof {
            use_type_invariant(self);
        }
        self.align
    }
}

} // verus!
