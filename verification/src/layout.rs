//! Size and alignment arithmetic.
//!
//! A [`Layout`] describes a request for raw storage: a size in bytes and a
//! power-of-two alignment.  All operations here are pure; overflow is ruled
//! out by preconditions rather than detected at run time.

use vstd::prelude::*;

verus! {

use vstd::arithmetic::div_mod::lemma_fundamental_div_mod;
use vstd::arithmetic::power2::{pow2, is_pow2, is_pow2_equiv, lemma_pow2_strictly_increases,
    lemma_pow2_adds};
use vstd::layout::{size_of, align_of, valid_layout, layout_for_type_is_valid};

/// The least multiple of `align` that is at least `x`.
pub open spec fn spec_round_up(x: int, align: int) -> int
    recommends
        x >= 0,
        align >= 1,
{
    if x % align == 0 {
        x
    } else {
        x + align - x % align
    }
}

/// `spec_round_up` lands on a multiple of `align` that is within one
/// alignment unit above `x`.
pub proof fn lemma_round_up(x: int, align: int)
    requires
        x >= 0,
        align >= 1,
    ensures
        x <= spec_round_up(x, align) < x + align,
        spec_round_up(x, align) % align == 0,
        spec_round_up(x, align) >= 0,
{
    let r = x % align;
    lemma_fundamental_div_mod(x, align);
    if r != 0 {
        assert(0 <= r < align) by {
            lemma_fundamental_div_mod(x, align);
        }
        let q = x / align;
        assert(x + align - r == align * (q + 1)) by (nonlinear_arith)
            requires
                x == align * q + r,
        ;
        assert((align * (q + 1)) % align == 0) by (nonlinear_arith)
            requires
                align >= 1,
        ;
    }
}

/// A power of two that fits in `usize` is at most one more than half of
/// `usize::MAX`; in particular rounding a value no greater than
/// `usize::MAX / 2` up to such an alignment cannot overflow.
pub proof fn lemma_pow2_fits_usize(a: usize)
    requires
        is_pow2(a as int),
    ensures
        a <= usize::MAX / 2 + 1,
{
    is_pow2_equiv(a as int);
    let n = choose|n: nat| vstd::arithmetic::power::pow(2, n) == a as int;
    assert(pow2(n) == a);
    vstd::layout::unsigned_int_max_values();
    let bits = usize::BITS as nat;
    assert(usize::MAX as nat == pow2(bits) - 1);
    if n >= bits {
        if n > bits {
            lemma_pow2_strictly_increases(bits, n);
        }
        assert(pow2(n) >= pow2(bits));
        assert(false);
    }
    assert(n <= bits - 1);
    if n < bits - 1 {
        lemma_pow2_strictly_increases(n, (bits - 1) as nat);
    }
    assert(pow2(n) <= pow2((bits - 1) as nat));
    lemma_pow2_adds((bits - 1) as nat, 1);
    assert(pow2(bits) == pow2((bits - 1) as nat) * pow2(1));
    assert(pow2(1) == 2) by {
        vstd::arithmetic::power2::lemma2_to64();
    }
    assert(usize::MAX / 2 + 1 >= pow2((bits - 1) as nat)) by {
        assert(pow2(bits) == 2 * pow2((bits - 1) as nat));
        assert(usize::MAX as nat == 2 * pow2((bits - 1) as nat) - 1);
    }
}

/// Rounds `x` up to the next multiple of `align`.
pub fn round_up_to(x: usize, align: usize) -> (r: usize)
    requires
        align >= 1,
        spec_round_up(x as int, align as int) <= usize::MAX,
    ensures
        r == spec_round_up(x as int, align as int),
        r >= x,
        r % align == 0,
        r < x + align,
{
    proof {
        lemma_round_up(x as int, align as int);
    }
    let rem = x % align;
    if rem == 0 {
        x
    } else {
        x + (align - rem)
    }
}

/// A size/alignment pair describing a storage request.
#[derive(Clone, Copy, Debug, PartialEq, Eq, Hash, Structural)]
pub struct Layout {
    /// The expected size of the allocation, in bytes.
    pub size: usize,
    /// The expected alignment of the allocation.
    pub align: usize,
}

impl Layout {
    /// A layout is well formed when its alignment is a power of two (and
    /// hence nonzero).
    pub open spec fn wf(self) -> bool {
        &&& self.align >= 1
        &&& is_pow2(self.align as int)
    }

    /// The layout of a single value of type `T`.
    pub fn of<T: Sized>() -> (r: Layout)
        ensures
            r.size == size_of::<T>(),
            r.align == align_of::<T>(),
            r.wf(),
            r.size <= usize::MAX / 2,
            r.size % r.align == 0,
    {
        proof {
            broadcast use vstd::layout::align_properties;

            lemma_is_pow2_nonzero(align_of::<T>() as int);
        }
        layout_for_type_is_valid::<T>();
        Layout { size: core::mem::size_of::<T>(), align: core::mem::align_of::<T>() }
    }

    /// The layout of `[T; n]`.
    pub fn array<T: Sized>(n: usize) -> (r: Layout)
        requires
            size_of::<T>() * n <= usize::MAX,
        ensures
            r.size == size_of::<T>() * n,
            r.align == align_of::<T>(),
            r.wf(),
    {
        proof {
            broadcast use vstd::layout::align_properties;

            lemma_is_pow2_nonzero(align_of::<T>() as int);
        }
        layout_for_type_is_valid::<T>();
        let size = core::mem::size_of::<T>();
        Layout { size: size * n, align: core::mem::align_of::<T>() }
    }

    /// Sequential placement: pads this layout's size up to `other`'s
    /// alignment, then appends `other`'s size; the result's alignment is the
    /// larger of the two.
    pub fn concat(self, other: Self) -> (r: Layout)
        requires
            self.wf(),
            other.wf(),
            spec_round_up(self.size as int, other.align as int) + other.size <= usize::MAX,
        ensures
            r.size == spec_round_up(self.size as int, other.align as int) + other.size,
            r.align == if self.align < other.align {
                other.align
            } else {
                self.align
            },
            r.wf(),
    {
        proof {
            lemma_round_up(self.size as int, other.align as int);
        }
        let padded = round_up_to(self.size, other.align);
        let align = if self.align < other.align {
            other.align
        } else {
            self.align
        };
        Layout { size: padded + other.size, align }
    }

    /// Changes the alignment of the layout, padding the size up to a
    /// multiple of the new alignment.
    pub fn realign(self, new_align: usize) -> (r: Layout)
        requires
            new_align >= 1,
            is_pow2(new_align as int),
            spec_round_up(self.size as int, new_align as int) <= usize::MAX,
        ensures
            r.size == spec_round_up(self.size as int, new_align as int),
            r.align == new_align,
            r.wf(),
    {
        let size = round_up_to(self.size, new_align);
        Layout { size, align: new_align }
    }

    /// The first address `r >= addr` with `r % self.align == 0`.
    pub fn next_matching(self, addr: usize) -> (r: usize)
        requires
            self.wf(),
            spec_round_up(addr as int, self.align as int) <= usize::MAX,
        ensures
            r == spec_round_up(addr as int, self.align as int),
            r >= addr,
            r % self.align == 0,
    {
        round_up_to(addr, self.align)
    }
}

/// A power of two is at least 1.
pub proof fn lemma_is_pow2_nonzero(n: int)
    requires
        is_pow2(n),
    ensures
        n >= 1,
{
    is_pow2_equiv(n);
    let e = choose|e: nat| vstd::arithmetic::power::pow(2, e) == n;
    vstd::arithmetic::power::lemma_pow_positive(2, e);
}

} // verus!
