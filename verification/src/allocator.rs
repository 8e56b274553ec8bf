//! Shared pieces of the allocation subsystem: the `Layout` request
//! description and the power-of-two alignment arithmetic that every
//! strategy's hot path uses.

pub mod bump;
pub mod fixed_size_block;
pub mod linked_list;

use vstd::prelude::*;
use vstd::arithmetic::power2::{pow2, lemma2_to64, lemma_pow2_strictly_increases};
use vstd::arithmetic::div_mod::{
    lemma_fundamental_div_mod, lemma_mod_bound, lemma_mod_multiples_basic,
};
use vstd::arithmetic::mul::lemma_mul_is_commutative;
use vstd::bits::{low_bits_mask, lemma_usize_low_bits_mask_is_mod};
use vstd::layout::unsigned_int_max_values;

verus! {

/// True when `a` is a power of two.
pub open spec fn is_power_of_two(a: nat) -> bool
    decreases a,
{
    if a == 0 {
        false
    } else if a == 1 {
        true
    } else {
        a % 2 == 0 && is_power_of_two(a / 2)
    }
}

/// Every power of two is `pow2` of some exponent; the proof hands the
/// exponent back so callers can connect to vstd's `pow2` lemmas.
pub proof fn lemma_power_of_two_exponent(a: nat) -> (k: nat)
    requires
        is_power_of_two(a),
    ensures
        a == pow2(k),
    decreases a,
{
    if a == 1 {
        assert(pow2(0) == 1) by {
            lemma2_to64();
        }
        0
    } else {
        let k1 = lemma_power_of_two_exponent(a / 2);
        assert(pow2(k1 + 1) == 2 * pow2(k1)) by {
            vstd::arithmetic::power2::lemma_pow2_unfold(k1 + 1);
        }
        k1 + 1
    }
}

/// The powers of two the size classes and node alignments use.
pub proof fn lemma_small_powers_of_two()
    ensures
        is_power_of_two(1),
        is_power_of_two(2),
        is_power_of_two(4),
        is_power_of_two(8),
        is_power_of_two(16),
        is_power_of_two(32),
        is_power_of_two(64),
        is_power_of_two(128),
        is_power_of_two(256),
        is_power_of_two(512),
        is_power_of_two(1024),
        is_power_of_two(2048),
{
    reveal_with_fuel(is_power_of_two, 13);
}

/// A smaller power of two divides a larger one.
pub proof fn lemma_pow2_divides(a: nat, b: nat)
    requires
        is_power_of_two(a),
        is_power_of_two(b),
        a <= b,
    ensures
        b % a == 0,
{
    let i = lemma_power_of_two_exponent(a);
    let j = lemma_power_of_two_exponent(b);
    if j < i {
        lemma_pow2_strictly_increases(j, i);
    }
    assert(pow2(j) == pow2(i) * pow2((j - i) as nat)) by {
        vstd::arithmetic::power2::lemma_pow2_adds(i, (j - i) as nat);
    }
    lemma_mod_multiples_basic(pow2((j - i) as nat) as int, a as int);
    lemma_mul_is_commutative(pow2((j - i) as nat) as int, a as int);
}

/// Divisibility is transitive: a multiple of `b` is a multiple of every
/// divisor of `b`.
pub proof fn lemma_divides_trans(x: int, b: int, a: int)
    requires
        a > 0,
        b > 0,
        x >= 0,
        x % b == 0,
        b % a == 0,
    ensures
        x % a == 0,
{
    lemma_fundamental_div_mod(x, b);
    lemma_fundamental_div_mod(b, a);
    let q = x / b;
    let p = b / a;
    assert(x == (a * p) * q);
    assert((a * p) * q == (p * q) * a) by (nonlinear_arith);
    lemma_mod_multiples_basic(p * q, a);
}

/// Describes one allocation request: a byte count and a power-of-two
/// alignment. The alignment being a power of two is a caller-enforced
/// precondition (`valid`), never validated defensively.
#[derive(Clone, Copy, PartialEq, Eq, Structural, Debug)]
pub struct Layout {
    pub size: usize,
    pub align: usize,
}

impl Layout {
    /// The invariant every allocation request carries: a power-of-two
    /// alignment.
    pub open spec fn valid(self) -> bool {
        is_power_of_two(self.align as nat)
    }

    pub fn new(size: usize, align: usize) -> (r: Layout)
        requires
            is_power_of_two(align as nat),
        ensures
            r == (Layout { size, align }),
            r.valid(),
    {
        Layout { size, align }
    }
}

/// The smallest multiple of `align` that is at least `addr`.
pub open spec fn align_up_spec(addr: int, align: int) -> int
    recommends
        align > 0,
{
    ((addr + align - 1) / align) * align
}

/// `align_up_spec` really is the round-up: a multiple of `align` in the
/// half-open window `[addr, addr + align)`.
pub proof fn lemma_align_up_spec_properties(addr: int, align: int)
    requires
        align > 0,
        addr >= 0,
    ensures
        align_up_spec(addr, align) % align == 0,
        addr <= align_up_spec(addr, align) < addr + align,
{
    let x = addr + align - 1;
    lemma_fundamental_div_mod(x, align);
    lemma_mod_bound(x, align);
    lemma_mod_multiples_basic(x / align, align);
    lemma_mul_is_commutative(x / align, align);
}

/// A value that is a multiple of `align` and lies in `[addr, addr + align)`
/// can only be the round-up itself.
pub proof fn lemma_align_up_unique(addr: int, align: int, r: int)
    requires
        align > 0,
        addr >= 0,
        r % align == 0,
        addr <= r < addr + align,
    ensures
        r == align_up_spec(addr, align),
{
    lemma_align_up_spec_properties(addr, align);
    let s = align_up_spec(addr, align);
    if r != s {
        lemma_fundamental_div_mod(r, align);
        lemma_fundamental_div_mod(s, align);
        let qr = r / align;
        let qs = s / align;
        assert(r == align * qr);
        assert(s == align * qs);
        assert(qr != qs);
        if qr < qs {
            assert(align * qr <= align * (qs - 1)) by (nonlinear_arith)
                requires
                    align > 0,
                    qr <= qs - 1,
            ;
            assert(align * (qs - 1) == align * qs - align) by (nonlinear_arith);
            assert(r <= s - align);
        } else {
            assert(align * qs <= align * (qr - 1)) by (nonlinear_arith)
                requires
                    align > 0,
                    qs <= qr - 1,
            ;
            assert(align * (qr - 1) == align * qr - align) by (nonlinear_arith);
            assert(s <= r - align);
        }
    }
}

/// When `addr + align - 1` wraps the address space, there is no multiple of
/// `align` between `addr` and `usize::MAX` at all, so the round-up lies
/// beyond the address space. (This holds because `usize::MAX + 1` is itself
/// a multiple of every power of two that fits in a `usize`.)
pub proof fn lemma_align_up_exceeds(addr: int, align: int)
    requires
        is_power_of_two(align as nat),
        0 <= addr <= usize::MAX,
        align <= usize::MAX,
        addr + align - 1 > usize::MAX,
    ensures
        align_up_spec(addr, align) > usize::MAX,
{
    let k = lemma_power_of_two_exponent(align as nat);
    assert(k < usize::BITS) by {
        unsigned_int_max_values();
        if k == usize::BITS as nat {
            assert(pow2(k) == usize::MAX + 1);
        } else if k > usize::BITS as nat {
            lemma_pow2_strictly_increases(usize::BITS as nat, k);
        }
    }
    lemma_align_up_spec_properties(addr, align);
    let r = align_up_spec(addr, align);
    if r <= usize::MAX {
        // usize::MAX + 1 is a multiple of align as well.
        assert(pow2(usize::BITS as nat) == pow2(k) * pow2((usize::BITS - k) as nat)) by {
            vstd::arithmetic::power2::lemma_pow2_adds(k, (usize::BITS - k) as nat);
        }
        unsigned_int_max_values();
        let p = pow2((usize::BITS - k) as nat) as int;
        assert(usize::MAX + 1 == align * p);
        lemma_fundamental_div_mod(r, align);
        let q = r / align;
        assert(r == align * q);
        // Two multiples of align less than align apart must coincide,
        // but r < usize::MAX + 1 <= r + align makes them distinct.
        assert(align * p - align * q == align * (p - q)) by (nonlinear_arith);
        assert(0 < align * (p - q) < align);
        assert(p - q >= 1) by (nonlinear_arith)
            requires
                align > 0,
                align * (p - q) > 0,
        ;
        assert(align * (p - q) >= align) by (nonlinear_arith)
            requires
                align > 0,
                p - q >= 1,
        ;
    }
}

/// Align the given address upwards to `alignment`.
///
/// Mask arithmetic only, no division or modulo: adding `alignment - 1` and
/// clearing the low bits rounds up to the next multiple of the power of two.
pub fn align_up(addr: usize, alignment: usize) -> (r: usize)
    requires
        is_power_of_two(alignment as nat),
        addr + alignment - 1 <= usize::MAX,
    ensures
        r == align_up_spec(addr as int, alignment as int),
        r % alignment == 0,
        addr <= r < addr + alignment,
{
    let ones_below = alignment - 1;
    let align_down_mask = !ones_below;
    let x = addr + ones_below;
    let r = x & align_down_mask;
    proof {
        let k = lemma_power_of_two_exponent(alignment as nat);
        assert(k < usize::BITS) by {
            unsigned_int_max_values();
            if k == usize::BITS as nat {
                assert(pow2(k) == usize::MAX + 1);
            } else if k > usize::BITS as nat {
                lemma_pow2_strictly_increases(usize::BITS as nat, k);
            }
        }
        assert(ones_below == low_bits_mask(k) as usize);
        lemma_usize_low_bits_mask_is_mod(x, k);
        assert((x & (ones_below as usize)) + (x & !(ones_below as usize)) == x)
            by (bit_vector);
        assert(r == x - x % alignment);
        lemma_fundamental_div_mod(x as int, alignment as int);
        lemma_mul_is_commutative(x as int / alignment as int, alignment as int);
        assert(r == align_up_spec(addr as int, alignment as int));
        lemma_align_up_spec_properties(addr as int, alignment as int);
    }
    r
}

} // verus!
