//! Small tools that the other modules share.
use vstd::prelude::*;

pub mod bytes_alloc;
pub mod metrics;
pub mod simple_map;
pub mod three_key_map;

verus! {

/// The least multiple of eight that is not below `n`.
pub open spec fn padded(n: nat) -> nat {
    (n + 7) / 8 * 8
}

/// Rounds `val` up by clearing the bits below `alignment`; where `alignment` is a power of two
/// this is the least multiple of `alignment` that is not below `val`.
pub fn align(val: usize, alignment: usize) -> (r: usize)
    requires
        alignment >= 1,
        val + (alignment - 1) <= usize::MAX,
    ensures
        r == ((val + (alignment - 1)) as usize) & !((alignment - 1) as usize),
        forall|n: nat|
            alignment == #[trigger] vstd::arithmetic::power2::pow2(n) ==> r % alignment == 0 && val
                <= r < val + alignment,
{
    let sum: usize = val + (alignment - 1);
    let mask: usize = alignment - 1;
    let r: usize = sum & !mask;
    proof {
        assert forall|n: nat|
            alignment == #[trigger] vstd::arithmetic::power2::pow2(n) implies r % alignment == 0
            && val <= r < val + alignment by {
            lemma_clear_low_bits(sum, mask, n);
        }
    }
    r
}

/// Clearing the `n` low bits of a number takes off its remainder by the `n`th power of two.
proof fn lemma_clear_low_bits(sum: usize, mask: usize, n: nat)
    requires
        mask < usize::MAX,
        mask + 1 == vstd::arithmetic::power2::pow2(n),
    ensures
        (sum & !mask) == sum - sum % ((mask + 1) as usize),
        (sum & !mask) % ((mask + 1) as usize) == 0,
{
    use_low_bits_mask(sum, mask, n);
    assert((sum & !mask) == sum - (sum & mask)) by (bit_vector);
    let m = (mask + 1) as int;
    vstd::arithmetic::div_mod::lemma_fundamental_div_mod(sum as int, m);
    vstd::arithmetic::div_mod::lemma_mod_multiples_basic(sum as int / m, m);
    vstd::arithmetic::mul::lemma_mul_is_commutative(m, sum as int / m);
}

/// A number's `n` low bits are its remainder by the `n`th power of two.
proof fn use_low_bits_mask(sum: usize, mask: usize, n: nat)
    requires
        mask < usize::MAX,
        mask + 1 == vstd::arithmetic::power2::pow2(n),
    ensures
        (sum & mask) == sum % ((mask + 1) as usize),
{
    vstd::arithmetic::power2::lemma2_to64();
    vstd::arithmetic::power2::lemma2_to64_rest();
    assert(n < usize::BITS) by {
        let top = usize::BITS as nat;
        assert(usize::MAX + 1 == vstd::arithmetic::power2::pow2(top));
        if n > top {
            vstd::arithmetic::power2::lemma_pow2_strictly_increases(top, n);
        }
    }
    vstd::bits::lemma_usize_low_bits_mask_is_mod(sum, n);
}

/// Rounds `val` up to a multiple of eight bytes.
pub fn align_to_usize(val: usize) -> (r: usize)
    requires
        val + 7 <= usize::MAX,
    ensures
        r == padded(val as nat),
{
    let r: usize = align(val, 8);
    proof {
        vstd::arithmetic::power2::lemma2_to64();
        assert(8 == vstd::arithmetic::power2::pow2(3));
    }
    r
}

/// A number that was aligned is a multiple of eight, the least that is not below the number.
pub proof fn law_padded(n: nat)
    ensures
        padded(n) % 8 == 0,
        n <= padded(n) < n + 8,
        padded(padded(n)) == padded(n),
{
}

/// Hands its argument back; marks a path that is seldom taken.
pub fn cold<T>(t: T) -> (r: T)
    ensures
        r == t,
{
    t
}

/// A key that is its own hash.
#[derive(Debug, Clone, Copy, PartialEq, Eq)]
pub struct NoHash<T>(pub T);

/// A source of sequence numbers.
pub struct Counter {
    pub inner: u32,
}

impl Counter {
    pub fn new(start: u32) -> (c: Self)
        ensures
            c.inner == start,
    {
        Self { inner: start }
    }

    /// Increments the inner value by 1, then returns the previous value.
    pub fn increment(&mut self) -> (prev: u32)
        requires
            old(self).inner < u32::MAX,
        ensures
            prev == old(self).inner,
            final(self).inner == old(self).inner + 1,
    {
        let prev: u32 = self.inner;
        self.inner = self.inner + 1;
        prev
    }
}

} // verus!
