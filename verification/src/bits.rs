//! Bit-sequence utilities: reading a sequence of bits, most-significant
//! bit first, as an unsigned integer, and concatenating bit vectors.

use vstd::prelude::*;
use vstd::arithmetic::power2::{pow2, lemma2_to64, lemma_pow2_unfold};

verus! {

/// The unsigned integer value of a bit sequence read most-significant
/// bit first: the fold `acc = acc * 2 + bit` over the sequence.
pub open spec fn bits_to_nat(bits: Seq<bool>) -> nat
    decreases bits.len(),
{
    if bits.len() == 0 {
        0
    } else {
        2 * bits_to_nat(bits.drop_last()) + (if bits.last() {
            1nat
        } else {
            0nat
        })
    }
}

/// Reading one more bit doubles the prefix value and adds the new bit.
pub proof fn lemma_bits_to_nat_prefix_step(s: Seq<bool>, i: int)
    requires
        0 <= i < s.len(),
    ensures
        bits_to_nat(s.subrange(0, i + 1)) == 2 * bits_to_nat(s.subrange(0, i)) + (if s[i] {
            1nat
        } else {
            0nat
        }),
{
    assert(s.subrange(0, i + 1).drop_last() =~= s.subrange(0, i));
    assert(s.subrange(0, i + 1).last() == s[i]);
}

/// A prefix of a bit sequence never has a larger value than the whole.
pub proof fn lemma_bits_to_nat_prefix_le(s: Seq<bool>, i: int)
    requires
        0 <= i <= s.len(),
    ensures
        bits_to_nat(s.subrange(0, i)) <= bits_to_nat(s),
    decreases s.len() - i,
{
    if i == s.len() {
        assert(s.subrange(0, i) =~= s);
    } else {
        lemma_bits_to_nat_prefix_step(s, i);
        lemma_bits_to_nat_prefix_le(s, i + 1);
    }
}

/// A sequence of `n` bits denotes a value below `2^n`.
pub proof fn lemma_bits_to_nat_bound(s: Seq<bool>)
    ensures
        bits_to_nat(s) < pow2(s.len()),
    decreases s.len(),
{
    if s.len() == 0 {
        lemma2_to64();
    } else {
        lemma_bits_to_nat_bound(s.drop_last());
        lemma_pow2_unfold(s.len());
    }
}

/// The unsigned integer held in a bit slice, most-significant bit first.
pub fn to_u32(bits: &[bool]) -> (r: u32)
    requires
        bits_to_nat(bits@) <= u32::MAX,
    ensures
        r == bits_to_nat(bits@),
{
    let mut acc: u32 = 0;
    let mut i: usize = 0;
    while i < bits.len()
        invariant
            i <= bits@.len(),
            bits_to_nat(bits@) <= u32::MAX,
            acc == bits_to_nat(bits@.subrange(0, i as int)),
        decreases bits@.len() - i,
    {
        proof {
            lemma_bits_to_nat_prefix_step(bits@, i as int);
            lemma_bits_to_nat_prefix_le(bits@, i as int + 1);
        }
        let bit: u32 = if bits[i] {
            1
        } else {
            0
        };
        acc = acc * 2 + bit;
        i = i + 1;
    }
    proof {
        assert(bits@.subrange(0, bits@.len() as int) =~= bits@);
    }
    acc
}

/// The concatenation of two vectors, the first one's items first.
pub fn concat<T: Copy>(a: &Vec<T>, b: &Vec<T>) -> (r: Vec<T>)
    ensures
        r@ == a@ + b@,
{
    let mut r: Vec<T> = Vec::new();
    let mut i: usize = 0;
    while i < a.len()
        invariant
            i <= a@.len(),
            r@ == a@.subrange(0, i as int),
        decreases a@.len() - i,
    {
        r.push(a[i]);
        proof {
            assert(r@ =~= a@.subrange(0, i as int + 1));
        }
        i = i + 1;
    }
    proof {
        assert(a@.subrange(0, a@.len() as int) =~= a@);
        assert(a@ + b@.subrange(0, 0) =~= a@);
    }
    let mut j: usize = 0;
    while j < b.len()
        invariant
            j <= b@.len(),
            r@ == a@ + b@.subrange(0, j as int),
        decreases b@.len() - j,
    {
        r.push(b[j]);
        proof {
            assert(r@ =~= a@ + b@.subrange(0, j as int + 1));
        }
        j = j + 1;
    }
    proof {
        assert(a@ + b@.subrange(0, b@.len() as int) =~= a@ + b@);
    }
    r
}

} // verus!
