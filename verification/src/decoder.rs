//! The decoder proper: partitioning a bit sequence into sign, exponent
//! and significand fields, recovering the biased exponent, and assembling
//! the exact decoded value.
//!
//! A decoded value is kept exact as `(-1)^negative * mantissa * 2^exponent`,
//! where `mantissa` is the significand scaled by `2^significand_size`
//! (the implicit leading bit followed by the stored fraction bits, read as
//! an integer). Equivalently, its magnitude is the fraction
//! `magnitude_numerator / magnitude_denominator`.

use vstd::prelude::*;
use vstd::arithmetic::power2::{
    pow2,
    lemma2_to64,
    lemma2_to64_rest,
    lemma_pow2_pos,
    lemma_pow2_unfold,
    lemma_pow2_strictly_increases,
};
use vstd::bits::{lemma_u32_shl_is_mul, lemma_u32_pow2_no_overflow};
use vstd::slice::slice_subrange;
use crate::bits::{bits_to_nat, to_u32, lemma_bits_to_nat_prefix_step, lemma_bits_to_nat_bound};

verus! {

/// Widest exponent field accepted: its raw value and its bias must fit in `u32`.
pub const MAX_EXPONENT_SIZE: usize = 32;

/// Widest significand field accepted: the mantissa, with its implicit
/// leading bit, must fit in `u64`.
pub const MAX_SIGNIFICAND_SIZE: usize = 63;

/// Why a bit sequence was rejected instead of decoded.
#[derive(Clone, Copy, Debug, PartialEq, Eq, Structural)]
pub enum DecodeError {
    /// The bit sequence's length is not `1 + exponent_size + significand_size`.
    LayoutError,
    /// The field widths are unusable: a zero-width exponent has no bias,
    /// or a field is wider than the machine integers carry.
    ConfigError,
}

/// The number of bits a layout calls for: one sign bit plus the two fields.
pub open spec fn total_width(exponent_size: usize, significand_size: usize) -> int {
    1 + exponent_size + significand_size
}

/// The field widths the decoder accepts.
pub open spec fn valid_widths(exponent_size: usize, significand_size: usize) -> bool {
    &&& 1 <= exponent_size <= MAX_EXPONENT_SIZE
    &&& significand_size <= MAX_SIGNIFICAND_SIZE
}

/// The exponent bias of a layout: `2^(exponent_size - 1) - 1`.
pub open spec fn spec_bias(exponent_size: nat) -> nat
    recommends
        exponent_size >= 1,
{
    (pow2((exponent_size - 1) as nat) - 1) as nat
}

/// The sign bit; `true` encodes a negative value.
pub open spec fn spec_sign_bit(bits: Seq<bool>) -> bool {
    bits[0]
}

/// The exponent field: the bits right after the sign bit.
pub open spec fn spec_exponent_field(bits: Seq<bool>, exponent_size: nat) -> Seq<bool> {
    bits.subrange(1, 1 + exponent_size as int)
}

/// The significand field: the bits after the exponent field.
pub open spec fn spec_significand_field(
    bits: Seq<bool>,
    exponent_size: nat,
    significand_size: nat,
) -> Seq<bool> {
    bits.subrange(1 + exponent_size as int, 1 + exponent_size as int + significand_size as int)
}

/// The exponent field read as an unsigned integer.
pub open spec fn spec_raw_exponent(bits: Seq<bool>, exponent_size: nat) -> nat {
    bits_to_nat(spec_exponent_field(bits, exponent_size))
}

/// The unbiased exponent: the raw exponent minus the bias. May be negative.
pub open spec fn spec_unbiased_exponent(bits: Seq<bool>, exponent_size: nat) -> int {
    spec_raw_exponent(bits, exponent_size) - spec_bias(exponent_size)
}

/// The significand scaled by `2^significand_size`: the implicit leading 1
/// followed by the stored fraction bits, read as an integer. The significand
/// itself is `spec_mantissa / 2^significand_size`, a value in [1, 2).
pub open spec fn spec_mantissa(
    bits: Seq<bool>,
    exponent_size: nat,
    significand_size: nat,
) -> nat {
    pow2(significand_size) + bits_to_nat(
        spec_significand_field(bits, exponent_size, significand_size),
    )
}

/// Numerator of the decoded magnitude as an exact fraction:
/// `|value| == spec_magnitude_numerator / spec_magnitude_denominator`,
/// since `|value| == mantissa * 2^(raw - bias - significand_size)`.
pub open spec fn spec_magnitude_numerator(
    bits: Seq<bool>,
    exponent_size: nat,
    significand_size: nat,
) -> nat {
    spec_mantissa(bits, exponent_size, significand_size) * pow2(
        spec_raw_exponent(bits, exponent_size),
    )
}

/// Denominator of the decoded magnitude as an exact fraction. It depends
/// only on the layout, never on the bits.
pub open spec fn spec_magnitude_denominator(exponent_size: nat, significand_size: nat) -> nat
    recommends
        exponent_size >= 1,
{
    pow2(spec_bias(exponent_size) + significand_size)
}

/// The exact decoded value `(-1)^negative * mantissa * 2^exponent`.
///
/// `mantissa` is the significand scaled by `2^significand_size`, and
/// `exponent` is the unbiased exponent minus `significand_size`, so the
/// product is exactly `sign * 2^unbiased_exponent * significand`.
#[derive(Clone, Copy, Debug, PartialEq, Eq, Structural)]
pub struct DecodedValue {
    /// Whether the sign bit was set; `true` means the value is negative.
    pub negative: bool,
    /// The significand scaled to an integer: `2^significand_size +
    /// bits_to_nat(significand field)`.
    pub mantissa: u64,
    /// The power of two the mantissa is multiplied by:
    /// `raw_exponent - bias - significand_size`.
    pub exponent: i64,
}

/// A bit sequence together with the layout that partitions it.
pub struct FloatingPointNumber {
    /// The full bit sequence: sign bit, exponent field, significand field.
    pub bits: Vec<bool>,
    /// The number of bits in the exponent field.
    pub exponent_size: usize,
    /// The number of bits in the significand field.
    pub significand_size: usize,
    /// The exponent bias, `2^(exponent_size - 1) - 1`, fixed by the layout.
    pub bias: u32,
    /// The total width, `1 + exponent_size + significand_size`.
    pub size: usize,
}

impl FloatingPointNumber {
    /// Well-formedness: the widths are usable, the derived fields agree
    /// with them, and the bit sequence has exactly the layout's width.
    pub open spec fn wf(&self) -> bool {
        &&& valid_widths(self.exponent_size, self.significand_size)
        &&& self.size == total_width(self.exponent_size, self.significand_size)
        &&& self.bits@.len() == self.size
        &&& self.bias == spec_bias(self.exponent_size as nat)
    }

    /// Checks the bit sequence against the layout and packages the two.
    /// Rejects a sequence whose length is not `1 + exponent_size +
    /// significand_size` with `LayoutError`, and unusable field widths
    /// (a zero-width exponent, or a field too wide for the machine
    /// integers) with `ConfigError`.
    pub fn new(bits: Vec<bool>, exponent_size: usize, significand_size: usize) -> (r: Result<
        Self,
        DecodeError,
    >)
        ensures
            (match r {
                Ok(n) => {
                    &&& bits@.len() == total_width(exponent_size, significand_size)
                    &&& valid_widths(exponent_size, significand_size)
                    &&& n.wf()
                    &&& n.bits@ == bits@
                    &&& n.exponent_size == exponent_size
                    &&& n.significand_size == significand_size
                },
                Err(DecodeError::LayoutError) => bits@.len() != total_width(
                    exponent_size,
                    significand_size,
                ),
                Err(DecodeError::ConfigError) => bits@.len() == total_width(
                    exponent_size,
                    significand_size,
                ) && !valid_widths(exponent_size, significand_size),
            }),
    {
        let len: usize = bits.len();
        if exponent_size > usize::MAX - 1 || significand_size > usize::MAX - 1 - exponent_size {
            return Err(DecodeError::LayoutError);
        }
        let size: usize = 1 + exponent_size + significand_size;
        if len != size {
            return Err(DecodeError::LayoutError);
        }
        if exponent_size == 0 || exponent_size > MAX_EXPONENT_SIZE || significand_size
            > MAX_SIGNIFICAND_SIZE {
            return Err(DecodeError::ConfigError);
        }
        proof {
            lemma_u32_pow2_no_overflow((exponent_size - 1) as nat);
            lemma_u32_shl_is_mul(1u32, (exponent_size - 1) as u32);
        }
        let bias: u32 = (1u32 << ((exponent_size - 1) as u32)) - 1;
        Ok(FloatingPointNumber { bits, exponent_size, significand_size, bias, size })
    }

    /// The sign bit; `true` encodes a negative value.
    pub fn sign(&self) -> (r: bool)
        requires
            self.wf(),
        ensures
            r == spec_sign_bit(self.bits@),
    {
        self.bits[0]
    }

    /// The exponent field: the `exponent_size` bits after the sign bit,
    /// most-significant bit first.
    pub fn exponent_bits(&self) -> (r: &[bool])
        requires
            self.wf(),
        ensures
            r@ == spec_exponent_field(self.bits@, self.exponent_size as nat),
    {
        slice_subrange(self.bits.as_slice(), 1, self.exponent_size + 1)
    }

    /// The significand field: the trailing `significand_size` bits,
    /// most-significant bit first.
    pub fn significand_bits(&self) -> (r: &[bool])
        requires
            self.wf(),
        ensures
            r@ == spec_significand_field(
                self.bits@,
                self.exponent_size as nat,
                self.significand_size as nat,
            ),
    {
        slice_subrange(self.bits.as_slice(), self.exponent_size + 1, self.size)
    }

    /// The unbiased exponent: the exponent field read as an unsigned
    /// integer, minus the bias. May be negative; with the exponent field
    /// at most 32 bits wide it always fits well inside `i64`.
    pub fn exponent(&self) -> (r: i64)
        requires
            self.wf(),
        ensures
            r == spec_unbiased_exponent(self.bits@, self.exponent_size as nat),
            -(u32::MAX as int) <= r <= u32::MAX,
    {
        let exp_bits = self.exponent_bits();
        proof {
            lemma_bits_to_nat_bound(exp_bits@);
            lemma2_to64();
            if exp_bits@.len() < 32 {
                lemma_pow2_strictly_increases(exp_bits@.len(), 32);
            }
        }
        let raw: u32 = to_u32(exp_bits);
        raw as i64 - self.bias as i64
    }

    /// The significand scaled to an integer: the implicit leading 1
    /// followed by the stored fraction bits, read most-significant bit
    /// first. The significand proper is this value divided by
    /// `2^significand_size`.
    pub fn significand_mantissa(&self) -> (r: u64)
        requires
            self.wf(),
        ensures
            r == spec_mantissa(
                self.bits@,
                self.exponent_size as nat,
                self.significand_size as nat,
            ),
    {
        let sig_bits = self.significand_bits();
        let mut acc: u64 = 1;
        let mut i: usize = 0;
        proof {
            lemma2_to64();
        }
        while i < sig_bits.len()
            invariant
                i <= sig_bits@.len(),
                sig_bits@.len() <= MAX_SIGNIFICAND_SIZE,
                acc == pow2(i as nat) + bits_to_nat(sig_bits@.subrange(0, i as int)),
            decreases sig_bits@.len() - i,
        {
            proof {
                lemma_bits_to_nat_prefix_step(sig_bits@, i as int);
                lemma_bits_to_nat_bound(sig_bits@.subrange(0, i as int + 1));
                lemma_pow2_unfold((i + 1) as nat);
                if i + 1 < 63 {
                    lemma_pow2_strictly_increases((i + 1) as nat, 63);
                }
                lemma2_to64_rest();
            }
            let bit: u64 = if sig_bits[i] {
                1
            } else {
                0
            };
            acc = acc * 2 + bit;
            i = i + 1;
        }
        proof {
            assert(sig_bits@.subrange(0, sig_bits@.len() as int) =~= sig_bits@);
        }
        acc
    }

    /// Decodes the bit sequence into the exact value
    /// `(-1)^negative * mantissa * 2^exponent`, which equals
    /// `sign_factor * 2^unbiased_exponent * significand`.
    pub fn decode(&self) -> (r: DecodedValue)
        requires
            self.wf(),
        ensures
            r.negative == spec_sign_bit(self.bits@),
            r.mantissa == spec_mantissa(
                self.bits@,
                self.exponent_size as nat,
                self.significand_size as nat,
            ),
            r.exponent == spec_unbiased_exponent(self.bits@, self.exponent_size as nat)
                - self.significand_size,
    {
        let negative = self.sign();
        let unbiased: i64 = self.exponent();
        let mantissa = self.significand_mantissa();
        let exponent: i64 = unbiased - self.significand_size as i64;
        DecodedValue { negative, mantissa, exponent }
    }
}

/// Decodes one bit sequence under the given layout: checks the layout,
/// partitions the sequence, and assembles the exact value
/// `(-1)^negative * mantissa * 2^exponent`. Fails with `LayoutError`
/// exactly when the sequence's length is not `1 + exponent_size +
/// significand_size`, and with `ConfigError` exactly when the length
/// matches but the widths are unusable.
pub fn decode(bits: Vec<bool>, exponent_size: usize, significand_size: usize) -> (r: Result<
    DecodedValue,
    DecodeError,
>)
    ensures
        (match r {
            Ok(d) => {
                &&& bits@.len() == total_width(exponent_size, significand_size)
                &&& valid_widths(exponent_size, significand_size)
                &&& d.negative == spec_sign_bit(bits@)
                &&& d.mantissa == spec_mantissa(bits@, exponent_size as nat, significand_size as nat)
                &&& d.exponent == spec_unbiased_exponent(bits@, exponent_size as nat)
                    - significand_size
            },
            Err(DecodeError::LayoutError) => bits@.len() != total_width(
                exponent_size,
                significand_size,
            ),
            Err(DecodeError::ConfigError) => bits@.len() == total_width(
                exponent_size,
                significand_size,
            ) && !valid_widths(exponent_size, significand_size),
        }),
{
    match FloatingPointNumber::new(bits, exponent_size, significand_size) {
        Ok(n) => Ok(n.decode()),
        Err(err) => Err(err),
    }
}

/// The sign bit flips the result: two bit sequences that agree everywhere
/// but on the sign bit decode to the same mantissa and the same exponent —
/// the same magnitude — and only the sign differs, so the value with the
/// sign bit set is exactly the negation of the other.
pub proof fn lemma_sign_flips_result(
    pos: Seq<bool>,
    neg: Seq<bool>,
    exponent_size: nat,
    significand_size: nat,
)
    requires
        1 <= exponent_size,
        pos.len() == 1 + exponent_size + significand_size,
        neg.len() == 1 + exponent_size + significand_size,
        !pos[0],
        neg[0],
        forall|i: int| 1 <= i < pos.len() ==> pos[i] == neg[i],
    ensures
        spec_mantissa(neg, exponent_size, significand_size) == spec_mantissa(
            pos,
            exponent_size,
            significand_size,
        ),
        spec_unbiased_exponent(neg, exponent_size) == spec_unbiased_exponent(pos, exponent_size),
        spec_magnitude_numerator(neg, exponent_size, significand_size)
            == spec_magnitude_numerator(pos, exponent_size, significand_size),
        spec_sign_bit(neg) && !spec_sign_bit(pos),
{
    assert(spec_exponent_field(neg, exponent_size) =~= spec_exponent_field(pos, exponent_size));
    assert(spec_significand_field(neg, exponent_size, significand_size)
        =~= spec_significand_field(pos, exponent_size, significand_size));
}

/// An empty significand field contributes the multiplicative identity:
/// the mantissa is exactly 1, so the decoded value is
/// `sign_factor * 2^unbiased_exponent * 1`.
pub proof fn lemma_zero_significand_is_identity(bits: Seq<bool>, exponent_size: nat)
    requires
        1 <= exponent_size,
        bits.len() == 1 + exponent_size,
    ensures
        spec_mantissa(bits, exponent_size, 0) == 1,
        spec_magnitude_numerator(bits, exponent_size, 0) == pow2(
            spec_raw_exponent(bits, exponent_size),
        ),
{
    assert(spec_significand_field(bits, exponent_size, 0) =~= Seq::<bool>::empty());
    lemma2_to64();
}

/// Monotonicity in the raw exponent: with the significand field held
/// fixed, raising the raw exponent field's integer value by one doubles
/// the decoded magnitude. The numerator of the exact fraction doubles
/// while the denominator, which depends only on the layout, is unchanged;
/// and the magnitude is never zero, so the step is a strict increase.
pub proof fn lemma_raw_exponent_monotonic(
    lo: Seq<bool>,
    hi: Seq<bool>,
    exponent_size: nat,
    significand_size: nat,
)
    requires
        1 <= exponent_size,
        lo.len() == 1 + exponent_size + significand_size,
        hi.len() == 1 + exponent_size + significand_size,
        spec_significand_field(hi, exponent_size, significand_size) == spec_significand_field(
            lo,
            exponent_size,
            significand_size,
        ),
        spec_raw_exponent(hi, exponent_size) == spec_raw_exponent(lo, exponent_size) + 1,
    ensures
        spec_magnitude_numerator(hi, exponent_size, significand_size) == 2
            * spec_magnitude_numerator(lo, exponent_size, significand_size),
        spec_magnitude_numerator(lo, exponent_size, significand_size) > 0,
{
    let m = spec_mantissa(lo, exponent_size, significand_size);
    let raw = spec_raw_exponent(lo, exponent_size);
    lemma_pow2_unfold(raw + 1);
    lemma_pow2_pos(raw);
    lemma_pow2_pos(significand_size);
    assert(spec_mantissa(hi, exponent_size, significand_size) == m);
    assert(m * pow2(raw + 1) == 2 * (m * pow2(raw))) by (nonlinear_arith)
        requires
            pow2(raw + 1) == 2 * pow2(raw),
    ;
    assert(m * pow2(raw) > 0) by (nonlinear_arith)
        requires
            m > 0,
            pow2(raw) > 0,
    ;
}

} // verus!
