//! Decoder for a fixed-format binary floating-point representation:
//! a sign bit, a biased exponent field and a significand field with an
//! implicit leading bit. The decoded value is kept exact, as a sign, an
//! integer mantissa and a signed power-of-two exponent.

pub mod bits;
pub mod decoder;
