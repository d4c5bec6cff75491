use bitfloat::decoder::{decode, DecodeError, DecodedValue, FloatingPointNumber};

/// Renders the exact decoded value with ordinary floating-point math.
fn to_f64(d: &DecodedValue) -> f64 {
    let sign = if d.negative { -1.0 } else { 1.0 };
    sign * (d.mantissa as f64) * 2f64.powi(d.exponent as i32)
}

#[test]
fn test_as_f64() {
    let bits = vec![false, true, false, false, true, true, true, false, true];

    // sign = +

    // exponent:
    // 10011 = 19
    // bias = 2^(5-1) - 1 = 15
    // exponent = 19 - 15 = 4

    // significand:
    // 101 = 1 (hidden bit) + 1/2 + 1/8 = 1.625

    let exponent_size = 5;
    let significand_size = 3;
    let number = FloatingPointNumber::new(bits, exponent_size, significand_size).unwrap();

    // 1 * 2^4 * 1.625 = 26
    assert_eq!(to_f64(&number.decode()), 26.0);
}

#[test]
fn test_hand_computed_vector_exact_parts() {
    let bits = vec![false, true, false, false, true, true, true, false, true];
    let d = decode(bits, 5, 3).unwrap();
    assert!(!d.negative);
    // 1.625 scaled by 2^3: binary 1101
    assert_eq!(d.mantissa, 13);
    // unbiased exponent 4, minus the significand width 3
    assert_eq!(d.exponent, 1);
    assert_eq!(to_f64(&d), 26.0);
}

#[test]
fn test_second_vector() {
    let sign = vec![false];
    let exponent = vec![false, false, true, true, true]; // raw 7, bias 15
    let significand = vec![true, false, true]; // 1.625 (1 + 1/2 + 1/8)
    let bits = bitfloat::bits::concat(&sign, &bitfloat::bits::concat(&exponent, &significand));
    let d = decode(bits, exponent.len(), significand.len()).unwrap();
    assert!(!d.negative);
    assert_eq!(d.mantissa, 13);
    // raw 7 - bias 15 - width 3
    assert_eq!(d.exponent, -11);
    // 1 * 2^(7 - 15) * 1.625 = 1.625 / 256
    assert_eq!(to_f64(&d), 0.00634765625);
}

#[test]
fn test_sign_flip_negates() {
    let pos = vec![false, true, false, false, true, true, true, false, true];
    let neg = vec![true, true, false, false, true, true, true, false, true];
    let dp = decode(pos, 5, 3).unwrap();
    let dn = decode(neg, 5, 3).unwrap();
    assert!(!dp.negative);
    assert!(dn.negative);
    assert_eq!(dn.mantissa, dp.mantissa);
    assert_eq!(dn.exponent, dp.exponent);
    assert_eq!(to_f64(&dn), -to_f64(&dp));
    assert_eq!(to_f64(&dn), -26.0);
}

#[test]
fn test_zero_significand_width() {
    // raw exponent 10011 = 19, bias 15, no significand bits
    let bits = vec![false, true, false, false, true, true];
    let d = decode(bits, 5, 0).unwrap();
    assert_eq!(d.mantissa, 1);
    assert_eq!(d.exponent, 4);
    assert_eq!(to_f64(&d), 16.0);
}

#[test]
fn test_length_mismatch_rejected() {
    // layout (5, 3) calls for 9 bits
    let short = vec![false; 8];
    let long = vec![false; 10];
    let empty: Vec<bool> = vec![];
    assert!(matches!(decode(short, 5, 3), Err(DecodeError::LayoutError)));
    assert!(matches!(decode(long, 5, 3), Err(DecodeError::LayoutError)));
    assert!(matches!(decode(empty, 5, 3), Err(DecodeError::LayoutError)));
    assert!(matches!(
        FloatingPointNumber::new(vec![false; 4], 5, 3),
        Err(DecodeError::LayoutError)
    ));
}

#[test]
fn test_raw_exponent_step_doubles() {
    // raw 10011 = 19 and raw 10100 = 20, same sign and significand bits
    let lo = vec![false, true, false, false, true, true, true, false, true];
    let hi = vec![false, true, false, true, false, false, true, false, true];
    let dl = decode(lo, 5, 3).unwrap();
    let dh = decode(hi, 5, 3).unwrap();
    assert_eq!(dl.mantissa, dh.mantissa);
    assert_eq!(dh.exponent, dl.exponent + 1);
    assert_eq!(to_f64(&dl), 26.0);
    assert_eq!(to_f64(&dh), 52.0);
    assert_eq!(to_f64(&dh), 2.0 * to_f64(&dl));
}

#[test]
fn test_zero_exponent_width_rejected() {
    // lengths match the layout, so only the width is at fault
    let bits = vec![false, true, false, true];
    assert!(matches!(decode(bits, 0, 3), Err(DecodeError::ConfigError)));
    let lone_sign = vec![true];
    assert!(matches!(decode(lone_sign, 0, 0), Err(DecodeError::ConfigError)));
}

#[test]
fn test_oversized_widths_rejected() {
    // an exponent field wider than 32 bits or a significand field wider
    // than 63 bits cannot be carried by the machine integers
    let bits = vec![false; 1 + 33 + 0];
    assert!(matches!(decode(bits, 33, 0), Err(DecodeError::ConfigError)));
    let bits = vec![false; 1 + 5 + 64];
    assert!(matches!(decode(bits, 5, 64), Err(DecodeError::ConfigError)));
}

#[test]
fn test_widest_accepted_layout() {
    // exponent width 32 (bias 2^31 - 1), significand width 63, all bits clear
    let bits = vec![false; 96];
    let d = decode(bits, 32, 63).unwrap();
    assert!(!d.negative);
    assert_eq!(d.mantissa, 1u64 << 63);
    assert_eq!(d.exponent, -(2147483647i64) - 63);
}

#[test]
fn test_negative_unbiased_exponent() {
    let sign = vec![false];
    let exponent = vec![false, false, true, true, true]; // raw 7
    let significand = vec![true, false, true];
    let bits = bitfloat::bits::concat(&sign, &bitfloat::bits::concat(&exponent, &significand));
    let number = FloatingPointNumber::new(bits, 5, 3).unwrap();
    assert_eq!(number.exponent(), -8);
}

#[test]
fn test_field_accessors() {
    let bits = vec![false, true, false, false, true, true, true, false, true];
    let number = FloatingPointNumber::new(bits, 5, 3).unwrap();
    assert!(!number.sign());
    assert_eq!(number.exponent_bits(), &[true, false, false, true, true]);
    assert_eq!(number.significand_bits(), &[true, false, true]);
    assert_eq!(number.exponent(), 4);
    assert_eq!(number.significand_mantissa(), 13);
}
