use funnel_web::float::FloatBits;

fn bits(value: f32) -> FloatBits {
    FloatBits(value.to_bits())
}

#[test]
fn round_ties_even_to_int() {
    assert_eq!(bits(0.0f32).fw_round_ties_even_to_int(), 0);
    assert_eq!(bits(1.0f32).fw_round_ties_even_to_int(), 1);
    assert_eq!(bits(2.0f32).fw_round_ties_even_to_int(), 2);
    assert_eq!(bits(3.0f32).fw_round_ties_even_to_int(), 3);
    assert_eq!(-bits(1.0f32).fw_round_ties_even_to_int(), -1);
    assert_eq!(-bits(2.0f32).fw_round_ties_even_to_int(), -2);
    assert_eq!(-bits(3.0f32).fw_round_ties_even_to_int(), -3);

    assert_eq!(bits(0.5f32).fw_round_ties_even_to_int(), 0);
    assert_eq!(-bits(0.5f32).fw_round_ties_even_to_int(), 0);
    assert_eq!(bits(1.5f32).fw_round_ties_even_to_int(), 2);
    assert_eq!(-bits(1.5f32).fw_round_ties_even_to_int(), -2);
    assert_eq!(bits(2.5f32).fw_round_ties_even_to_int(), 2);
    assert_eq!(-bits(2.5f32).fw_round_ties_even_to_int(), -2);
    assert_eq!(bits(3.5f32).fw_round_ties_even_to_int(), 4);
    assert_eq!(-bits(3.5f32).fw_round_ties_even_to_int(), -4);
    assert_eq!(bits(4.5f32).fw_round_ties_even_to_int(), 4);
    assert_eq!(-bits(4.5f32).fw_round_ties_even_to_int(), -4);

    assert_eq!(bits(0.6f32).fw_round_ties_even_to_int(), 1);
    assert_eq!(-bits(0.6f32).fw_round_ties_even_to_int(), -1);
    assert_eq!(bits(1.6f32).fw_round_ties_even_to_int(), 2);
    assert_eq!(-bits(1.6f32).fw_round_ties_even_to_int(), -2);
    assert_eq!(bits(2.6f32).fw_round_ties_even_to_int(), 3);
    assert_eq!(-bits(2.6f32).fw_round_ties_even_to_int(), -3);
    assert_eq!(bits(3.6f32).fw_round_ties_even_to_int(), 4);
    assert_eq!(-bits(3.6f32).fw_round_ties_even_to_int(), -4);
    assert_eq!(bits(4.6f32).fw_round_ties_even_to_int(), 5);
    assert_eq!(-bits(4.6f32).fw_round_ties_even_to_int(), -5);

    assert_eq!(bits(0.4f32).fw_round_ties_even_to_int(), 0);
    assert_eq!(-bits(0.4f32).fw_round_ties_even_to_int(), 0);
    assert_eq!(bits(1.4f32).fw_round_ties_even_to_int(), 1);
    assert_eq!(-bits(1.4f32).fw_round_ties_even_to_int(), -1);
    assert_eq!(bits(2.4f32).fw_round_ties_even_to_int(), 2);
    assert_eq!(-bits(2.4f32).fw_round_ties_even_to_int(), -2);
    assert_eq!(bits(3.4f32).fw_round_ties_even_to_int(), 3);
    assert_eq!(-bits(3.4f32).fw_round_ties_even_to_int(), -3);
    assert_eq!(bits(4.4f32).fw_round_ties_even_to_int(), 4);
    assert_eq!(-bits(4.4f32).fw_round_ties_even_to_int(), -4);
}

#[test]
fn round_towards_zero_to_int() {
    assert_eq!(bits(0.0f32).fw_round_towards_zero_to_int(), 0);
    assert_eq!(bits(1.0f32).fw_round_towards_zero_to_int(), 1);
    assert_eq!(bits(2.0f32).fw_round_towards_zero_to_int(), 2);
    assert_eq!(bits(3.0f32).fw_round_towards_zero_to_int(), 3);
    assert_eq!(bits(-1.0f32).fw_round_towards_zero_to_int(), -1);
    assert_eq!(bits(-2.0f32).fw_round_towards_zero_to_int(), -2);
    assert_eq!(bits(-3.0f32).fw_round_towards_zero_to_int(), -3);

    assert_eq!(bits(0.5f32).fw_round_towards_zero_to_int(), 0);
    assert_eq!(bits(-0.5f32).fw_round_towards_zero_to_int(), 0);
    assert_eq!(bits(1.5f32).fw_round_towards_zero_to_int(), 1);
    assert_eq!(bits(-1.5f32).fw_round_towards_zero_to_int(), -1);
    assert_eq!(bits(2.5f32).fw_round_towards_zero_to_int(), 2);
    assert_eq!(bits(-2.5f32).fw_round_towards_zero_to_int(), -2);
    assert_eq!(bits(3.5f32).fw_round_towards_zero_to_int(), 3);
    assert_eq!(bits(-3.5f32).fw_round_towards_zero_to_int(), -3);
    assert_eq!(bits(4.5f32).fw_round_towards_zero_to_int(), 4);
    assert_eq!(bits(-4.5f32).fw_round_towards_zero_to_int(), -4);

    assert_eq!(bits(0.6f32).fw_round_towards_zero_to_int(), 0);
    assert_eq!(bits(-0.6f32).fw_round_towards_zero_to_int(), 0);
    assert_eq!(bits(1.6f32).fw_round_towards_zero_to_int(), 1);
    assert_eq!(bits(-1.6f32).fw_round_towards_zero_to_int(), -1);
    assert_eq!(bits(2.6f32).fw_round_towards_zero_to_int(), 2);
    assert_eq!(bits(-2.6f32).fw_round_towards_zero_to_int(), -2);
    assert_eq!(bits(3.6f32).fw_round_towards_zero_to_int(), 3);
    assert_eq!(bits(-3.6f32).fw_round_towards_zero_to_int(), -3);
    assert_eq!(bits(4.6f32).fw_round_towards_zero_to_int(), 4);
    assert_eq!(bits(-4.6f32).fw_round_towards_zero_to_int(), -4);

    assert_eq!(bits(0.4f32).fw_round_towards_zero_to_int(), 0);
    assert_eq!(bits(-0.4f32).fw_round_towards_zero_to_int(), 0);
    assert_eq!(bits(1.4f32).fw_round_towards_zero_to_int(), 1);
    assert_eq!(bits(-1.4f32).fw_round_towards_zero_to_int(), -1);
    assert_eq!(bits(2.4f32).fw_round_towards_zero_to_int(), 2);
    assert_eq!(bits(-2.4f32).fw_round_towards_zero_to_int(), -2);
    assert_eq!(bits(3.4f32).fw_round_towards_zero_to_int(), 3);
    assert_eq!(bits(-3.4f32).fw_round_towards_zero_to_int(), -3);
    assert_eq!(bits(4.4f32).fw_round_towards_zero_to_int(), 4);
    assert_eq!(bits(-4.4f32).fw_round_towards_zero_to_int(), -4);
}

#[test]
fn fw_floor_to_int() {
    assert_eq!(bits(0.0f32).fw_floor_to_int(), 0);
    assert_eq!(bits(1.0f32).fw_floor_to_int(), 1);
    assert_eq!(bits(2.0f32).fw_floor_to_int(), 2);
    assert_eq!(bits(3.0f32).fw_floor_to_int(), 3);
    assert_eq!(bits(-1.0f32).fw_floor_to_int(), -1);
    assert_eq!(bits(-2.0f32).fw_floor_to_int(), -2);
    assert_eq!(bits(-3.0f32).fw_floor_to_int(), -3);

    assert_eq!(bits(0.5f32).fw_floor_to_int(), 0);
    assert_eq!(bits(-0.5f32).fw_floor_to_int(), -1);
    assert_eq!(bits(1.5f32).fw_floor_to_int(), 1);
    assert_eq!(bits(-1.5f32).fw_floor_to_int(), -2);
    assert_eq!(bits(2.5f32).fw_floor_to_int(), 2);
    assert_eq!(bits(-2.5f32).fw_floor_to_int(), -3);
    assert_eq!(bits(3.5f32).fw_floor_to_int(), 3);
    assert_eq!(bits(-3.5f32).fw_floor_to_int(), -4);
    assert_eq!(bits(4.5f32).fw_floor_to_int(), 4);
    assert_eq!(bits(-4.5f32).fw_floor_to_int(), -5);

    assert_eq!(bits(0.6f32).fw_floor_to_int(), 0);
    assert_eq!(bits(-0.6f32).fw_floor_to_int(), -1);
    assert_eq!(bits(1.6f32).fw_floor_to_int(), 1);
    assert_eq!(bits(-1.6f32).fw_floor_to_int(), -2);
    assert_eq!(bits(2.6f32).fw_floor_to_int(), 2);
    assert_eq!(bits(-2.6f32).fw_floor_to_int(), -3);
    assert_eq!(bits(3.6f32).fw_floor_to_int(), 3);
    assert_eq!(bits(-3.6f32).fw_floor_to_int(), -4);
    assert_eq!(bits(4.6f32).fw_floor_to_int(), 4);
    assert_eq!(bits(-4.6f32).fw_floor_to_int(), -5);

    assert_eq!(bits(0.4f32).fw_floor_to_int(), 0);
    assert_eq!(bits(-0.4f32).fw_floor_to_int(), -1);
    assert_eq!(bits(1.4f32).fw_floor_to_int(), 1);
    assert_eq!(bits(-1.4f32).fw_floor_to_int(), -2);
    assert_eq!(bits(2.4f32).fw_floor_to_int(), 2);
    assert_eq!(bits(-2.4f32).fw_floor_to_int(), -3);
    assert_eq!(bits(3.4f32).fw_floor_to_int(), 3);
    assert_eq!(bits(-3.4f32).fw_floor_to_int(), -4);
    assert_eq!(bits(4.4f32).fw_floor_to_int(), 4);
    assert_eq!(bits(-4.4f32).fw_floor_to_int(), -5);
}

/// Bit patterns spread over all exponents and both signs.
fn samples() -> Vec<u32> {
    let mut patterns = Vec::new();
    let mut state: u32 = 0x1234_5678;
    for _ in 0..20000 {
        state = state.wrapping_mul(1664525).wrapping_add(1013904223);
        patterns.push(state);
    }
    for exponent in 0..=255u32 {
        for fraction in [0u32, 1, 0x40_0000, 0x3F_FFFF, 0x40_0001, 0x7F_FFFF, 0x20_0000, 0x60_0000] {
            patterns.push((exponent << 23) | fraction);
            patterns.push(0x8000_0000 | (exponent << 23) | fraction);
        }
    }
    patterns
}

#[test]
fn round_towards_zero_is_the_cast_to_i32() {
    for pattern in samples() {
        let value = f32::from_bits(pattern);
        assert_eq!(FloatBits(pattern).fw_round_towards_zero_to_int(), value as i32, "{value}");
    }
}

#[test]
fn floor_is_the_floor_of_the_number() {
    for pattern in samples() {
        let value = f32::from_bits(pattern);
        let number = FloatBits(pattern);
        if value.is_nan() {
            let expected = if value.is_sign_negative() { -1 } else { 0 };
            assert_eq!(number.fw_floor_to_int(), expected);
        } else if value >= -2147483648.0 {
            assert!(number.at_least_i32_min());
            assert_eq!(number.fw_floor_to_int(), value.floor() as i32, "{value}");
        } else {
            assert!(!number.at_least_i32_min());
        }
    }
}

#[test]
fn round_ties_even_is_the_nearest_integer() {
    for pattern in samples() {
        let value = f32::from_bits(pattern);
        let number = FloatBits(pattern);
        if value >= -2147483648.0 {
            assert_eq!(number.fw_round_ties_even_to_int(), value.round_ties_even() as i32, "{value}");
        }
    }
}

#[test]
fn rounding_saturates() {
    assert_eq!(bits(3.0e9).fw_round_towards_zero_to_int(), i32::MAX);
    assert_eq!(bits(-3.0e9).fw_round_towards_zero_to_int(), i32::MIN);
    assert_eq!(bits(f32::INFINITY).fw_round_towards_zero_to_int(), i32::MAX);
    assert_eq!(bits(f32::NEG_INFINITY).fw_round_towards_zero_to_int(), i32::MIN);
    assert_eq!(bits(2147483648.0).fw_round_towards_zero_to_int(), i32::MAX);
    assert_eq!(bits(2147483520.0).fw_round_towards_zero_to_int(), 2147483520);
    assert_eq!(bits(-2147483648.0).fw_round_towards_zero_to_int(), i32::MIN);

    assert_eq!(bits(3.0e9).fw_floor_to_int(), i32::MAX);
    assert_eq!(bits(f32::INFINITY).fw_floor_to_int(), i32::MAX);
    assert_eq!(bits(-2147483648.0).fw_floor_to_int(), i32::MIN);
    assert_eq!(bits(-2147483520.0).fw_floor_to_int(), -2147483520);

    assert_eq!(bits(3.0e9).fw_round_ties_even_to_int(), i32::MAX);
    assert_eq!(bits(f32::INFINITY).fw_round_ties_even_to_int(), i32::MAX);
    assert_eq!(bits(-2147483648.0).fw_round_ties_even_to_int(), i32::MIN);
}

#[test]
fn rounding_of_what_is_no_number() {
    assert_eq!(FloatBits(0x7FC0_0000).fw_round_towards_zero_to_int(), 0);
    assert_eq!(FloatBits(0xFFC0_0000).fw_round_towards_zero_to_int(), 0);
    assert_eq!(FloatBits(0x7FC0_0000).fw_floor_to_int(), 0);
    assert_eq!(FloatBits(0xFFC0_0000).fw_floor_to_int(), -1);
    assert_eq!(FloatBits(0x7F80_0001).fw_floor_to_int(), 0);
}

#[test]
fn rounding_of_tiny_numbers() {
    assert_eq!(FloatBits(0x0000_0001).fw_floor_to_int(), 0);
    assert_eq!(FloatBits(0x8000_0001).fw_floor_to_int(), -1);
    assert_eq!(FloatBits(0x8000_0000).fw_floor_to_int(), 0);
    assert_eq!(FloatBits(0x8000_0001).fw_round_towards_zero_to_int(), 0);
    assert_eq!(FloatBits(0x8000_0001).fw_round_ties_even_to_int(), 0);
    assert_eq!(bits(0.49999997).fw_round_ties_even_to_int(), 0);
    assert_eq!(bits(0.50000006).fw_round_ties_even_to_int(), 1);
    assert_eq!(bits(-0.50000006).fw_round_ties_even_to_int(), -1);
    assert_eq!(bits(-2.5).fw_round_ties_even_to_int(), -2);
    assert_eq!(bits(-3.5).fw_round_ties_even_to_int(), -4);
    assert_eq!(bits(8388607.5).fw_round_ties_even_to_int(), 8388608);
    assert_eq!(bits(8388606.5).fw_round_ties_even_to_int(), 8388606);
    assert_eq!(bits(16777216.0).fw_round_ties_even_to_int(), 16777216);
}

#[test]
fn at_least_zero_is_the_comparison_with_zero() {
    for pattern in samples() {
        let value = f32::from_bits(pattern);
        assert_eq!(FloatBits(pattern).at_least_zero(), value >= 0.0, "{value}");
    }
    assert!(bits(0.0).at_least_zero());
    assert!(bits(-0.0).at_least_zero());
    assert!(bits(f32::INFINITY).at_least_zero());
    assert!(!bits(f32::NEG_INFINITY).at_least_zero());
    assert!(!bits(f32::NAN).at_least_zero());
    assert!(!FloatBits(0x8000_0001).at_least_zero());
}

#[test]
fn at_least_i32_min_is_the_comparison_with_it() {
    assert!(bits(-2147483648.0).at_least_i32_min());
    assert!(!bits(-2147483904.0).at_least_i32_min());
    assert!(bits(-2147483520.0).at_least_i32_min());
    assert!(bits(0.0).at_least_i32_min());
    assert!(bits(f32::INFINITY).at_least_i32_min());
    assert!(!bits(f32::NEG_INFINITY).at_least_i32_min());
    assert!(!bits(f32::NAN).at_least_i32_min());
    assert!(!FloatBits(0xFFC0_0000).at_least_i32_min());
}

#[test]
fn finite_and_absolute_value() {
    for pattern in samples() {
        let value = f32::from_bits(pattern);
        assert_eq!(FloatBits(pattern).fw_is_finite(), value.is_finite());
        assert_eq!(FloatBits(pattern).fw_fabs().0, value.abs().to_bits());
    }
    assert_eq!(bits(-1.5).fw_fabs(), bits(1.5));
    assert_eq!(bits(-0.0).fw_fabs(), bits(0.0));
}

/// The floor by way of the cast to an integer and a comparison with zero.
fn floor_by_cast(value: f32) -> i32 {
    let rounded = value as i32;
    if value == (rounded as f32) {
        rounded
    } else if value > 0.0 || (value.is_nan() && value.is_sign_positive()) {
        rounded
    } else {
        rounded - 1
    }
}

/// The nearest integer by way of the differences to the floor and to the integer above it.
fn nearest_by_differences(value: f32) -> i32 {
    let a = floor_by_cast(value);
    let b = a.saturating_add(1);
    let low = value - (a as f32);
    let high = (b as f32) - value;
    if low < high {
        a
    } else if low > high {
        b
    } else if (a & 1) != 0 {
        b
    } else {
        a
    }
}

#[test]
fn floor_agrees_with_the_cast_and_the_comparison() {
    for pattern in samples() {
        let value = f32::from_bits(pattern);
        if value.is_nan() || value >= -2147483648.0 {
            assert_eq!(FloatBits(pattern).fw_floor_to_int(), floor_by_cast(value), "{value}");
        }
    }
}

#[test]
fn nearest_agrees_with_the_differences() {
    for pattern in samples() {
        let value = f32::from_bits(pattern);
        if value >= -2147483648.0 {
            assert_eq!(FloatBits(pattern).fw_round_ties_even_to_int(), nearest_by_differences(value), "{value}");
        }
    }
}
