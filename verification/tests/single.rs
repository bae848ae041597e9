use pxlha::single::{less_than, nan, truncate};

fn samples() -> Vec<u32> {
    let mut values: Vec<u32> = vec![
        0x0000_0000,
        0x8000_0000,
        0x0000_0001,
        0x8000_0001,
        0x007f_ffff,
        0x0080_0000,
        0x3e19_9999,
        0x3e19_999a,
        0x3e19_999b,
        0x3f7f_ffff,
        0x3f80_0000,
        0xbf80_0000,
        0x4049_0fdb,
        0x42f0_0000,
        0x42f5_da89,
        0x43b3_e1e2,
        0x43b4_0000,
        0x4b00_0000,
        0x4b7f_ffff,
        0x4b80_0000,
        0x4f00_0000,
        0x5f00_0000,
        0x5f7f_ffff,
        0x5f80_0000,
        0x7f7f_ffff,
        0x7f80_0000,
        0xff80_0000,
        0x7fc0_0000,
        0xffc0_0000,
        0x7f80_0001,
        0xc2c8_0000,
    ];
    let mut state: u32 = 0x1234_5678;
    for _ in 0..400 {
        state = state.wrapping_mul(1_664_525).wrapping_add(1_013_904_223);
        values.push(state);
    }
    values
}

#[test]
fn less_than_agrees_with_the_comparison_of_the_values() {
    let values = samples();
    for &a in &values {
        for &b in &values {
            assert_eq!(less_than(a, b), f32::from_bits(a) < f32::from_bits(b), "{a:#x} < {b:#x}");
        }
    }
}

#[test]
fn truncate_agrees_with_the_cast_of_the_value() {
    for bits in samples() {
        assert_eq!(truncate(bits), f32::from_bits(bits) as u64, "{bits:#x}");
    }
}

#[test]
fn truncate_gives_the_whole_part() {
    assert_eq!(truncate(0.0f32.to_bits()), 0);
    assert_eq!(truncate(0.99f32.to_bits()), 0);
    assert_eq!(truncate(1.0f32.to_bits()), 1);
    assert_eq!(truncate(122.926_83f32.to_bits()), 122);
    assert_eq!(truncate(359.764_7f32.to_bits()), 359);
    assert_eq!(truncate(16_777_216.0f32.to_bits()), 16_777_216);
    assert_eq!(truncate(4_294_967_296.0f32.to_bits()), 4_294_967_296);
}

#[test]
fn truncate_saturates() {
    assert_eq!(truncate((-3.5f32).to_bits()), 0);
    assert_eq!(truncate(f32::NAN.to_bits()), 0);
    assert_eq!(truncate(f32::INFINITY.to_bits()), u64::MAX);
    assert_eq!(truncate(f32::MAX.to_bits()), u64::MAX);
    assert_eq!(truncate(18_446_744_073_709_551_616.0f32.to_bits()), u64::MAX);
    assert_eq!(truncate(0x5f7f_ffff), 18_446_742_974_197_923_840);
}

#[test]
fn nothing_is_less_than_a_pattern_without_a_value() {
    let nan_bits = f32::NAN.to_bits();
    assert!(nan(nan_bits));
    assert!(!nan(f32::INFINITY.to_bits()));
    assert!(!nan(1.0f32.to_bits()));
    assert!(!less_than(nan_bits, 1.0f32.to_bits()));
    assert!(!less_than(1.0f32.to_bits(), nan_bits));
    assert!(!less_than(nan_bits, nan_bits));
}

#[test]
fn the_two_zeros_are_equal() {
    assert!(!less_than((-0.0f32).to_bits(), 0.0f32.to_bits()));
    assert!(!less_than(0.0f32.to_bits(), (-0.0f32).to_bits()));
    assert!(less_than((-0.0f32).to_bits(), f32::MIN_POSITIVE.to_bits()));
}
