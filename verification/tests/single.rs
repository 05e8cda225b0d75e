use wrach::math::Vec2;
use wrach::scalar::Scalar;

fn nearest(value: f32) -> i64 {
    (f64::from(value) * 16_777_216.0).round() as i64
}

#[test]
fn whole_numbers_and_binary_fractions_are_exact() {
    assert_eq!(Scalar::from_single_bits(0.0_f32.to_bits()).raw, 0);
    assert_eq!(Scalar::from_single_bits(1.0_f32.to_bits()).raw, 16_777_216);
    assert_eq!(Scalar::from_single_bits((-1.0_f32).to_bits()).raw, -16_777_216);
    assert_eq!(Scalar::from_single_bits(0.5_f32.to_bits()).raw, 8_388_608);
    assert_eq!(Scalar::from_single_bits((-2.5_f32).to_bits()).raw, -41_943_040);
    assert_eq!(Scalar::from_single_bits(127.75_f32.to_bits()).raw, 2_143_289_344);
    assert_eq!(Scalar::from_single_bits(128.0_f32.to_bits()).raw, 2_147_483_648);
    assert_eq!(Scalar::from_single_bits(10_000.0_f32.to_bits()).raw, 167_772_160_000);
    assert_eq!(
        Scalar::from_single_bits(16_777_216.0_f32.to_bits()).raw,
        281_474_976_710_656
    );
}

#[test]
fn other_numbers_are_rounded_to_the_nearest_scalar() {
    assert_eq!(Scalar::from_single_bits(0.1_f32.to_bits()).raw, 1677722);
    assert_eq!(Scalar::from_single_bits((-0.1_f32).to_bits()).raw, -1677722);
    assert_eq!(Scalar::from_single_bits(0.0001_f32.to_bits()).raw, 1678);
    assert_eq!(Scalar::from_single_bits(0.3_f32.to_bits()).raw, 5033165);
    assert_eq!(Scalar::from_single_bits(1.9_f32.to_bits()).raw, 31876710);
}

#[test]
fn halves_are_rounded_away_from_zero() {
    let half_step = 1.0_f32 / 33_554_432.0;
    assert_eq!(Scalar::from_single_bits(half_step.to_bits()).raw, 1);
    assert_eq!(Scalar::from_single_bits((-half_step).to_bits()).raw, -1);
    assert_eq!(Scalar::from_single_bits((3.0 * half_step).to_bits()).raw, 2);
    assert_eq!(Scalar::from_single_bits((half_step / 2.0).to_bits()).raw, 0);
}

#[test]
fn numbers_out_of_range_give_the_ends_of_the_range() {
    assert_eq!(Scalar::from_single_bits(f32::INFINITY.to_bits()).raw, i64::MAX);
    assert_eq!(Scalar::from_single_bits(f32::NEG_INFINITY.to_bits()).raw, i64::MIN);
    assert_eq!(Scalar::from_single_bits(f32::MAX.to_bits()).raw, i64::MAX);
    assert_eq!(Scalar::from_single_bits(f32::MIN.to_bits()).raw, i64::MIN);
    assert_eq!(Scalar::from_single_bits(1.0e15_f32.to_bits()).raw, i64::MAX);
    assert_eq!(Scalar::from_single_bits((-1.0e15_f32).to_bits()).raw, i64::MIN);
    let largest = 549_755_781_120.0_f32;
    assert_eq!(Scalar::from_single_bits(largest.to_bits()).raw, nearest(largest));
    assert!(Scalar::from_single_bits(largest.to_bits()).raw < i64::MAX);
}

#[test]
fn what_is_not_a_number_gives_zero() {
    assert_eq!(Scalar::from_single_bits(f32::NAN.to_bits()).raw, 0);
    assert_eq!(Scalar::from_single_bits(0x7f80_0001).raw, 0);
    assert_eq!(Scalar::from_single_bits(0xffff_ffff).raw, 0);
}

#[test]
fn tiny_numbers_give_zero() {
    assert_eq!(Scalar::from_single_bits(f32::MIN_POSITIVE.to_bits()).raw, 0);
    assert_eq!(Scalar::from_single_bits(1).raw, 0);
    assert_eq!(Scalar::from_single_bits(0x8000_0000).raw, 0);
    assert_eq!(Scalar::from_single_bits(1.0e-9_f32.to_bits()).raw, 0);
}

#[test]
fn the_conversion_agrees_with_rounding_in_double_precision() {
    let mut bits: u32 = 0;
    let mut checked = 0;
    loop {
        let value = f32::from_bits(bits);
        assert_eq!(Scalar::from_single_bits(bits).raw, nearest(value), "bits {bits:#x}");
        checked += 1;
        match bits.checked_add(0x0001_0f37) {
            Some(next) => bits = next,
            None => break,
        }
    }
    assert!(checked > 60_000);
}

#[test]
fn a_vector_is_converted_by_component() {
    let vector = Vec2::from_single_bits(1.5_f32.to_bits(), (-0.25_f32).to_bits());
    assert_eq!(vector.x.raw, 25_165_824);
    assert_eq!(vector.y.raw, -4_194_304);
}

fn as_float(raw: i64) -> f32 {
    f32::from_bits(Scalar::from_raw(raw).to_single_bits())
}

#[test]
fn short_scalars_become_the_number_they_stand_for() {
    assert_eq!(as_float(0), 0.0);
    assert_eq!(as_float(0).to_bits(), 0);
    assert_eq!(as_float(1), 1.0 / 16_777_216.0);
    assert_eq!(as_float(-1), -1.0 / 16_777_216.0);
    assert_eq!(as_float(16_777_216), 1.0);
    assert_eq!(as_float(-41_943_040), -2.5);
    assert_eq!(as_float(25_165_824), 1.5);
    assert_eq!(as_float(16_777_215), 16_777_215.0 / 16_777_216.0);
    assert_eq!(as_float(167_772_160_000), 10_000.0);
}

#[test]
fn long_scalars_are_rounded_to_the_even_neighbour() {
    // One bit too long: exactly between two numbers.
    assert_eq!(as_float(0x100_0001), 1.0);
    assert_eq!(as_float(0x100_0003), 16_777_220.0 / 16_777_216.0);
    assert_eq!(as_float(0x100_0005), 16_777_220.0 / 16_777_216.0);
    assert_eq!(as_float(-0x100_0003), -16_777_220.0 / 16_777_216.0);
    // The rounding carries into the exponent.
    assert_eq!(as_float(0x1ff_ffff), 2.0);
    assert_eq!(as_float(i64::MAX), 549_755_813_888.0);
    assert_eq!(as_float(i64::MIN), -549_755_813_888.0);
}

#[test]
fn the_way_back_agrees_with_the_conversion_of_integers() {
    let mut raw: i64 = i64::MIN;
    let mut checked = 0;
    loop {
        assert_eq!(as_float(raw), raw as f32 / 16_777_216.0, "raw {raw}");
        checked += 1;
        match raw.checked_add(0x0000_7a31_05f3_9b17) {
            Some(next) => raw = next,
            None => break,
        }
    }
    assert!(checked > 100_000);
    for raw in -70_000..70_000 {
        assert_eq!(as_float(raw), raw as f32 / 16_777_216.0, "raw {raw}");
    }
    for low in 0..4096 {
        let raw = 0x7fff_f000 + low;
        assert_eq!(as_float(raw), raw as f32 / 16_777_216.0, "raw {raw}");
    }
}

#[test]
fn a_short_scalar_comes_back_from_a_number() {
    for raw in [0, 1, -1, 7, 65536, -65536, 6554, 16_777_215, -16_777_215, 1_234_567] {
        let bits = Scalar::from_raw(raw).to_single_bits();
        assert_eq!(Scalar::from_single_bits(bits).raw, raw);
    }
}

#[test]
fn a_vector_goes_back_by_component() {
    let vector = Vec2::new(Scalar::from_raw(25_165_824), Scalar::from_raw(-4_194_304));
    let (x, y) = vector.to_single_bits();
    assert_eq!(f32::from_bits(x), 1.5);
    assert_eq!(f32::from_bits(y), -0.25);
}
