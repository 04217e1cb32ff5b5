use lucia::common::LuciaError;
use lucia::units::{
    checked_scale_to_device, checked_to_mired, from_device_brightness, from_mired, round_div_u64,
    scale_to_device, to_device_brightness, to_mired, MIN_TEMPERATURE,
};

#[test]
fn round_div_rounds_to_nearest() {
    assert_eq!(round_div_u64(0, 5), 0);
    assert_eq!(round_div_u64(7, 3), 2);
    assert_eq!(round_div_u64(8, 3), 3);
    assert_eq!(round_div_u64(9, 3), 3);
}

#[test]
fn round_div_rounds_a_tie_up() {
    assert_eq!(round_div_u64(1, 2), 1);
    assert_eq!(round_div_u64(7, 2), 4);
    assert_eq!(round_div_u64(25, 10), 3);
}

#[test]
fn round_div_handles_the_largest_values() {
    assert_eq!(round_div_u64(u64::MAX, 1), u64::MAX);
    assert_eq!(round_div_u64(u64::MAX, u64::MAX), 1);
    assert_eq!(round_div_u64(u64::MAX - 1, u64::MAX), 1);
    assert_eq!(round_div_u64(u64::MAX / 2, u64::MAX), 0);
    assert_eq!(round_div_u64(u64::MAX / 2 + 1, u64::MAX), 1);
    assert_eq!(round_div_u64(u64::MAX, 2), u64::MAX / 2 + 1);
}

#[test]
fn brightness_at_the_ends() {
    assert_eq!(to_device_brightness(0), 0);
    assert_eq!(to_device_brightness(100), 255);
}

#[test]
fn brightness_is_rounded() {
    assert_eq!(to_device_brightness(1), 3);
    assert_eq!(to_device_brightness(10), 26);
    assert_eq!(to_device_brightness(30), 77);
    assert_eq!(to_device_brightness(33), 84);
    assert_eq!(to_device_brightness(50), 128);
    assert_eq!(to_device_brightness(99), 252);
}

#[test]
fn brightness_never_decreases() {
    let mut previous = to_device_brightness(0);
    for percent in 1..=100u8 {
        let level = to_device_brightness(percent);
        assert!(level > previous, "{} gives {}", percent, level);
        previous = level;
    }
}

#[test]
fn brightness_comes_back_from_the_device() {
    for percent in 0..=100u8 {
        assert_eq!(from_device_brightness(to_device_brightness(percent)), percent);
    }
}

#[test]
fn percentage_of_a_device_level() {
    assert_eq!(from_device_brightness(0), 0);
    assert_eq!(from_device_brightness(1), 0);
    assert_eq!(from_device_brightness(2), 1);
    assert_eq!(from_device_brightness(127), 50);
    assert_eq!(from_device_brightness(128), 50);
    assert_eq!(from_device_brightness(255), 100);
}

#[test]
fn scaled_brightness_keeps_fractions_of_a_percent() {
    assert_eq!(scale_to_device(3330, 10_000), 85);
    assert_eq!(scale_to_device(3300, 10_000), 84);
    assert_eq!(scale_to_device(1250, 10_000), 32);
    assert_eq!(scale_to_device(0, 10_000), 0);
    assert_eq!(scale_to_device(10_000, 10_000), 255);
    assert_eq!(scale_to_device(u32::MAX, u32::MAX), 255);
    assert_eq!(scale_to_device(1, 1), 255);
}

#[test]
fn scaled_brightness_never_decreases() {
    let mut previous = 0;
    for value in 0..=10_000u32 {
        let level = scale_to_device(value, 10_000);
        assert!(level >= previous);
        previous = level;
    }
    assert_eq!(previous, 255);
}

#[test]
fn checked_brightness_rejects_what_lies_beyond_the_scale() {
    assert_eq!(checked_scale_to_device(5_000, 10_000), Ok(128));
    assert_eq!(checked_scale_to_device(10_001, 10_000), Err(LuciaError::ValueOutOfRange));
    assert_eq!(checked_scale_to_device(0, 0), Err(LuciaError::ValueOutOfRange));
}

#[test]
fn mired_of_common_temperatures() {
    assert_eq!(to_mired(2000), 500);
    assert_eq!(to_mired(2700), 370);
    assert_eq!(to_mired(3000), 333);
    assert_eq!(to_mired(4000), 250);
    assert_eq!(to_mired(6500), 154);
}

#[test]
fn mired_rounds_a_tie_up() {
    assert_eq!(to_mired(128), 7813);
    assert_eq!(to_mired(640), 1563);
    assert_eq!(to_mired(3200), 313);
    assert_eq!(to_mired(16000), 63);
}

#[test]
fn mired_at_the_ends() {
    assert_eq!(to_mired(MIN_TEMPERATURE), 62_500);
    assert_eq!(to_mired(17), 58_824);
    assert_eq!(to_mired(u16::MAX), 15);
}

#[test]
fn mired_never_increases_with_the_temperature() {
    let mut previous = to_mired(2000);
    for kelvin in 2001..=6500u16 {
        let mired = to_mired(kelvin);
        assert!(mired <= previous);
        assert!((154..=500).contains(&mired));
        previous = mired;
    }
}

#[test]
fn mired_is_not_strictly_decreasing() {
    assert_eq!(to_mired(6499), to_mired(6500));
}

#[test]
fn mired_decreases_between_temperatures_a_mired_apart() {
    for low in (16..=6500u32).step_by(7) {
        for high in low + 1..=(low + 60).min(65_535) {
            if 1_000_000 * (high - low) >= low * high {
                assert!(to_mired(high as u16) < to_mired(low as u16), "{} and {}", low, high);
            }
        }
    }
    assert!(to_mired(6500) < to_mired(6457));
}

#[test]
fn checked_mired_rejects_what_does_not_fit() {
    assert_eq!(checked_to_mired(0), Err(LuciaError::ValueOutOfRange));
    assert_eq!(checked_to_mired(15), Err(LuciaError::ValueOutOfRange));
    assert_eq!(checked_to_mired(16), Ok(62_500));
    assert_eq!(checked_to_mired(2000), Ok(500));
}

#[test]
fn temperature_comes_back_within_rounding() {
    for kelvin in 16..=u16::MAX {
        let mired = to_mired(kelvin);
        if mired < MIN_TEMPERATURE {
            continue;
        }
        let back = from_mired(mired);
        let distance = (i64::from(back) - i64::from(kelvin)).abs();
        assert!(2 * i64::from(mired) * distance <= i64::from(kelvin) + i64::from(mired));
    }
    assert_eq!(from_mired(500), 2000);
    assert_eq!(from_mired(154), 6494);
}
