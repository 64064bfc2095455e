use smart_home::decimal::one_decimal;
use smart_home::{Power, Temperature};

#[test]
fn types_test_power_creation() {
    let power = Power::new(100.0f32.to_bits()).unwrap();
    assert_eq!(f32::from_bits(power.watts()), 100.0);
}

#[test]
fn types_test_power_negative() {
    let result = Power::new((-10.0f32).to_bits());
    assert!(result.is_err());
}

#[test]
fn types_test_power_zero() {
    let power = Power::zero();
    assert_eq!(f32::from_bits(power.watts()), 0.0);
}

#[test]
fn types_test_temperature_celsius() {
    let temp = Temperature::celsius(22.5f32.to_bits());
    assert_eq!(f32::from_bits(temp.as_celsius()), 22.5);
}

#[test]
fn power_test_power_creation() {
    let power = Power::new(100.0f32.to_bits()).unwrap();
    assert_eq!(f32::from_bits(power.watts()), 100.0);
}

#[test]
fn power_test_power_negative() {
    let result = Power::new((-10.0f32).to_bits());
    assert!(result.is_err());
}

#[test]
fn power_test_power_zero() {
    let power = Power::zero();
    assert_eq!(f32::from_bits(power.watts()), 0.0);
}

#[test]
fn temperature_test_temperature_celsius() {
    let temp = Temperature::celsius(22.5f32.to_bits());
    assert_eq!(f32::from_bits(temp.as_celsius()), 22.5);
}

// ---- further cases ----

#[test]
fn power_error_message() {
    assert_eq!(
        Power::new((-0.5f32).to_bits()).unwrap_err(),
        "Power cannot be negative"
    );
}

#[test]
fn power_accepts_negative_zero_and_infinity_but_not_nan() {
    assert!(Power::new((-0.0f32).to_bits()).is_ok());
    assert_eq!(
        Power::new(f32::NAN.to_bits()).unwrap_err(),
        "Power cannot be negative"
    );
    assert!(Power::new((-f32::NAN).to_bits()).is_err());
    assert!(Power::new(f32::INFINITY.to_bits()).is_ok());
    assert!(Power::new(f32::NEG_INFINITY.to_bits()).is_err());
    assert!(Power::new(f32::MIN_POSITIVE.to_bits()).is_ok());
    assert!(Power::new((-f32::MIN_POSITIVE).to_bits()).is_err());
}

#[test]
fn default_power_is_zero() {
    assert_eq!(Power::default().watts(), 0);
}

fn check_one_decimal(x: f32) {
    assert_eq!(one_decimal(x.to_bits()), format!("{:.1}", x), "value {:e}", x);
}

#[test]
fn one_decimal_matches_rust_formatting() {
    let values = [
        0.0f32,
        -0.0,
        0.05,
        0.15,
        0.25,
        0.35,
        0.75,
        -0.01,
        -0.05,
        1.0,
        22.5,
        22.45,
        99.95,
        123.45,
        1500.0,
        -3.5,
        1e10,
        3.4028235e38,
        1e-30,
        f32::MIN_POSITIVE,
        1.0e-45,
        16777216.0,
        0.95,
        9.95,
    ];
    for v in values {
        check_one_decimal(v);
    }
    assert_eq!(one_decimal(f32::NAN.to_bits()), "NaN");
    assert_eq!(one_decimal(f32::INFINITY.to_bits()), "inf");
    assert_eq!(one_decimal(f32::NEG_INFINITY.to_bits()), "-inf");
}

#[test]
fn one_decimal_matches_rust_formatting_on_a_sweep() {
    let mut bits: u32 = 0;
    while bits < 0x7f80_0000 {
        check_one_decimal(f32::from_bits(bits));
        check_one_decimal(f32::from_bits(bits | 0x8000_0000));
        bits = bits.wrapping_add(0x0007_3a41);
    }
}
