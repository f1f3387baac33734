use mokapot::jvm::{ConstantValue, DoubleBits, FloatBits};

#[test]
fn float_constants_compare_as_values() {
    assert_eq!(FloatBits(0.0f32.to_bits()), FloatBits((-0.0f32).to_bits()));
    assert_eq!(FloatBits(f32::NAN.to_bits()), FloatBits(0x7fc0_0001));
    assert_ne!(FloatBits(1.0f32.to_bits()), FloatBits(2.0f32.to_bits()));
    assert_ne!(FloatBits(f32::NAN.to_bits()), FloatBits(f32::INFINITY.to_bits()));
    assert_eq!(ConstantValue::Float(FloatBits(1.5f32.to_bits())), ConstantValue::Float(FloatBits(1.5f32.to_bits())));
    assert_ne!(ConstantValue::Float(FloatBits(0)), ConstantValue::Integer(0));
}

#[test]
fn double_constants_compare_as_values() {
    assert_eq!(DoubleBits(0.0f64.to_bits()), DoubleBits((-0.0f64).to_bits()));
    assert_eq!(DoubleBits(f64::NAN.to_bits()), DoubleBits(0x7ff0_0000_0000_0001));
    assert_ne!(DoubleBits(1.0f64.to_bits()), DoubleBits((-1.0f64).to_bits()));
    assert_ne!(DoubleBits(f64::INFINITY.to_bits()), DoubleBits(f64::NEG_INFINITY.to_bits()));
}
