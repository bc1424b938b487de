//! Values, their type tags, and the matching predicate.

use cattywampus::value::{int32_str, Type, Value};

#[test]
fn every_variant_matches_exactly_its_own_tag() {
    let cases = [
        (Value::Int32(7), Type::Int32),
        (Value::Float32(1.5f32.to_bits()), Type::Float32),
        (Value::Float64(1.5f64.to_bits()), Type::Float64),
    ];
    let tags = [Type::Int32, Type::Float32, Type::Float64];
    for (value, own) in cases {
        for tag in tags {
            assert_eq!(value.matches(&tag), tag == own);
        }
    }
}

#[test]
fn type_labels_are_stable() {
    assert_eq!(Value::Int32(0).type_str(), "Int32");
    assert_eq!(Value::Float32(0).type_str(), "Float32");
    assert_eq!(Value::Float64(0).type_str(), "Float64");
}

#[test]
fn integers_render_in_standard_decimal() {
    assert_eq!(int32_str(0), "0");
    assert_eq!(int32_str(7), "7");
    assert_eq!(int32_str(42), "42");
    assert_eq!(int32_str(100), "100");
    assert_eq!(int32_str(-17), "-17");
    assert_eq!(int32_str(i32::MAX), "2147483647");
    assert_eq!(int32_str(i32::MIN), "-2147483648");
}

#[test]
fn rendering_matches_the_platform_formatter() {
    for x in [0, 1, -1, 9, 10, -10, 305, -4096, i32::MAX, i32::MIN] {
        assert_eq!(int32_str(x), format!("{}", x));
    }
}

#[test]
fn equality_is_per_variant_on_the_payload() {
    assert_eq!(Value::Int32(3), Value::Int32(3));
    assert_ne!(Value::Int32(3), Value::Int32(4));
    assert_eq!(
        Value::Float64(2.5f64.to_bits()),
        Value::Float64(2.5f64.to_bits())
    );
    // No cross-variant equality, even for the same mathematical number.
    assert_ne!(Value::Int32(1), Value::Float64(1.0f64.to_bits()));
    assert_ne!(
        Value::Float32(1.0f32.to_bits()),
        Value::Float64(1.0f64.to_bits())
    );
}
