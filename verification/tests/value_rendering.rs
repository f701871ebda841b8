use haste_introspect::decimal::{i64_to_decimal, u64_to_decimal, u8_to_decimal};
use haste_introspect::fieldvalue::{
    get_field_value_discriminant_name, render_field_value, FieldValue,
};

#[test]
fn decimal_rendering_exact_values() {
    assert_eq!(u64_to_decimal(0), "0");
    assert_eq!(u64_to_decimal(7), "7");
    assert_eq!(u64_to_decimal(10), "10");
    assert_eq!(u64_to_decimal(12345), "12345");
    assert_eq!(u64_to_decimal(u64::MAX), "18446744073709551615");
    assert_eq!(u8_to_decimal(0), "0");
    assert_eq!(u8_to_decimal(255), "255");
    assert_eq!(i64_to_decimal(0), "0");
    assert_eq!(i64_to_decimal(-1), "-1");
    assert_eq!(i64_to_decimal(-42), "-42");
    assert_eq!(i64_to_decimal(i64::MIN), "-9223372036854775808");
    assert_eq!(i64_to_decimal(i64::MAX), "9223372036854775807");
}

#[test]
fn integer_and_bool_values_render_to_decimal_and_keywords() {
    assert_eq!(render_field_value(&FieldValue::I64(-7)), "-7");
    assert_eq!(render_field_value(&FieldValue::U64(7)), "7");
    assert_eq!(render_field_value(&FieldValue::Bool(true)), "true");
    assert_eq!(render_field_value(&FieldValue::Bool(false)), "false");
}

#[test]
fn text_values_render_verbatim() {
    assert_eq!(render_field_value(&FieldValue::Str("hello".to_string())), "hello");
    assert_eq!(render_field_value(&FieldValue::F32("1.5".to_string())), "1.5");
}

#[test]
fn vector_values_render_as_bracketed_lists() {
    let v2 = FieldValue::Vector2("1.0".to_string(), "2.5".to_string());
    assert_eq!(render_field_value(&v2), "[1.0, 2.5]");
    let v3 = FieldValue::Vector3("1.0".to_string(), "2.0".to_string(), "3.0".to_string());
    assert_eq!(render_field_value(&v3), "[1.0, 2.0, 3.0]");
    let v4 = FieldValue::Vector4(
        "0.0".to_string(),
        "0.1".to_string(),
        "0.2".to_string(),
        "0.3".to_string(),
    );
    assert_eq!(render_field_value(&v4), "[0.0, 0.1, 0.2, 0.3]");
    let qa = FieldValue::QAngle("90.0".to_string(), "0.0".to_string(), "45.0".to_string());
    assert_eq!(render_field_value(&qa), "[90.0, 0.0, 45.0]");
}

#[test]
fn discriminant_names_cover_all_nine_kinds() {
    let s = String::new;
    assert_eq!(get_field_value_discriminant_name(&FieldValue::I64(1)), "I64");
    assert_eq!(get_field_value_discriminant_name(&FieldValue::U64(1)), "U64");
    assert_eq!(get_field_value_discriminant_name(&FieldValue::F32(s())), "F32");
    assert_eq!(get_field_value_discriminant_name(&FieldValue::Bool(true)), "Bool");
    assert_eq!(get_field_value_discriminant_name(&FieldValue::Vector2(s(), s())), "Vector2");
    assert_eq!(get_field_value_discriminant_name(&FieldValue::Vector3(s(), s(), s())), "Vector3");
    assert_eq!(
        get_field_value_discriminant_name(&FieldValue::Vector4(s(), s(), s(), s())),
        "Vector4"
    );
    assert_eq!(get_field_value_discriminant_name(&FieldValue::QAngle(s(), s(), s())), "QAngle");
    assert_eq!(get_field_value_discriminant_name(&FieldValue::Str(s())), "String");
}
