use ext_crud::value::{bool_string, FieldType, FieldValue};

#[test]
fn key_text_of_each_kind() {
    assert_eq!(FieldValue::Text("abc".to_string()).key_text(), "abc");
    assert_eq!(FieldValue::UInt(40).key_text(), "40");
    assert_eq!(FieldValue::UInt(0).key_text(), "0");
    assert_eq!(FieldValue::UInt(u64::MAX).key_text(), "18446744073709551615");
    assert_eq!(FieldValue::Int(-7).key_text(), "-7");
    assert_eq!(FieldValue::Int(i64::MIN).key_text(), "-9223372036854775808");
    assert_eq!(FieldValue::Bool(true).key_text(), "true");
    assert_eq!(FieldValue::Decimal("29.99".to_string()).key_text(), "29.99");
    assert_eq!(bool_string(false), "false");
}

#[test]
fn field_type_of_values() {
    assert_eq!(FieldValue::UInt(1).field_type(), FieldType::UInt);
    assert_eq!(FieldValue::Text(String::new()).field_type(), FieldType::Text);
    assert_eq!(FieldValue::Decimal("1.5".to_string()).field_type(), FieldType::Decimal);
}

#[test]
fn conform_keeps_matching_values() {
    let v = FieldValue::Text("x".to_string());
    assert_eq!(v.conform(FieldType::Text), Some(v.clone()));
    assert_eq!(FieldValue::Bool(true).conform(FieldType::Bool), Some(FieldValue::Bool(true)));
    assert_eq!(FieldValue::UInt(5).conform(FieldType::UInt), Some(FieldValue::UInt(5)));
}

#[test]
fn conform_widens_integers() {
    assert_eq!(FieldValue::UInt(40).conform(FieldType::Int), Some(FieldValue::Int(40)));
    assert_eq!(FieldValue::UInt(u64::MAX).conform(FieldType::Int), None);
    assert_eq!(
        FieldValue::UInt(30).conform(FieldType::Decimal),
        Some(FieldValue::Decimal("30".to_string()))
    );
    assert_eq!(
        FieldValue::Int(-3).conform(FieldType::Decimal),
        Some(FieldValue::Decimal("-3".to_string()))
    );
    assert_eq!(FieldValue::Int(-3).conform(FieldType::UInt), None);
}

#[test]
fn conform_rejects_other_types() {
    assert_eq!(FieldValue::Text("30".to_string()).conform(FieldType::UInt), None);
    assert_eq!(FieldValue::Decimal("1.5".to_string()).conform(FieldType::Int), None);
    assert_eq!(FieldValue::Bool(false).conform(FieldType::Text), None);
}

#[test]
fn duplicate_is_equal() {
    let v = FieldValue::Text("john@example.com".to_string());
    assert_eq!(v.duplicate(), v);
}

#[test]
fn rust_types_map_to_field_types() {
    let t = |n: &str| FieldType::for_rust_type(&n.to_string());
    assert_eq!(t("String"), Some(FieldType::Text));
    assert_eq!(t("Uuid"), Some(FieldType::Text));
    assert_eq!(t("u32"), Some(FieldType::UInt));
    assert_eq!(t("i64"), Some(FieldType::Int));
    assert_eq!(t("bool"), Some(FieldType::Bool));
    assert_eq!(t("f64"), Some(FieldType::Decimal));
    assert_eq!(t("Vec"), None);
    assert_eq!(t("string"), None);
}
