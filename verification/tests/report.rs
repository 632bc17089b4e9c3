use x509_info::report::{field_rule, schema_rule, FieldFormat, SchemaFormat};

#[test]
fn report_field_rules_rename_byte_fields() {
    assert_eq!(field_rule("der", None, false), Some(("der".to_string(), FieldFormat::Octets)));
    assert_eq!(field_rule("serial_number", None, false), Some(("serial_number_hex".to_string(), FieldFormat::Serial)));
    assert_eq!(field_rule("signature_hex", None, false), Some(("signature".to_string(), FieldFormat::Hex)));
    assert_eq!(field_rule("values_der_hex", None, false), Some(("values_der".to_string(), FieldFormat::HexList)));
    assert_eq!(field_rule("value_hex", None, false), Some(("value_raw".to_string(), FieldFormat::Hex)));
    assert_eq!(field_rule("content_hex", None, false), None);
    assert_eq!(field_rule("content_hex", None, true), Some(("content".to_string(), FieldFormat::Hex)));
    assert_eq!(field_rule("value", Some("edwards"), false), Some(("value_hex".to_string(), FieldFormat::NamedHex)));
    assert_eq!(field_rule("value", Some("dns"), false), None);
    assert_eq!(field_rule("modulus_hex", None, false), None);
}

#[test]
fn schema_rules_name_the_textual_keys() {
    let rule = |k: &str, kind: Option<&str>, opaque: bool| schema_rule(k, kind, opaque);
    assert_eq!(rule("der", None, false), Some(("der_base64".to_string(), SchemaFormat::Base64)));
    assert_eq!(rule("parameters_der", None, false), Some(("parameters_der_base64".to_string(), SchemaFormat::NullableBase64)));
    assert_eq!(rule("signature_hex", None, false), Some(("signature_base64".to_string(), SchemaFormat::Base64)));
    assert_eq!(rule("values_der_hex", None, false), Some(("values_der_base64".to_string(), SchemaFormat::Base64List)));
    assert_eq!(rule("serial_number", None, false), Some(("serial_number_hex".to_string(), SchemaFormat::Hex)));
    assert_eq!(rule("value", Some("montgomery"), false), Some(("value_hex".to_string(), SchemaFormat::Hex)));
    assert_eq!(rule("content_hex", None, true), Some(("content_base64".to_string(), SchemaFormat::Base64)));
    assert_eq!(rule("modulus_hex", None, false), None);
}
