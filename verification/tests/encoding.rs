use x509_info::encoding::{base64_encodable, binary, textual, toml_projection, ReportError, ReportValue, TomlError};

fn text(s: &str) -> ReportValue {
    ReportValue::Text(s.to_string())
}

fn integer(n: i128) -> ReportValue {
    ReportValue::Integer(n)
}

fn list(items: Vec<ReportValue>) -> ReportValue {
    ReportValue::Array(items)
}

fn object(entries: Vec<(&str, ReportValue)>) -> ReportValue {
    ReportValue::Object(entries.into_iter().map(|(k, v)| (k.to_string(), v)).collect())
}

fn octet_list(bytes: &[u8]) -> ReportValue {
    list(bytes.iter().map(|b| integer(i128::from(*b))).collect())
}

fn get<'a>(value: &'a ReportValue, key: &str) -> &'a ReportValue {
    match value {
        ReportValue::Object(fields) => {
            &fields.iter().find(|(k, _)| k == key).unwrap_or_else(|| panic!("missing {key}")).1
        }
        _ => panic!("not an object"),
    }
}

fn has(value: &ReportValue, key: &str) -> bool {
    match value {
        ReportValue::Object(fields) => fields.iter().any(|(k, _)| k == key),
        _ => false,
    }
}

fn project(value: ReportValue) -> (ReportValue, ReportValue) {
    let native = binary(&value).unwrap();
    assert!(base64_encodable(&native));
    let shown = textual(&native);
    (native, shown)
}

#[test]
fn opaque_bytes_roundtrip_without_converting_numeric_lists() {
    let input = object(vec![
        ("der", octet_list(&[0, 255, 1, 128])),
        ("integer", object(vec![("content_hex", text("ff")), ("value", integer(-1))])),
        ("modulus_hex", text("00ff")),
        ("name", object(vec![("value", text("Alice")), ("value_hex", text("416c696365"))])),
        ("opaque", object(vec![("constructed", ReportValue::Bool(true)), ("content_hex", text("00ff"))])),
        ("parameters_der", ReportValue::Null),
        ("serial_number", octet_list(&[0, 128])),
        ("signature_hex", text("00ff")),
        ("tls_features", list(vec![integer(5), integer(17)])),
        ("unknown_bits", list(vec![])),
        ("values_der_hex", list(vec![text(""), text("0500")])),
    ]);
    let (native, shown) = project(input);
    assert_eq!(get(&native, "der"), &ReportValue::Bytes(vec![0, 255, 1, 128]));
    assert_eq!(get(&shown, "der_base64"), &text("AP8BgA=="));
    assert_eq!(get(&shown, "parameters_der_base64"), &ReportValue::Null);
    assert_eq!(get(&shown, "signature_base64"), &text("AP8="));
    assert_eq!(get(&shown, "values_der_base64"), &list(vec![text(""), text("BQA=")]));
    assert_eq!(get(get(&shown, "name"), "value"), &text("Alice"));
    assert_eq!(get(get(&shown, "name"), "value_raw_base64"), &text("QWxpY2U="));
    assert_eq!(get(get(&shown, "opaque"), "content_base64"), &text("AP8="));
    assert_eq!(get(&shown, "integer"), &object(vec![("content_hex", text("ff")), ("value", integer(-1))]));
    assert_eq!(get(&shown, "tls_features"), &list(vec![integer(5), integer(17)]));
    assert_eq!(get(&shown, "unknown_bits"), &list(vec![]));
    assert_eq!(get(&shown, "modulus_hex"), &text("00ff"));
    assert_eq!(get(&shown, "serial_number_hex"), &text("0080"));
    assert!(!has(&shown, "der"));
    assert!(!has(&shown, "signature_hex"));
}

#[test]
fn aaguid_formats_bytes_without_uuid_policy_or_endian_swaps() {
    for (hex, expected) in [
        ("08987058cadc4b81b6e130de50dcbe96", "08987058-cadc-4b81-b6e1-30de50dcbe96"),
        ("00000000000000000000000000000000", "00000000-0000-0000-0000-000000000000"),
        ("FFFFFFFFFFFFFFFFFFFFFFFFFFFFFFFF", "ffffffff-ffff-ffff-ffff-ffffffffffff"),
    ] {
        let (_, shown) = project(object(vec![("kind", text("fido_aaguid")), ("value", text(hex))]));
        assert_eq!(get(&shown, "value"), &object(vec![("uuid", text(expected))]));
        assert_eq!(get(&shown, "kind"), &text("fido_aaguid"));
    }
    for (hex, base64) in [("", ""), ("00ff", "AP8="), ("ffffffffffffffffffffffffffffffffff", "//////////////////////8=")] {
        let (native, shown) = project(object(vec![("kind", text("fido_aaguid")), ("value", text(hex))]));
        let value = get(&shown, "value");
        assert_eq!(get(value, "uuid"), &ReportValue::Null);
        assert_eq!(get(get(value, "format_diagnostic"), "issue"), &text("invalid_length"));
        assert_eq!(get(get(value, "format_diagnostic"), "field"), &text("AAGUID"));
        assert_eq!(get(get(value, "format_diagnostic"), "expected_bytes"), &integer(16));
        assert_eq!(get(value, "raw_base64"), &text(base64));
        assert!(matches!(get(get(&native, "value"), "raw"), ReportValue::Bytes(_)));
    }
}

#[test]
fn byte_rules_follow_object_kind_and_opacity() {
    let key_id = object(vec![("kind", text("subject_key_identifier")), ("value", text("0a0b"))]);
    let (native, shown) = project(key_id);
    assert_eq!(get(&native, "value_hex"), &text("0a0b"));
    assert_eq!(get(&shown, "value_hex"), &text("0a0b"));
    let other = object(vec![("kind", text("dns")), ("value", text("0a0b"))]);
    let (_, shown) = project(other);
    assert_eq!(get(&shown, "value"), &text("0a0b"));
    let transparent = object(vec![("content_hex", text("0a0b"))]);
    let (_, shown) = project(transparent);
    assert_eq!(get(&shown, "content_hex"), &text("0a0b"));
}

#[test]
fn binary_projection_errors_name_the_failing_rule() {
    let missing = object(vec![("kind", text("fido_aaguid"))]);
    assert_eq!(binary(&missing), Err(ReportError::MissingAaguid));
    let odd = object(vec![("kind", text("fido_aaguid")), ("value", text("abc"))]);
    assert_eq!(binary(&odd), Err(ReportError::InvalidHex));
    let bad_hex = list(vec![object(vec![("signature_hex", text("zz"))])]);
    assert_eq!(binary(&bad_hex), Err(ReportError::InvalidHex));
    let big_octet = object(vec![("der", list(vec![integer(256)]))]);
    assert_eq!(binary(&big_octet), Err(ReportError::InvalidOctets));
    let negative_serial = object(vec![("serial_number", list(vec![integer(-1)]))]);
    assert_eq!(binary(&negative_serial), Err(ReportError::InvalidOctets));
    let text_octets = object(vec![("der", text("00"))]);
    assert_eq!(binary(&text_octets), Err(ReportError::InvalidOctets));
    let not_list = object(vec![("values_der_hex", text("00"))]);
    assert_eq!(binary(&not_list), Err(ReportError::InvalidDerValues));
    let bad_item = object(vec![("values_der_hex", list(vec![text("0"), text("00")]))]);
    assert_eq!(binary(&bad_item), Err(ReportError::InvalidHex));
}

#[test]
fn textual_projection_keeps_scalars_and_renames_only_byte_keys() {
    let tree = object(vec![
        ("flag", ReportValue::Bool(false)),
        ("large", integer(i128::from(u64::MAX))),
        ("parameters_der", ReportValue::Null),
        ("values_der", list(vec![])),
        ("other", ReportValue::Null),
        ("blob", ReportValue::Bytes(vec![0xfb, 0xff])),
    ]);
    let shown = textual(&tree);
    assert_eq!(
        shown,
        object(vec![
            ("flag", ReportValue::Bool(false)),
            ("large", integer(i128::from(u64::MAX))),
            ("parameters_der_base64", ReportValue::Null),
            ("values_der_base64", list(vec![])),
            ("other", ReportValue::Null),
            ("blob_base64", text("+/8=")),
        ])
    );
}

#[test]
fn toml_rules_are_explicit() {
    let value = object(vec![
        ("absent", ReportValue::Null),
        ("large", integer(i128::from(u64::MAX))),
        ("small", integer(i128::from(i64::MIN))),
        ("values", list(vec![integer(1), integer(2)])),
        ("nested", object(vec![("gone", ReportValue::Null), ("kept", text("x"))])),
    ]);
    assert_eq!(
        toml_projection(&value),
        Ok(object(vec![
            ("large", text("18446744073709551615")),
            ("small", integer(i128::from(i64::MIN))),
            ("values", list(vec![integer(1), integer(2)])),
            ("nested", object(vec![("kept", text("x"))])),
        ]))
    );
    assert_eq!(toml_projection(&list(vec![integer(1), ReportValue::Null, integer(2)])), Err(TomlError::NullArrayElement));
    assert_eq!(toml_projection(&ReportValue::Null), Err(TomlError::NullArrayElement));
    assert_eq!(toml_projection(&integer(-(1i128 << 70))), Ok(text("-1180591620717411303424")));
}

#[test]
fn textual_bytes_use_padded_standard_base64() {
    let tree = object(vec![
        ("a", ReportValue::Bytes(vec![])),
        ("b", ReportValue::Bytes(vec![0x4d])),
        ("c", ReportValue::Bytes(vec![0x4d, 0x61])),
        ("d", ReportValue::Bytes(vec![0x4d, 0x61, 0x6e, 0xfb, 0xef, 0xbe, 0x00])),
    ]);
    assert_eq!(
        textual(&tree),
        object(vec![
            ("a_base64", text("")),
            ("b_base64", text("TQ==")),
            ("c_base64", text("TWE=")),
            ("d_base64", text("TWFu++++AA==")),
        ])
    );
}
