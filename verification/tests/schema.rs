use x509_info::encoding::ReportValue;
use x509_info::enrichment::enrich_names;
use x509_info::schema::{adapt_schema, copy_tree};

fn text(s: &str) -> ReportValue {
    ReportValue::Text(s.to_string())
}

fn object(entries: Vec<(&str, ReportValue)>) -> ReportValue {
    ReportValue::Object(entries.into_iter().map(|(k, v)| (k.to_string(), v)).collect())
}

fn get<'a>(value: &'a ReportValue, key: &str) -> &'a ReportValue {
    match value {
        ReportValue::Object(fields) => {
            &fields.iter().find(|(k, _)| k == key).unwrap_or_else(|| panic!("missing {key}")).1
        }
        _ => panic!("not an object"),
    }
}

fn has(value: &ReportValue, key: &str) -> bool {
    match value {
        ReportValue::Object(fields) => fields.iter().any(|(k, _)| k == key),
        _ => false,
    }
}

fn string_schema() -> ReportValue {
    object(vec![("type", text("string"))])
}

#[test]
fn schema_renames_byte_properties_and_their_required_entries() {
    let schema = object(vec![
        ("properties", object(vec![("der", object(vec![("type", text("array"))])), ("serial_number", string_schema()), ("version", object(vec![("type", text("integer"))]))])),
        ("required", ReportValue::Array(vec![text("der"), text("version"), text("serial_number")])),
        ("type", text("object")),
    ]);
    let out = adapt_schema(&schema, &ReportValue::Null, &ReportValue::Null, &ReportValue::Null);
    let props = get(&out, "properties");
    assert!(!has(props, "der"));
    assert_eq!(get(get(props, "der_base64"), "contentEncoding"), &text("base64"));
    assert_eq!(get(get(props, "serial_number_hex"), "pattern"), &text("^(?:[0-9a-f]{2})*$"));
    assert_eq!(get(props, "version"), &object(vec![("type", text("integer"))]));
    assert_eq!(
        get(&out, "required"),
        &ReportValue::Array(vec![text("der_base64"), text("version"), text("serial_number_hex")])
    );
    assert_eq!(get(&out, "type"), &text("object"));
}

#[test]
fn schema_describes_aaguid_uuid_and_enriched_names() {
    let aaguid = object(vec![("title", text("aaguid"))]);
    let name = object(vec![("title", text("name"))]);
    let diagnostic = object(vec![("title", text("diagnostic"))]);
    let fido = object(vec![(
        "properties",
        object(vec![("kind", object(vec![("const", text("fido_aaguid"))])), ("value", string_schema())]),
    )]);
    let out = adapt_schema(&fido, &name, &diagnostic, &aaguid);
    assert_eq!(get(get(&out, "properties"), "value"), &aaguid);
    assert!(matches!(get(&out, "description"), ReportValue::Text(t) if t.starts_with("FIDO AAGUID")));

    let uuid = object(vec![("properties", object(vec![("uuid", string_schema())]))]);
    let out = adapt_schema(&uuid, &name, &diagnostic, &aaguid);
    assert_eq!(
        get(get(get(&out, "properties"), "uuid"), "pattern"),
        &text("^[0-9a-f]{8}-[0-9a-f]{4}-[0-9a-f]{4}-[0-9a-f]{4}-[0-9a-f]{12}$")
    );

    let other = object(vec![(
        "properties",
        object(vec![("kind", object(vec![("enum", ReportValue::Array(vec![text("other_name")]))]))]),
    )]);
    let out = adapt_schema(&other, &name, &diagnostic, &aaguid);
    assert_eq!(get(get(&out, "properties"), "decoded_fields"), &name);
    assert_eq!(get(get(&out, "properties"), "decode_diagnostic"), &diagnostic);
    let ReportValue::Array(choices) = get(&out, "oneOf") else { panic!("oneOf") };
    assert_eq!(choices[0], object(vec![("required", ReportValue::Array(vec![text("decoded_fields")]))]));
    assert_eq!(choices[1], object(vec![("required", ReportValue::Array(vec![text("decode_diagnostic")]))]));
}

#[test]
fn names_are_enriched_and_never_replaced() {
    let upn = object(vec![
        ("kind", text("other_name")),
        (
            "value",
            object(vec![
                ("name", ReportValue::Null),
                ("oid", text("1.3.6.1.4.1.311.20.2.3")),
                ("value_der_hex", text("a0030c0161")),
            ]),
        ),
    ]);
    let out = enrich_names(&ReportValue::Array(vec![copy_tree(&upn)]));
    let ReportValue::Array(items) = &out else { panic!("list") };
    let fields = get(&items[0], "decoded_fields");
    assert_eq!(get(fields, "kind"), &text("user_principal_name"));
    assert_eq!(get(fields, "value"), &text("a"));
    assert_eq!(get(&items[0], "kind"), &text("other_name"));

    let x400 = object(vec![
        ("kind", text("x400_address")),
        ("value", object(vec![("constructed", ReportValue::Bool(true)), ("content_hex", text("0400"))])),
    ]);
    let out = enrich_names(&x400);
    assert_eq!(get(get(&out, "decode_diagnostic"), "issue"), &text("unsupported_encoding"));
    assert_eq!(get(get(&out, "decode_diagnostic"), "field"), &text("X.400 fields"));

    let unrelated = object(vec![("kind", text("dns")), ("value", text("a"))]);
    assert_eq!(enrich_names(&unrelated), unrelated);
}
