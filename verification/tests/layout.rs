use x509_info::encoding::ReportValue;
use x509_info::layout::render_text;

fn text(s: &str) -> ReportValue {
    ReportValue::Text(s.to_string())
}

fn object(entries: Vec<(&str, ReportValue)>) -> ReportValue {
    ReportValue::Object(entries.into_iter().map(|(k, v)| (k.to_string(), v)).collect())
}

#[test]
fn text_layout_indents_nested_values_and_inlines_scalars() {
    let tree = object(vec![
        ("empty", object(vec![])),
        ("flag", ReportValue::Bool(true)),
        ("list", ReportValue::Array(vec![ReportValue::Integer(1), ReportValue::Integer(-2), ReportValue::Null])),
        (
            "nested",
            ReportValue::Array(vec![
                object(vec![("a", text("x\"y"))]),
                ReportValue::Array(vec![ReportValue::Integer(3)]),
                text("tail"),
            ]),
        ),
        ("none", ReportValue::Array(vec![])),
    ]);
    let expected = [
        "empty:",
        "flag: true",
        "list: [1,-2,null]",
        "nested:",
        "  [0]",
        "    a: \"x\\\"y\"",
        "  [1]",
        "    [0]",
        "      3",
        "  [2]",
        "    \"tail\"",
        "none: []",
        "",
    ]
    .join("\n");
    assert_eq!(render_text(&tree), expected);
}

#[test]
fn text_layout_of_a_single_value_is_one_line() {
    assert_eq!(render_text(&ReportValue::Integer(18446744073709551615)), "18446744073709551615\n");
    assert_eq!(render_text(&text("a\nb")), "\"a\\nb\"\n");
    assert_eq!(render_text(&ReportValue::Bytes(vec![0, 255])), "[0,255]\n");
    assert_eq!(render_text(&object(vec![])), "");
}

#[test]
fn text_values_use_json_string_escapes() {
    assert_eq!(
        render_text(&text("q\"b\\s\u{8}\u{c}\r\t\u{1}\u{1f}\u{7f}é")),
        "\"q\\\"b\\\\s\\b\\f\\r\\t\\u0001\\u001f\u{7f}é\"\n"
    );
}
