//! Presentation rules for report fields that carry octets: which serialized keys
//! hold bytes, how they are renamed, and how their values are written.
use vstd::prelude::*;
use crate::text::str_eq;

verus! {

/// How a byte-carrying report field is written.
#[derive(Clone, Copy, Debug, PartialEq, Eq, Structural)]
pub enum FieldFormat {
    /// A list of octets.
    Octets,
    /// Lowercase hex text to be written as octets.
    Hex,
    /// A list of lowercase hex texts to be written as octet lists.
    HexList,
    /// A list of octets to be written as lowercase hex text.
    Serial,
    /// A kind-specific hex value kept as hex under a new key.
    NamedHex,
}

/// The kinds whose `value` field is hex text.
pub open spec fn hex_valued_kind(kind: Option<Seq<char>>) -> bool {
    match kind {
        Some(k) => k == "subject_key_identifier"@ || k == "malformed_ip"@ || k == "edwards"@ || k == "montgomery"@,
        None => false,
    }
}

/// The rule for a serialized key: its report name and format, or None for a field
/// that is not rewritten. `kind` is the enclosing object's kind tag; `opaque`
/// says whether the object is an opaque GeneralName value.
pub open spec fn field_rule_of(key: Seq<char>, kind: Option<Seq<char>>, opaque: bool) -> Option<(Seq<char>, FieldFormat)> {
    if key == "der"@ || key == "spki_der"@ || key == "parameters_der"@ || key == "key_bytes"@
        || key == "signature_value"@ || key == "value_der"@ {
        Some((key, FieldFormat::Octets))
    } else if key == "serial_number"@ {
        Some(("serial_number_hex"@, FieldFormat::Serial))
    } else if key == "value_der_hex"@ {
        Some(("value_der"@, FieldFormat::Hex))
    } else if key == "encoded_hex"@ {
        Some(("encoded"@, FieldFormat::Hex))
    } else if key == "extensions_hex"@ {
        Some(("extensions"@, FieldFormat::Hex))
    } else if key == "signature_hex"@ {
        Some(("signature"@, FieldFormat::Hex))
    } else if key == "raw_hex"@ {
        Some(("raw"@, FieldFormat::Hex))
    } else if key == "values_der_hex"@ {
        Some(("values_der"@, FieldFormat::HexList))
    } else if key == "value_hex"@ {
        Some(("value_raw"@, FieldFormat::Hex))
    } else if key == "content_hex"@ && opaque {
        Some(("content"@, FieldFormat::Hex))
    } else if key == "value"@ && hex_valued_kind(kind) {
        Some(("value_hex"@, FieldFormat::NamedHex))
    } else {
        None
    }
}

fn rule(name: &str, format: FieldFormat) -> (r: Option<(String, FieldFormat)>)
    ensures
        r matches Some((n, f)) && n@ == name@ && f == format,
{
    Some((name.to_string(), format))
}

/// The report rule for a serialized field key, shared by report conversion and
/// schema generation.
pub fn field_rule(key: &str, kind: Option<&str>, opaque: bool) -> (r: Option<(String, FieldFormat)>)
    ensures
        match (r, field_rule_of(key@, match kind { Some(k) => Some(k@), None => None }, opaque)) {
            (Some((n, f)), Some((m, g))) => n@ == m && f == g,
            (None, None) => true,
            _ => false,
        },
{
    if str_eq(key, "der") || str_eq(key, "spki_der") || str_eq(key, "parameters_der") || str_eq(key, "key_bytes")
        || str_eq(key, "signature_value") || str_eq(key, "value_der") {
        rule(key, FieldFormat::Octets)
    } else if str_eq(key, "serial_number") {
        rule("serial_number_hex", FieldFormat::Serial)
    } else if str_eq(key, "value_der_hex") {
        rule("value_der", FieldFormat::Hex)
    } else if str_eq(key, "encoded_hex") {
        rule("encoded", FieldFormat::Hex)
    } else if str_eq(key, "extensions_hex") {
        rule("extensions", FieldFormat::Hex)
    } else if str_eq(key, "signature_hex") {
        rule("signature", FieldFormat::Hex)
    } else if str_eq(key, "raw_hex") {
        rule("raw", FieldFormat::Hex)
    } else if str_eq(key, "values_der_hex") {
        rule("values_der", FieldFormat::HexList)
    } else if str_eq(key, "value_hex") {
        rule("value_raw", FieldFormat::Hex)
    } else if str_eq(key, "content_hex") && opaque {
        rule("content", FieldFormat::Hex)
    } else if str_eq(key, "value") && match kind {
        Some(k) => str_eq(k, "subject_key_identifier") || str_eq(k, "malformed_ip") || str_eq(k, "edwards")
            || str_eq(k, "montgomery"),
        None => false,
    } {
        rule("value_hex", FieldFormat::NamedHex)
    } else {
        None
    }
}

/// How the report schema describes a byte-carrying field.
#[derive(Clone, Copy, Debug, PartialEq, Eq, Structural)]
pub enum SchemaFormat {
    /// Base64 text of octets.
    Base64,
    /// Base64 text of octets, or null.
    NullableBase64,
    /// A list of Base64 texts.
    Base64List,
    /// Lowercase hex text.
    Hex,
}

/// The schema's name and description of a field in the textual report: octet
/// fields gain `_base64` after their report name, hex-valued ones keep it.
pub open spec fn schema_rule_of(key: Seq<char>, kind: Option<Seq<char>>, opaque: bool) -> Option<(Seq<char>, SchemaFormat)> {
    match field_rule_of(key, kind, opaque) {
        Some((name, FieldFormat::Octets)) => Some((
            name + "_base64"@,
            if key == "parameters_der"@ { SchemaFormat::NullableBase64 } else { SchemaFormat::Base64 },
        )),
        Some((name, FieldFormat::Hex)) => Some((name + "_base64"@, SchemaFormat::Base64)),
        Some((name, FieldFormat::HexList)) => Some((name + "_base64"@, SchemaFormat::Base64List)),
        Some((name, _)) => Some((name, SchemaFormat::Hex)),
        None => None,
    }
}

/// The schema rule for a serialized field key.
pub fn schema_rule(key: &str, kind: Option<&str>, opaque: bool) -> (r: Option<(String, SchemaFormat)>)
    ensures
        match (r, schema_rule_of(key@, match kind { Some(k) => Some(k@), None => None }, opaque)) {
            (Some((n, f)), Some((m, g))) => n@ == m && f == g,
            (None, None) => true,
            _ => false,
        },
{
    proof {
        reveal_strlit("_base64");
    }
    match field_rule(key, kind, opaque) {
        Some((mut name, FieldFormat::Octets)) => {
            name.append("_base64");
            if str_eq(key, "parameters_der") {
                Some((name, SchemaFormat::NullableBase64))
            } else {
                Some((name, SchemaFormat::Base64))
            }
        },
        Some((mut name, FieldFormat::Hex)) => {
            name.append("_base64");
            Some((name, SchemaFormat::Base64))
        },
        Some((mut name, FieldFormat::HexList)) => {
            name.append("_base64");
            Some((name, SchemaFormat::Base64List))
        },
        Some((name, _)) => Some((name, SchemaFormat::Hex)),
        None => None,
    }
}

/// A `_hex` field renamed as Hex drops exactly that suffix.
pub proof fn law_hex_fields_drop_their_suffix(key: Seq<char>, kind: Option<Seq<char>>, opaque: bool)
    requires
        key != "value_hex"@,
        key != "content_hex"@,
        field_rule_of(key, kind, opaque) matches Some((_, f)) && f == FieldFormat::Hex,
    ensures
        key == field_rule_of(key, kind, opaque).unwrap().0 + "_hex"@,
{
    reveal_strlit("value_der_hex");
    reveal_strlit("value_der");
    reveal_strlit("encoded_hex");
    reveal_strlit("encoded");
    reveal_strlit("extensions_hex");
    reveal_strlit("extensions");
    reveal_strlit("signature_hex");
    reveal_strlit("signature");
    reveal_strlit("raw_hex");
    reveal_strlit("raw");
    reveal_strlit("_hex");
    reveal_strlit("der");
    reveal_strlit("spki_der");
    reveal_strlit("parameters_der");
    reveal_strlit("key_bytes");
    reveal_strlit("signature_value");
    reveal_strlit("serial_number");
    assert("value_der"@ + "_hex"@ =~= "value_der_hex"@);
    assert("encoded"@ + "_hex"@ =~= "encoded_hex"@);
    assert("extensions"@ + "_hex"@ =~= "extensions_hex"@);
    assert("signature"@ + "_hex"@ =~= "signature_hex"@);
    assert("raw"@ + "_hex"@ =~= "raw_hex"@);
}

} // verus!
