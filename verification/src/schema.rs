//! The report schema's presentation rules, applied to a generated JSON Schema
//! tree: every property that the report writes differently is renamed and
//! described as it is written (Base64 or hex text), `required` lists follow the
//! renames, a FIDO AAGUID value takes its own schema and description, UUID
//! strings gain their pattern, and the enriched GeneralName objects gain
//! `decoded_fields`, `decode_diagnostic` and a `oneOf` that asks for one of them.
use vstd::prelude::*;
use crate::encoding::{entries_of, find_key, first_key, has_key, items_of, lemma_first_key_unique, same_leaf, text_of, ReportValue};
use crate::enrichment::{entry_of, entry_value};
use crate::report::{schema_rule, schema_rule_of, SchemaFormat};
use crate::text::{owned, str_eq};

verus! {

/// `r` is a copy of `v`.
pub open spec fn same_tree(v: ReportValue, r: ReportValue) -> bool
    decreases v,
{
    match v {
        ReportValue::Array(items) => match r {
            ReportValue::Array(outs) => outs.len() == items.len() && forall|i: int|
                0 <= i < items.len() ==> same_tree(#[trigger] items@[i], outs@[i]),
            _ => false,
        },
        ReportValue::Object(fields) => match r {
            ReportValue::Object(outs) => outs.len() == fields.len() && forall|i: int|
                0 <= i < fields.len() ==> outs@[i].0@ == (#[trigger] fields@[i]).0@ && same_tree(fields@[i].1, outs@[i].1),
            _ => false,
        },
        _ => same_leaf(v, r),
    }
}

/// The leaf is this text.
pub open spec fn text_is(v: ReportValue, t: Seq<char>) -> bool {
    text_of(v) == Some(t)
}

/// The schema of Base64 text, possibly null.
pub open spec fn base64_schema(v: ReportValue, nullable: bool) -> bool {
    match entries_of(v) {
        Some(m) => {
            &&& m.len() == 4
            &&& m[0].0@ == "type"@ && if nullable {
                items_of(m[0].1) matches Some(l) && l.len() == 2 && text_is(l[0], "string"@) && text_is(l[1], "null"@)
            } else {
                text_is(m[0].1, "string"@)
            }
            &&& m[1].0@ == "contentEncoding"@ && text_is(m[1].1, "base64"@)
            &&& m[2].0@ == "pattern"@ && text_is(m[2].1, "^(?:[A-Za-z0-9+/]{4})*(?:[A-Za-z0-9+/]{2}==|[A-Za-z0-9+/]{3}=)?$"@)
            &&& m[3].0@ == "description"@ && text_is(m[3].1, "Original octets as standard padded Base64, without line breaks."@)
        },
        None => false,
    }
}

/// The schema of a list of Base64 texts.
pub open spec fn base64_list_schema(v: ReportValue) -> bool {
    match entries_of(v) {
        Some(m) => m.len() == 2 && m[0].0@ == "type"@ && text_is(m[0].1, "array"@) && m[1].0@ == "items"@
            && base64_schema(m[1].1, false),
        None => false,
    }
}

/// The schema of lowercase hex text.
pub open spec fn hex_schema(v: ReportValue) -> bool {
    match entries_of(v) {
        Some(m) => {
            &&& m.len() == 3
            &&& m[0].0@ == "type"@ && text_is(m[0].1, "string"@)
            &&& m[1].0@ == "pattern"@ && text_is(m[1].1, "^(?:[0-9a-f]{2})*$"@)
            &&& m[2].0@ == "description"@ && text_is(m[2].1, "Octets in lowercase, unseparated hex."@)
        },
        None => false,
    }
}

/// The schema a report field's format is described by.
pub open spec fn format_schema(f: SchemaFormat, v: ReportValue) -> bool {
    match f {
        SchemaFormat::Base64 => base64_schema(v, false),
        SchemaFormat::NullableBase64 => base64_schema(v, true),
        SchemaFormat::Base64List => base64_list_schema(v),
        SchemaFormat::Hex => hex_schema(v),
    }
}

/// An object that only requires the one property `key`.
pub open spec fn requires_only(v: ReportValue, key: Seq<char>) -> bool {
    match entries_of(v) {
        Some(m) => m.len() == 1 && m[0].0@ == "required"@ && match items_of(m[0].1) {
            Some(l) => l.len() == 1 && text_is(l[0], key),
            None => false,
        },
        None => false,
    }
}

/// The `oneOf` that asks an enriched name for its decoded fields or its diagnostic.
pub open spec fn one_of_value(v: ReportValue) -> bool {
    match items_of(v) {
        Some(l) => l.len() == 2 && requires_only(l[0], "decoded_fields"@) && requires_only(l[1], "decode_diagnostic"@),
        None => false,
    }
}

/// The pattern of a hyphenated lowercase UUID.
pub open spec fn uuid_pattern() -> Seq<char> {
    "^[0-9a-f]{8}-[0-9a-f]{4}-[0-9a-f]{4}-[0-9a-f]{4}-[0-9a-f]{12}$"@
}

/// The description of a FIDO AAGUID value.
pub open spec fn aaguid_description() -> Seq<char> {
    "FIDO AAGUID as a UUID string, or original bytes with a length diagnostic. No UUID version, variant or device policy is enforced."@
}

/// The properties of a schema object, when it has an object of them.
pub open spec fn properties_of(fields: Seq<(String, ReportValue)>) -> Option<Seq<(String, ReportValue)>> {
    match entry_value(fields, "properties"@) {
        Some(ReportValue::Object(p)) => Some(p@),
        _ => None,
    }
}

/// The kind a properties object describes: its `kind` schema's `const` text, or
/// the first of its `enum` when it has no `const`.
pub open spec fn schema_kind(props: Seq<(String, ReportValue)>) -> Option<Seq<char>> {
    match entry_value(props, "kind"@) {
        Some(ReportValue::Object(k)) => match entry_value(k@, "const"@) {
            Some(c) => text_of(c),
            None => match entry_value(k@, "enum"@) {
                Some(ReportValue::Array(l)) => if l.len() > 0 { text_of(l@[0]) } else { None },
                _ => None,
            },
        },
        _ => None,
    }
}

/// The properties describe a FIDO AAGUID.
pub open spec fn is_fido(props: Seq<(String, ReportValue)>) -> bool {
    schema_kind(props) == Some("fido_aaguid"@)
}

/// The properties describe a GeneralName that enrichment decodes.
pub open spec fn is_enriched(props: Seq<(String, ReportValue)>) -> bool {
    let k = schema_kind(props);
    k == Some("other_name"@) || k == Some("edi_party_name"@) || k == Some("x400_address"@)
}

/// The schema rule for a property key of these properties.
pub open spec fn property_rule(props: Seq<(String, ReportValue)>, key: Seq<char>) -> Option<(Seq<char>, SchemaFormat)> {
    schema_rule_of(key, schema_kind(props), has_key(props, "constructed"@))
}

/// One when `c` holds.
pub open spec fn count(c: bool) -> int {
    if c { 1 } else { 0 }
}

/// `q` is the properties object `p` adapted: keys with a schema rule renamed and
/// described as written, a FIDO AAGUID's `value` and an enriched name's
/// `decoded_fields` and `decode_diagnostic` set (replacing the first entry with
/// the key, or appended in that order), a `uuid` string schema given the UUID
/// pattern, and every other property adapted in place.
pub open spec fn properties_adapted(
    p: ReportValue,
    q: ReportValue,
    fido: bool,
    enriched: bool,
    name: ReportValue,
    diagnostic: ReportValue,
    aaguid: ReportValue,
) -> bool
    decreases p,
{
    match (p, q) {
        (ReportValue::Object(ps), ReportValue::Object(qs)) => {
            let pf = ps@;
            let add_value = fido && !has_key(pf, "value"@);
            let add_fields = enriched && !has_key(pf, "decoded_fields"@);
            let add_diag = enriched && !has_key(pf, "decode_diagnostic"@);
            &&& qs.len() == pf.len() + count(add_value) + count(add_fields) + count(add_diag)
            &&& forall|j: int| 0 <= j < pf.len() ==> {
                let k = (#[trigger] pf[j]).0@;
                let y = pf[j].1;
                let o = qs@[j];
                if fido && first_key(pf, "value"@, j) {
                    o.0@ == k && same_tree(aaguid, o.1)
                } else if enriched && first_key(pf, "decoded_fields"@, j) {
                    o.0@ == k && same_tree(name, o.1)
                } else if enriched && first_key(pf, "decode_diagnostic"@, j) {
                    o.0@ == k && same_tree(diagnostic, o.1)
                } else if property_rule(pf, k) is Some {
                    o.0@ == property_rule(pf, k).unwrap().0 && format_schema(property_rule(pf, k).unwrap().1, o.1)
                } else if first_key(pf, "uuid"@, j) && string_schema(y) {
                    o.0@ == k && adapted(y, o.1, true, name, diagnostic, aaguid)
                } else {
                    o.0@ == k && adapted(y, o.1, false, name, diagnostic, aaguid)
                }
            }
            &&& add_value ==> qs@[pf.len() as int].0@ == "value"@ && same_tree(aaguid, qs@[pf.len() as int].1)
            &&& add_fields ==> qs@[pf.len() + count(add_value)].0@ == "decoded_fields"@
                && same_tree(name, qs@[pf.len() + count(add_value)].1)
            &&& add_diag ==> qs@[pf.len() + count(add_value) + count(add_fields)].0@ == "decode_diagnostic"@
                && same_tree(diagnostic, qs@[pf.len() + count(add_value) + count(add_fields)].1)
        },
        _ => false,
    }
}

/// An object schema whose `type` is the text `string`.
pub open spec fn string_schema(y: ReportValue) -> bool {
    match y {
        ReportValue::Object(u) => match entry_value(u@, "type"@) {
            Some(t) => text_of(t) == Some("string"@),
            None => false,
        },
        _ => false,
    }
}

/// `r` is the schema `v` with the report's presentation rules applied; when
/// `pattern` holds, `r` also carries the UUID pattern (replacing the first
/// `pattern` entry, or appended last).
///
/// Lists are adapted element by element. In an object with a `properties`
/// object, each property whose key has a schema rule is renamed and described as
/// the report writes it, a FIDO AAGUID's `value` is its schema, a `uuid` string
/// property gains the UUID pattern, and an enriched name's properties gain
/// `decoded_fields` and `decode_diagnostic`; the object's `required` list follows
/// the renames, a FIDO AAGUID gains its description and an enriched name its
/// `oneOf`. An entry set this way replaces the first entry with its key, or is
/// appended. Everything else is adapted in place.
pub open spec fn adapted(
    v: ReportValue,
    r: ReportValue,
    pattern: bool,
    name: ReportValue,
    diagnostic: ReportValue,
    aaguid: ReportValue,
) -> bool
    decreases v,
{
    match v {
        ReportValue::Array(items) => !pattern && match r {
            ReportValue::Array(outs) => outs.len() == items.len() && forall|i: int|
                0 <= i < items.len() ==> adapted(#[trigger] items@[i], outs@[i], false, name, diagnostic, aaguid),
            _ => false,
        },
        ReportValue::Object(fields) => match r {
            ReportValue::Object(outs) => {
                let f = fields@;
                let props = properties_of(f);
                let fido = props is Some && is_fido(props.unwrap());
                let enriched = props is Some && is_enriched(props.unwrap());
                let add_desc = fido && !has_key(f, "description"@);
                let add_one_of = enriched && !has_key(f, "oneOf"@);
                let add_pattern = pattern && !has_key(f, "pattern"@);
                &&& outs.len() == f.len() + count(add_desc) + count(add_one_of) + count(add_pattern)
                &&& forall|i: int| 0 <= i < f.len() ==> {
                    let key = (#[trigger] f[i]).0@;
                    let x = f[i].1;
                    let out = outs@[i];
                    &&& out.0@ == key
                    &&& if props is Some && first_key(f, "properties"@, i) {
                        properties_adapted(x, out.1, fido, enriched, name, diagnostic, aaguid)
                    } else if props is Some && first_key(f, "required"@, i) && x is Array {
                        match (x, out.1) {
                            (ReportValue::Array(l), ReportValue::Array(m)) => m.len() == l.len() && forall|j: int|
                                0 <= j < l.len() ==> match text_of(#[trigger] l@[j]) {
                                    Some(t) => if has_key(props.unwrap(), t) && property_rule(props.unwrap(), t) is Some {
                                        text_is(m@[j], property_rule(props.unwrap(), t).unwrap().0)
                                    } else {
                                        same_leaf(l@[j], m@[j])
                                    },
                                    None => adapted(l@[j], m@[j], false, name, diagnostic, aaguid),
                                },
                            _ => false,
                        }
                    } else if fido && first_key(f, "description"@, i) {
                        text_is(out.1, aaguid_description())
                    } else if enriched && first_key(f, "oneOf"@, i) {
                        one_of_value(out.1)
                    } else if pattern && first_key(f, "pattern"@, i) {
                        text_is(out.1, uuid_pattern())
                    } else {
                        adapted(x, out.1, false, name, diagnostic, aaguid)
                    }
                }
                &&& add_desc ==> outs@[f.len() as int].0@ == "description"@ && text_is(outs@[f.len() as int].1, aaguid_description())
                &&& add_one_of ==> outs@[f.len() + count(add_desc)].0@ == "oneOf"@
                    && one_of_value(outs@[f.len() + count(add_desc)].1)
                &&& add_pattern ==> outs@[f.len() + count(add_desc) + count(add_one_of)].0@ == "pattern"@
                    && text_is(outs@[f.len() + count(add_desc) + count(add_one_of)].1, uuid_pattern())
            },
            _ => false,
        },
        _ => !pattern && same_leaf(v, r),
    }
}


/// What the adaptation writes for entry `i` of an object with entries `f`.
spec fn entry_adapted(
    f: Seq<(String, ReportValue)>,
    i: int,
    out: (String, ReportValue),
    pattern: bool,
    name: ReportValue,
    diagnostic: ReportValue,
    aaguid: ReportValue,
) -> bool {
    let props = properties_of(f);
    let fido = props is Some && is_fido(props.unwrap());
    let enriched = props is Some && is_enriched(props.unwrap());
    let key = f[i].0@;
    let x = f[i].1;
    &&& out.0@ == key
    &&& if props is Some && first_key(f, "properties"@, i) {
        properties_adapted(x, out.1, fido, enriched, name, diagnostic, aaguid)
    } else if props is Some && first_key(f, "required"@, i) && x is Array {
        match (x, out.1) {
            (ReportValue::Array(l), ReportValue::Array(m)) => m.len() == l.len() && forall|j: int|
                0 <= j < l.len() ==> match text_of(#[trigger] l@[j]) {
                    Some(t) => if has_key(props.unwrap(), t) && property_rule(props.unwrap(), t) is Some {
                        text_is(m@[j], property_rule(props.unwrap(), t).unwrap().0)
                    } else {
                        same_leaf(l@[j], m@[j])
                    },
                    None => adapted(l@[j], m@[j], false, name, diagnostic, aaguid),
                },
            _ => false,
        }
    } else if fido && first_key(f, "description"@, i) {
        text_is(out.1, aaguid_description())
    } else if enriched && first_key(f, "oneOf"@, i) {
        one_of_value(out.1)
    } else if pattern && first_key(f, "pattern"@, i) {
        text_is(out.1, uuid_pattern())
    } else {
        adapted(x, out.1, false, name, diagnostic, aaguid)
    }
}


/// A copy of a report tree.
pub fn copy_tree(v: &ReportValue) -> (r: ReportValue)
    ensures
        same_tree(*v, r),
    decreases v,
{
    match v {
        ReportValue::Array(items) => {
            let mut outs: Vec<ReportValue> = Vec::new();
            let mut i: usize = 0;
            while i < items.len()
                invariant
                    *v == ReportValue::Array(*items),
                    i <= items@.len(),
                    outs@.len() == i,
                    forall|k: int| 0 <= k < i ==> same_tree(#[trigger] items@[k], outs@[k]),
                decreases items@.len() - i,
            {
                proof {
                    assert(decreases_to!(*items => items[i as int]));
                    assert(decreases_to!(*v => (*v)->Array_0));
                }
                outs.push(copy_tree(&items[i]));
                i = i + 1;
            }
            ReportValue::Array(outs)
        },
        ReportValue::Object(fields) => {
            let mut outs: Vec<(String, ReportValue)> = Vec::new();
            let mut i: usize = 0;
            while i < fields.len()
                invariant
                    *v == ReportValue::Object(*fields),
                    i <= fields@.len(),
                    outs@.len() == i,
                    forall|k: int| 0 <= k < i ==> outs@[k].0@ == (#[trigger] fields@[k]).0@ && same_tree(fields@[k].1, outs@[k].1),
                decreases fields@.len() - i,
            {
                proof {
                    assert(decreases_to!(*fields => fields[i as int]));
                    assert(decreases_to!(*v => (*v)->Object_0));
                }
                let value = copy_tree(&fields[i].1);
                outs.push((fields[i].0.clone(), value));
                i = i + 1;
            }
            ReportValue::Object(outs)
        },
        ReportValue::Null => ReportValue::Null,
        ReportValue::Bool(b) => ReportValue::Bool(*b),
        ReportValue::Integer(n) => ReportValue::Integer(*n),
        ReportValue::Text(t) => ReportValue::Text(t.clone()),
        ReportValue::Bytes(b) => ReportValue::Bytes(vstd::slice::slice_to_vec(b.as_slice())),
    }
}

fn text_tree(s: &str) -> (r: ReportValue)
    ensures
        text_of(r) == Some(s@),
{
    ReportValue::Text(owned(s))
}

fn base64_tree(nullable: bool) -> (r: ReportValue)
    ensures
        base64_schema(r, nullable),
{
    let kind = if nullable {
        let mut l: Vec<ReportValue> = Vec::new();
        l.push(text_tree("string"));
        l.push(text_tree("null"));
        ReportValue::Array(l)
    } else {
        text_tree("string")
    };
    let mut m: Vec<(String, ReportValue)> = Vec::new();
    m.push((owned("type"), kind));
    m.push((owned("contentEncoding"), text_tree("base64")));
    m.push((owned("pattern"), text_tree("^(?:[A-Za-z0-9+/]{4})*(?:[A-Za-z0-9+/]{2}==|[A-Za-z0-9+/]{3}=)?$")));
    m.push((owned("description"), text_tree("Original octets as standard padded Base64, without line breaks.")));
    ReportValue::Object(m)
}

fn format_tree(f: SchemaFormat) -> (r: ReportValue)
    ensures
        format_schema(f, r),
{
    match f {
        SchemaFormat::Base64 => base64_tree(false),
        SchemaFormat::NullableBase64 => base64_tree(true),
        SchemaFormat::Base64List => {
            let mut m: Vec<(String, ReportValue)> = Vec::new();
            m.push((owned("type"), text_tree("array")));
            m.push((owned("items"), base64_tree(false)));
            ReportValue::Object(m)
        },
        SchemaFormat::Hex => {
            let mut m: Vec<(String, ReportValue)> = Vec::new();
            m.push((owned("type"), text_tree("string")));
            m.push((owned("pattern"), text_tree("^(?:[0-9a-f]{2})*$")));
            m.push((owned("description"), text_tree("Octets in lowercase, unseparated hex.")));
            ReportValue::Object(m)
        },
    }
}

fn requires_tree(key: &str) -> (r: ReportValue)
    ensures
        requires_only(r, key@),
{
    let mut l: Vec<ReportValue> = Vec::new();
    l.push(text_tree(key));
    let mut m: Vec<(String, ReportValue)> = Vec::new();
    m.push((owned("required"), ReportValue::Array(l)));
    ReportValue::Object(m)
}

fn one_of_tree() -> (r: ReportValue)
    ensures
        one_of_value(r),
{
    let mut l: Vec<ReportValue> = Vec::new();
    l.push(requires_tree("decoded_fields"));
    l.push(requires_tree("decode_diagnostic"));
    ReportValue::Array(l)
}

/// The kind a properties object describes.
fn kind_text(props: &Vec<(String, ReportValue)>) -> (r: Option<String>)
    ensures
        match r {
            Some(t) => schema_kind(props@) == Some(t@),
            None => schema_kind(props@) is None,
        },
{
    let k = match entry_of(props, "kind") {
        Some(ReportValue::Object(k)) => k,
        _ => {
            return None;
        },
    };
    match entry_of(k, "const") {
        Some(ReportValue::Text(t)) => Some(t.clone()),
        Some(_) => None,
        None => match entry_of(k, "enum") {
            Some(ReportValue::Array(l)) => if l.len() > 0 {
                match &l[0] {
                    ReportValue::Text(t) => Some(t.clone()),
                    _ => None,
                }
            } else {
                None
            },
            _ => None,
        },
    }
}

/// Whether a schema is an object whose `type` is the text `string`.
fn is_string_schema(y: &ReportValue) -> (r: bool)
    ensures
        r == string_schema(*y),
{
    match y {
        ReportValue::Object(u) => match entry_of(u, "type") {
            Some(ReportValue::Text(t)) => {
                proof {
                    reveal_strlit("string");
                }
                str_eq(t.as_str(), "string")
            },
            _ => false,
        },
        _ => false,
    }
}

/// The kind's flags: a FIDO AAGUID, an enriched name.
fn kind_flags(props: &Vec<(String, ReportValue)>) -> (r: (bool, bool))
    ensures
        r.0 == is_fido(props@),
        r.1 == is_enriched(props@),
{
    proof {
        reveal_strlit("fido_aaguid");
        reveal_strlit("other_name");
        reveal_strlit("edi_party_name");
        reveal_strlit("x400_address");
    }
    match kind_text(props) {
        Some(k) => (
            str_eq(k.as_str(), "fido_aaguid"),
            str_eq(k.as_str(), "other_name") || str_eq(k.as_str(), "edi_party_name") || str_eq(k.as_str(), "x400_address"),
        ),
        None => (false, false),
    }
}

/// The schema rule for a property key of these properties.
fn rule_for(props: &Vec<(String, ReportValue)>, key: &str) -> (r: Option<(String, SchemaFormat)>)
    ensures
        match (r, property_rule(props@, key@)) {
            (Some((n, f)), Some((m, g))) => n@ == m && f == g,
            (None, None) => true,
            _ => false,
        },
{
    let opaque = find_key(props, "constructed").is_some();
    proof {
        if has_key(props@, "constructed"@) && !opaque {
            let j = choose|j: int| 0 <= j < props@.len() && (#[trigger] props@[j]).0@ == "constructed"@;
            assert(props@[j].0@ == "constructed"@);
        }
    }
    match kind_text(props) {
        Some(k) => schema_rule(key, Some(k.as_str()), opaque),
        None => schema_rule(key, None, opaque),
    }
}


/// What the adaptation writes for property `j` of the properties `pf`.
spec fn property_adapted(
    pf: Seq<(String, ReportValue)>,
    j: int,
    o: (String, ReportValue),
    fido: bool,
    enriched: bool,
    name: ReportValue,
    diagnostic: ReportValue,
    aaguid: ReportValue,
) -> bool {
    let k = pf[j].0@;
    let y = pf[j].1;
    if fido && first_key(pf, "value"@, j) {
        o.0@ == k && same_tree(aaguid, o.1)
    } else if enriched && first_key(pf, "decoded_fields"@, j) {
        o.0@ == k && same_tree(name, o.1)
    } else if enriched && first_key(pf, "decode_diagnostic"@, j) {
        o.0@ == k && same_tree(diagnostic, o.1)
    } else if property_rule(pf, k) is Some {
        o.0@ == property_rule(pf, k).unwrap().0 && format_schema(property_rule(pf, k).unwrap().1, o.1)
    } else if first_key(pf, "uuid"@, j) && string_schema(y) {
        o.0@ == k && adapted(y, o.1, true, name, diagnostic, aaguid)
    } else {
        o.0@ == k && adapted(y, o.1, false, name, diagnostic, aaguid)
    }
}

/// What the adaptation writes for a `required` list of an object with these
/// properties.
spec fn required_adapted(
    x: ReportValue,
    r: ReportValue,
    props: Seq<(String, ReportValue)>,
    name: ReportValue,
    diagnostic: ReportValue,
    aaguid: ReportValue,
) -> bool {
    match (x, r) {
        (ReportValue::Array(l), ReportValue::Array(m)) => m.len() == l.len() && forall|j: int|
            0 <= j < l.len() ==> match text_of(#[trigger] l@[j]) {
                Some(t) => if has_key(props, t) && property_rule(props, t) is Some {
                    text_is(m@[j], property_rule(props, t).unwrap().0)
                } else {
                    same_leaf(l@[j], m@[j])
                },
                None => adapted(l@[j], m@[j], false, name, diagnostic, aaguid),
            },
        _ => false,
    }
}

proof fn lemma_no_key(fields: Seq<(String, ReportValue)>, key: Seq<char>, i: int)
    ensures
        !has_key(fields, key) ==> !first_key(fields, key, i),
{
    if first_key(fields, key, i) {
        assert(fields[i].0@ == key);
    }
}

fn is_index(found: Option<usize>, i: usize) -> (r: bool)
    ensures
        r == (found == Some(i)),
{
    match found {
        Some(k) => k == i,
        None => false,
    }
}

/// Adapt a schema tree; with `pattern`, also set the UUID pattern.
fn adapt(v: &ReportValue, pattern: bool, name: &ReportValue, diagnostic: &ReportValue, aaguid: &ReportValue) -> (r: ReportValue)
    requires
        pattern ==> v is Object,
    ensures
        adapted(*v, r, pattern, *name, *diagnostic, *aaguid),
    decreases v, 2nat,
{
    match v {
        ReportValue::Array(items) => {
            let mut outs: Vec<ReportValue> = Vec::new();
            let mut i: usize = 0;
            while i < items.len()
                invariant
                    *v == ReportValue::Array(*items),
                    i <= items@.len(),
                    outs@.len() == i,
                    forall|k: int| 0 <= k < i ==> adapted(#[trigger] items@[k], outs@[k], false, *name, *diagnostic, *aaguid),
                decreases items@.len() - i,
            {
                proof {
                    assert(decreases_to!(*items => items[i as int]));
                    assert(decreases_to!(*v => (*v)->Array_0));
                }
                outs.push(adapt(&items[i], false, name, diagnostic, aaguid));
                i = i + 1;
            }
            ReportValue::Array(outs)
        },
        ReportValue::Object(fields) => {
            let (fido, enriched) = match entry_of(fields, "properties") {
                Some(ReportValue::Object(p)) => kind_flags(p),
                _ => (false, false),
            };
            let mut outs: Vec<(String, ReportValue)> = Vec::new();
            let mut i: usize = 0;
            while i < fields.len()
                invariant
                    *v == ReportValue::Object(*fields),
                    i <= fields@.len(),
                    outs@.len() == i,
                    forall|k: int| 0 <= k < i ==> entry_adapted(fields@, k, #[trigger] outs@[k], pattern, *name, *diagnostic, *aaguid),
                decreases fields@.len() - i,
            {
                outs.push(adapt_entry(v, i, pattern, name, diagnostic, aaguid));
                i = i + 1;
            }
            let ghost before = outs@;
            let add_desc = fido && find_key(fields, "description").is_none();
            let add_one_of = enriched && find_key(fields, "oneOf").is_none();
            let add_pattern = pattern && find_key(fields, "pattern").is_none();
            if add_desc {
                outs.push((owned("description"), text_tree("FIDO AAGUID as a UUID string, or original bytes with a length diagnostic. No UUID version, variant or device policy is enforced.")));
            }
            if add_one_of {
                outs.push((owned("oneOf"), one_of_tree()));
            }
            if add_pattern {
                outs.push((owned("pattern"), text_tree("^[0-9a-f]{8}-[0-9a-f]{4}-[0-9a-f]{4}-[0-9a-f]{4}-[0-9a-f]{12}$")));
            }
            proof {
                assert forall|k: int| 0 <= k < fields@.len() implies entry_adapted(fields@, k, outs@[k], pattern, *name, *diagnostic, *aaguid) by {
                    assert(outs@[k] == before[k]);
                }
            }
            ReportValue::Object(outs)
        },
        ReportValue::Null => ReportValue::Null,
        ReportValue::Bool(b) => ReportValue::Bool(*b),
        ReportValue::Integer(n) => ReportValue::Integer(*n),
        ReportValue::Text(t) => ReportValue::Text(t.clone()),
        ReportValue::Bytes(b) => ReportValue::Bytes(vstd::slice::slice_to_vec(b.as_slice())),
    }
}

/// Entry `i` of a schema object, adapted.
fn adapt_entry(
    v: &ReportValue,
    i: usize,
    pattern: bool,
    name: &ReportValue,
    diagnostic: &ReportValue,
    aaguid: &ReportValue,
) -> (r: (String, ReportValue))
    requires
        entries_of(*v) is Some,
        i < entries_of(*v).unwrap().len(),
    ensures
        entry_adapted(entries_of(*v).unwrap(), i as int, r, pattern, *name, *diagnostic, *aaguid),
    decreases v, 1nat,
{
    match v {
        ReportValue::Object(fields) => {
            proof {
                assert(decreases_to!(*fields => fields[i as int]));
                assert(decreases_to!(*v => (*v)->Object_0));
            }
            let key = &fields[i].0;
            let x = &fields[i].1;
            let props = match entry_of(fields, "properties") {
                Some(ReportValue::Object(p)) => Some(p),
                _ => None,
            };
            let (fido, enriched) = match props {
                Some(p) => kind_flags(p),
                None => (false, false),
            };
            let at_props = is_index(find_key(fields, "properties"), i);
            let at_required = is_index(find_key(fields, "required"), i);
            let at_desc = is_index(find_key(fields, "description"), i);
            let at_one_of = is_index(find_key(fields, "oneOf"), i);
            let at_pattern = is_index(find_key(fields, "pattern"), i);
            proof {
                lemma_key_index(fields@, "properties"@, i as int);
                lemma_key_index(fields@, "required"@, i as int);
                lemma_key_index(fields@, "description"@, i as int);
                lemma_key_index(fields@, "oneOf"@, i as int);
                lemma_key_index(fields@, "pattern"@, i as int);
            }
            match props {
                Some(p) => {
                    if at_props {
                        proof {
                            let c = choose|k: int| first_key(fields@, "properties"@, k);
                            lemma_first_key_unique(fields@, "properties"@, i as int, c);
                        }
                        return (key.clone(), adapt_props(x, fido, enriched, name, diagnostic, aaguid));
                    }
                    if at_required {
                        if let ReportValue::Array(_) = x {
                            return (key.clone(), adapt_required(x, p, name, diagnostic, aaguid));
                        }
                    }
                },
                None => {},
            }
            proof {
                reveal_strlit("description");
            }
            if fido && at_desc {
                (key.clone(), text_tree("FIDO AAGUID as a UUID string, or original bytes with a length diagnostic. No UUID version, variant or device policy is enforced."))
            } else if enriched && at_one_of {
                (key.clone(), one_of_tree())
            } else if pattern && at_pattern {
                (key.clone(), text_tree("^[0-9a-f]{8}-[0-9a-f]{4}-[0-9a-f]{4}-[0-9a-f]{4}-[0-9a-f]{12}$"))
            } else {
                (key.clone(), adapt(x, false, name, diagnostic, aaguid))
            }
        },
        _ => (String::new(), ReportValue::Null),
    }
}

proof fn lemma_key_index(fields: Seq<(String, ReportValue)>, key: Seq<char>, i: int)
    requires
        0 <= i < fields.len(),
    ensures
        first_key(fields, key, i) ==> (forall|j: int| first_key(fields, key, j) ==> j == i),
{
    assert forall|j: int| first_key(fields, key, i) && first_key(fields, key, j) implies j == i by {
        lemma_first_key_unique(fields, key, i, j);
    }
}

/// A properties object, adapted.
fn adapt_props(
    x: &ReportValue,
    fido: bool,
    enriched: bool,
    name: &ReportValue,
    diagnostic: &ReportValue,
    aaguid: &ReportValue,
) -> (r: ReportValue)
    requires
        x is Object,
    ensures
        properties_adapted(*x, r, fido, enriched, *name, *diagnostic, *aaguid),
    decreases x, 2nat,
{
    match x {
        ReportValue::Object(ps) => {
            let vi = find_key(ps, "value");
            let fi = find_key(ps, "decoded_fields");
            let gi = find_key(ps, "decode_diagnostic");
            let ui = find_key(ps, "uuid");
            let mut outs: Vec<(String, ReportValue)> = Vec::new();
            let mut j: usize = 0;
            while j < ps.len()
                invariant
                    *x == ReportValue::Object(*ps),
                    j <= ps@.len(),
                    outs@.len() == j,
                    match vi { Some(k) => first_key(ps@, "value"@, k as int), None => !has_key(ps@, "value"@) },
                    match fi { Some(k) => first_key(ps@, "decoded_fields"@, k as int), None => !has_key(ps@, "decoded_fields"@) },
                    match gi { Some(k) => first_key(ps@, "decode_diagnostic"@, k as int), None => !has_key(ps@, "decode_diagnostic"@) },
                    match ui { Some(k) => first_key(ps@, "uuid"@, k as int), None => !has_key(ps@, "uuid"@) },
                    forall|k: int| 0 <= k < j ==> property_adapted(ps@, k, #[trigger] outs@[k], fido, enriched, *name, *diagnostic, *aaguid),
                decreases ps@.len() - j,
            {
                proof {
                    assert(decreases_to!(*ps => ps[j as int]));
                    assert(decreases_to!(*x => (*x)->Object_0));
                    lemma_key_index(ps@, "value"@, j as int);
                    lemma_key_index(ps@, "decoded_fields"@, j as int);
                    lemma_key_index(ps@, "decode_diagnostic"@, j as int);
                    lemma_key_index(ps@, "uuid"@, j as int);
                    lemma_no_key(ps@, "value"@, j as int);
                    lemma_no_key(ps@, "decoded_fields"@, j as int);
                    lemma_no_key(ps@, "decode_diagnostic"@, j as int);
                    lemma_no_key(ps@, "uuid"@, j as int);
                }
                let key = &ps[j].0;
                let y = &ps[j].1;
                let o = if fido && is_index(vi, j) {
                    (key.clone(), copy_tree(aaguid))
                } else if enriched && is_index(fi, j) {
                    (key.clone(), copy_tree(name))
                } else if enriched && is_index(gi, j) {
                    (key.clone(), copy_tree(diagnostic))
                } else {
                    match rule_for(ps, key.as_str()) {
                        Some((n, f)) => (n, format_tree(f)),
                        None => if is_index(ui, j) && is_string_schema(y) {
                            (key.clone(), adapt(y, true, name, diagnostic, aaguid))
                        } else {
                            (key.clone(), adapt(y, false, name, diagnostic, aaguid))
                        },
                    }
                };
                outs.push(o);
                j = j + 1;
            }
            let ghost before = outs@;
            let add_value = fido && vi.is_none();
            let add_fields = enriched && fi.is_none();
            let add_diag = enriched && gi.is_none();
            if add_value {
                outs.push((owned("value"), copy_tree(aaguid)));
            }
            if add_fields {
                outs.push((owned("decoded_fields"), copy_tree(name)));
            }
            if add_diag {
                outs.push((owned("decode_diagnostic"), copy_tree(diagnostic)));
            }
            proof {
                assert forall|k: int| 0 <= k < ps@.len() implies property_adapted(ps@, k, outs@[k], fido, enriched, *name, *diagnostic, *aaguid) by {
                    assert(outs@[k] == before[k]);
                }
            }
            ReportValue::Object(outs)
        },
        _ => ReportValue::Null,
    }
}

/// A `required` list of an object with these properties, adapted.
fn adapt_required(
    x: &ReportValue,
    props: &Vec<(String, ReportValue)>,
    name: &ReportValue,
    diagnostic: &ReportValue,
    aaguid: &ReportValue,
) -> (r: ReportValue)
    requires
        x is Array,
    ensures
        required_adapted(*x, r, props@, *name, *diagnostic, *aaguid),
    decreases x, 2nat,
{
    match x {
        ReportValue::Array(l) => {
            let mut outs: Vec<ReportValue> = Vec::new();
            let mut j: usize = 0;
            while j < l.len()
                invariant
                    *x == ReportValue::Array(*l),
                    j <= l@.len(),
                    outs@.len() == j,
                    forall|k: int| 0 <= k < j ==> match text_of(#[trigger] l@[k]) {
                        Some(t) => if has_key(props@, t) && property_rule(props@, t) is Some {
                            text_is(outs@[k], property_rule(props@, t).unwrap().0)
                        } else {
                            same_leaf(l@[k], outs@[k])
                        },
                        None => adapted(l@[k], outs@[k], false, *name, *diagnostic, *aaguid),
                    },
                decreases l@.len() - j,
            {
                proof {
                    assert(decreases_to!(*l => l[j as int]));
                    assert(decreases_to!(*x => (*x)->Array_0));
                }
                let o = match &l[j] {
                    ReportValue::Text(t) => {
                        let present = find_key(props, t.as_str()).is_some();
                        proof {
                            if has_key(props@, t@) && !present {
                                let k = choose|k: int| 0 <= k < props@.len() && (#[trigger] props@[k]).0@ == t@;
                                assert(props@[k].0@ == t@);
                            }
                        }
                        match rule_for(props, t.as_str()) {
                            Some((n, _)) => if present {
                                ReportValue::Text(n)
                            } else {
                                ReportValue::Text(t.clone())
                            },
                            None => ReportValue::Text(t.clone()),
                        }
                    },
                    other => adapt(other, false, name, diagnostic, aaguid),
                };
                outs.push(o);
                j = j + 1;
            }
            ReportValue::Array(outs)
        },
        _ => ReportValue::Null,
    }
}

/// The report schema with its presentation rules applied: `name`, `diagnostic`
/// and `aaguid` are the schemas of an enriched name's decoded fields, of a field
/// diagnostic, and of a formatted FIDO AAGUID.
pub fn adapt_schema(schema: &ReportValue, name: &ReportValue, diagnostic: &ReportValue, aaguid: &ReportValue) -> (r: ReportValue)
    ensures
        adapted(*schema, r, false, *name, *diagnostic, *aaguid),
{
    adapt(schema, false, name, diagnostic, aaguid)
}

} // verus!
