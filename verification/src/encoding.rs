//! Byte and identifier presentation over a serialized report tree.
//!
//! The binary projection turns the fields that carry octets (as lists of
//! integers or as hex text) into native octet strings and formats FIDO AAGUIDs;
//! the textual projection writes octet strings as Base64 text under `_base64`
//! keys; the TOML form drops null entries and writes integers beyond the signed
//! 64-bit range as decimal text. Numeric lists that no rule names are never
//! taken for octets.
use vstd::prelude::*;
use crate::report::{field_rule, field_rule_of, schema_rule_of, FieldFormat, SchemaFormat};
use crate::rustcrypto::{base64_encode, base64_text};
use crate::ip::{format_decimal, signed_decimal_text};
use crate::text::{decode_hex, encode_hex, hex_decoded, hex_lower, owned, str_eq};

verus! {

/// A serialized report value, as the report formats carry it.
#[derive(Debug, PartialEq)]
pub enum ReportValue {
    Null,
    Bool(bool),
    Integer(i128),
    Text(String),
    Bytes(Vec<u8>),
    Array(Vec<ReportValue>),
    Object(Vec<(String, ReportValue)>),
}

/// Why a report tree has no TOML form.
#[derive(Clone, Copy, Debug, PartialEq, Eq, Structural)]
pub enum TomlError {
    /// A null list element, or a null document: TOML has no null.
    NullArrayElement,
}

/// Why a report tree has no binary projection.
#[derive(Clone, Copy, Debug, PartialEq, Eq, Structural)]
pub enum ReportError {
    /// A FIDO AAGUID object without its `value`.
    MissingAaguid,
    /// A hex field that is not text of hexadecimal digit pairs.
    InvalidHex,
    /// An octet field that is not a list of integers below 256.
    InvalidOctets,
    /// A DER value list that is not a list.
    InvalidDerValues,
}

/// The octet an integer element stands for.
pub open spec fn octet_of(v: ReportValue) -> Option<u8> {
    match v {
        ReportValue::Integer(n) => if 0 <= n < 256 { Some(n as u8) } else { None },
        _ => None,
    }
}

/// The octets of a list of integers below 256.
pub open spec fn octets_view(v: ReportValue) -> Option<Seq<u8>> {
    match v {
        ReportValue::Array(items) => if forall|i: int| 0 <= i < items.len() ==> (#[trigger] octet_of(items@[i])) is Some {
            Some(Seq::new(items.len() as nat, |i: int| octet_of(items@[i]).unwrap()))
        } else {
            None
        },
        _ => None,
    }
}

/// The octets of hex text.
pub open spec fn hex_view(v: ReportValue) -> Option<Seq<u8>> {
    match v {
        ReportValue::Text(s) => hex_decoded(s@),
        _ => None,
    }
}

/// A UUID's hyphenated lowercase text: 8-4-4-4-12 hex digits.
pub open spec fn uuid_text(b: Seq<u8>) -> Seq<char> {
    hex_lower(b.subrange(0, 4)) + seq!['-'] + hex_lower(b.subrange(4, 6)) + seq!['-']
        + hex_lower(b.subrange(6, 8)) + seq!['-'] + hex_lower(b.subrange(8, 10)) + seq!['-']
        + hex_lower(b.subrange(10, 16))
}

/// Entry `i` is the first whose key is `key`.
pub open spec fn first_key(fields: Seq<(String, ReportValue)>, key: Seq<char>, i: int) -> bool {
    &&& 0 <= i < fields.len()
    &&& fields[i].0@ == key
    &&& forall|j: int| 0 <= j < i ==> (#[trigger] fields[j]).0@ != key
}

/// Some entry has this key.
pub open spec fn has_key(fields: Seq<(String, ReportValue)>, key: Seq<char>) -> bool {
    exists|i: int| 0 <= i < fields.len() && (#[trigger] fields[i]).0@ == key
}

/// The object's kind tag: the text of its first `kind` entry.
pub open spec fn kind_of(fields: Seq<(String, ReportValue)>) -> Option<Seq<char>> {
    if exists|i: int| first_key(fields, "kind"@, i) {
        match fields[choose|i: int| first_key(fields, "kind"@, i)].1 {
            ReportValue::Text(s) => Some(s@),
            _ => None,
        }
    } else {
        None
    }
}

/// The object is a FIDO AAGUID.
pub open spec fn is_aaguid(fields: Seq<(String, ReportValue)>) -> bool {
    kind_of(fields) == Some("fido_aaguid"@)
}

/// Entry `i` holds the AAGUID that the binary projection formats.
pub open spec fn aaguid_entry(fields: Seq<(String, ReportValue)>, i: int) -> bool {
    is_aaguid(fields) && first_key(fields, "value"@, i)
}

/// The text of a text leaf.
pub open spec fn text_of(v: ReportValue) -> Option<Seq<char>> {
    match v {
        ReportValue::Text(t) => Some(t@),
        _ => None,
    }
}

/// The octets of an octet-string leaf.
pub open spec fn bytes_of(v: ReportValue) -> Option<Seq<u8>> {
    match v {
        ReportValue::Bytes(b) => Some(b@),
        _ => None,
    }
}

/// The entries of an object.
pub open spec fn entries_of(v: ReportValue) -> Option<Seq<(String, ReportValue)>> {
    match v {
        ReportValue::Object(m) => Some(m@),
        _ => None,
    }
}

/// The length diagnostic of an AAGUID that is not sixteen octets.
pub open spec fn aaguid_diagnostic(d: ReportValue) -> bool {
    match entries_of(d) {
        Some(m) => {
            &&& m.len() == 3
            &&& m[0].0@ == "expected_bytes"@ && m[0].1 == ReportValue::Integer(16)
            &&& m[1].0@ == "field"@ && text_of(m[1].1) == Some("AAGUID"@)
            &&& m[2].0@ == "issue"@ && text_of(m[2].1) == Some("invalid_length"@)
        },
        None => false,
    }
}

/// The binary form of an AAGUID with these octets: its UUID text when it has
/// sixteen octets, else its octets beside a length diagnostic.
pub open spec fn aaguid_rel(b: Seq<u8>, r: ReportValue) -> bool {
    match entries_of(r) {
        Some(m) => if b.len() == 16 {
            &&& m.len() == 1
            &&& m[0].0@ == "uuid"@ && text_of(m[0].1) == Some(uuid_text(b))
        } else {
            &&& m.len() == 3
            &&& m[0].0@ == "format_diagnostic"@ && aaguid_diagnostic(m[0].1)
            &&& m[1].0@ == "raw"@ && bytes_of(m[1].1) == Some(b)
            &&& m[2].0@ == "uuid"@ && m[2].1 is Null
        },
        None => false,
    }
}

/// A leaf is carried over as it is.
pub open spec fn same_leaf(v: ReportValue, r: ReportValue) -> bool {
    match v {
        ReportValue::Text(s) => r matches ReportValue::Text(t) && t@ == s@,
        ReportValue::Bytes(b) => r matches ReportValue::Bytes(c) && c@ == b@,
        _ => r == v,
    }
}

/// A list of hex texts written as a list of octet strings.
pub open spec fn hex_list_rel(v: ReportValue, r: ReportValue) -> bool {
    match (v, r) {
        (ReportValue::Array(items), ReportValue::Array(outs)) => {
            &&& outs.len() == items.len()
            &&& forall|j: int| 0 <= j < items.len() ==> bytes_of(#[trigger] outs@[j]) is Some
                && hex_view(items@[j]) == bytes_of(outs@[j])
        },
        _ => false,
    }
}

/// A field written in a rule's format; `Hex` and `Octets` give octet strings,
/// `Serial` gives lowercase hex text.
pub open spec fn formatted_rel(f: FieldFormat, v: ReportValue, r: ReportValue) -> bool {
    match f {
        FieldFormat::Octets => if v is Null {
            r is Null
        } else {
            octets_view(v) matches Some(b) && r matches ReportValue::Bytes(c) && c@ == b
        },
        FieldFormat::Hex => hex_view(v) matches Some(b) && r matches ReportValue::Bytes(c) && c@ == b,
        FieldFormat::HexList => hex_list_rel(v, r),
        FieldFormat::Serial => octets_view(v) matches Some(b) && r matches ReportValue::Text(t) && t@ == hex_lower(b),
        FieldFormat::NamedHex => false,
    }
}

/// `r` is the binary projection of `v`: every field that a rule names is written
/// in its format under its report name, an AAGUID is formatted, and every other
/// value is projected in place.
pub open spec fn binary_rel(v: ReportValue, r: ReportValue) -> bool
    decreases v,
{
    match v {
        ReportValue::Array(items) => match r {
            ReportValue::Array(outs) => outs.len() == items.len() && forall|i: int|
                0 <= i < items.len() ==> binary_rel(#[trigger] items@[i], outs@[i]),
            _ => false,
        },
        ReportValue::Object(fields) => match r {
            ReportValue::Object(outs) => outs.len() == fields.len()
                && (is_aaguid(fields@) ==> has_key(fields@, "value"@)) && forall|i: int|
                0 <= i < fields.len() ==> {
                    let key = (#[trigger] fields@[i]).0@;
                    let value = fields@[i].1;
                    let out = outs@[i];
                    if aaguid_entry(fields@, i) {
                        &&& out.0@ == "value"@
                        &&& hex_view(value) is Some
                        &&& aaguid_rel(hex_view(value).unwrap(), out.1)
                    } else {
                        match field_rule_of(key, kind_of(fields@), has_key(fields@, "constructed"@)) {
                            Some((name, FieldFormat::NamedHex)) => out.0@ == name && binary_rel(value, out.1),
                            Some((name, f)) => out.0@ == name && formatted_rel(f, value, out.1),
                            None => out.0@ == key && binary_rel(value, out.1),
                        }
                    }
                },
            _ => false,
        },
        _ => same_leaf(v, r),
    }
}


/// A field written in a rule's format other than `NamedHex` fails this way.
pub open spec fn format_fails(f: FieldFormat, v: ReportValue, e: ReportError) -> bool {
    match f {
        FieldFormat::Octets => v !is Null && octets_view(v) is None && e == ReportError::InvalidOctets,
        FieldFormat::Hex => hex_view(v) is None && e == ReportError::InvalidHex,
        FieldFormat::Serial => octets_view(v) is None && e == ReportError::InvalidOctets,
        FieldFormat::HexList => match v {
            ReportValue::Array(items) => e == ReportError::InvalidHex && exists|j: int|
                0 <= j < items.len() && hex_view(#[trigger] items@[j]) is None,
            _ => e == ReportError::InvalidDerValues,
        },
        FieldFormat::NamedHex => false,
    }
}

/// Some field of the tree fails the binary projection with this error.
pub open spec fn fails_with(v: ReportValue, e: ReportError) -> bool
    decreases v,
{
    match v {
        ReportValue::Array(items) => exists|i: int| 0 <= i < items.len() && fails_with(#[trigger] items@[i], e),
        ReportValue::Object(fields) => {
            ||| e == ReportError::MissingAaguid && is_aaguid(fields@) && !has_key(fields@, "value"@)
            ||| exists|i: int| 0 <= i < fields.len() && {
                let key = (#[trigger] fields@[i]).0@;
                let value = fields@[i].1;
                if aaguid_entry(fields@, i) {
                    hex_view(value) is None && e == ReportError::InvalidHex
                } else {
                    match field_rule_of(key, kind_of(fields@), has_key(fields@, "constructed"@)) {
                        Some((_, FieldFormat::NamedHex)) => fails_with(value, e),
                        Some((_, f)) => format_fails(f, value, e),
                        None => fails_with(value, e),
                    }
                }
            }
        },
        _ => false,
    }
}

/// The key under which the textual projection writes a field: `_base64` is
/// appended for octet strings, for `values_der`, and for a null `parameters_der`.
pub open spec fn textual_key(key: Seq<char>, v: ReportValue) -> Seq<char> {
    if v is Bytes || key == "values_der"@ || (key == "parameters_der"@ && v is Null) {
        key + "_base64"@
    } else {
        key
    }
}

/// Every octet string in the tree is short enough to be written as Base64.
pub open spec fn encodable(v: ReportValue) -> bool
    decreases v,
{
    match v {
        ReportValue::Bytes(b) => b.len() <= usize::MAX / 4,
        ReportValue::Array(items) => forall|i: int| 0 <= i < items.len() ==> encodable(#[trigger] items@[i]),
        ReportValue::Object(fields) => forall|i: int| 0 <= i < fields.len() ==> encodable((#[trigger] fields@[i]).1),
        _ => true,
    }
}

/// `r` is the textual projection of `v`: octet strings become Base64 text, keys
/// are renamed by [`textual_key`], and every other value is kept.
pub open spec fn textual_rel(v: ReportValue, r: ReportValue) -> bool
    decreases v,
{
    match v {
        ReportValue::Bytes(b) => text_of(r) == Some(base64_text(b@)),
        ReportValue::Array(items) => match r {
            ReportValue::Array(outs) => outs.len() == items.len() && forall|i: int|
                0 <= i < items.len() ==> textual_rel(#[trigger] items@[i], outs@[i]),
            _ => false,
        },
        ReportValue::Object(fields) => match r {
            ReportValue::Object(outs) => outs.len() == fields.len() && forall|i: int|
                0 <= i < fields.len() ==> {
                    &&& outs@[i].0@ == textual_key((#[trigger] fields@[i]).0@, fields@[i].1)
                    &&& textual_rel(fields@[i].1, outs@[i].1)
                },
            _ => false,
        },
        _ => same_leaf(v, r),
    }
}

/// How many of the first `i` entries are not null.
pub open spec fn kept_before(fields: Seq<(String, ReportValue)>, i: int) -> int
    decreases i,
{
    if i <= 0 {
        0
    } else if fields[i - 1].1 is Null {
        kept_before(fields, i - 1)
    } else {
        kept_before(fields, i - 1) + 1
    }
}

/// `r` is the TOML form of `v`: an object drops its null entries, an integer
/// outside the signed 64-bit range becomes its decimal text, and null has no form
/// anywhere else.
pub open spec fn toml_rel(v: ReportValue, r: ReportValue) -> bool
    decreases v,
{
    match v {
        ReportValue::Null => false,
        ReportValue::Integer(n) => if i64::MIN <= n <= i64::MAX {
            r == v
        } else {
            text_of(r) == Some(signed_decimal_text(n as int))
        },
        ReportValue::Array(items) => match r {
            ReportValue::Array(outs) => outs.len() == items.len() && forall|i: int|
                0 <= i < items.len() ==> toml_rel(#[trigger] items@[i], outs@[i]),
            _ => false,
        },
        ReportValue::Object(fields) => match r {
            ReportValue::Object(outs) => outs.len() == kept_before(fields@, fields.len() as int) && forall|i: int|
                0 <= i < fields.len() && (#[trigger] fields@[i]).1 !is Null ==> {
                    &&& outs@[kept_before(fields@, i)].0@ == fields@[i].0@
                    &&& toml_rel(fields@[i].1, outs@[kept_before(fields@, i)].1)
                },
            _ => false,
        },
        _ => same_leaf(v, r),
    }
}

/// What the binary projection writes for entry `i` of an object.
spec fn entry_rel(fields: Seq<(String, ReportValue)>, i: int, out: (String, ReportValue)) -> bool {
    let key = fields[i].0@;
    let value = fields[i].1;
    if aaguid_entry(fields, i) {
        &&& out.0@ == "value"@
        &&& hex_view(value) is Some
        &&& aaguid_rel(hex_view(value).unwrap(), out.1)
    } else {
        match field_rule_of(key, kind_of(fields), has_key(fields, "constructed"@)) {
            Some((name, FieldFormat::NamedHex)) => out.0@ == name && binary_rel(value, out.1),
            Some((name, f)) => out.0@ == name && formatted_rel(f, value, out.1),
            None => out.0@ == key && binary_rel(value, out.1),
        }
    }
}

/// Entry `i` of an object fails the binary projection with this error.
spec fn entry_fails(fields: Seq<(String, ReportValue)>, i: int, e: ReportError) -> bool {
    let key = fields[i].0@;
    let value = fields[i].1;
    if aaguid_entry(fields, i) {
        hex_view(value) is None && e == ReportError::InvalidHex
    } else {
        match field_rule_of(key, kind_of(fields), has_key(fields, "constructed"@)) {
            Some((_, FieldFormat::NamedHex)) => fails_with(value, e),
            Some((_, f)) => format_fails(f, value, e),
            None => fails_with(value, e),
        }
    }
}

/// The index of the first entry with this key.
pub(crate) fn find_key(fields: &Vec<(String, ReportValue)>, key: &str) -> (r: Option<usize>)
    ensures
        match r {
            Some(i) => first_key(fields@, key@, i as int),
            None => !has_key(fields@, key@),
        },
{
    let mut i: usize = 0;
    while i < fields.len()
        invariant
            i <= fields@.len(),
            forall|j: int| 0 <= j < i ==> (#[trigger] fields@[j]).0@ != key@,
        decreases fields@.len() - i,
    {
        if str_eq(fields[i].0.as_str(), key) {
            return Some(i);
        }
        i = i + 1;
    }
    None
}

pub(crate) proof fn lemma_first_key_unique(fields: Seq<(String, ReportValue)>, key: Seq<char>, i: int, j: int)
    requires
        first_key(fields, key, i),
        first_key(fields, key, j),
    ensures
        i == j,
{
    if i < j {
        assert(fields[i].0@ != key);
    } else if j < i {
        assert(fields[j].0@ != key);
    }
}

/// The object's kind tag.
pub(crate) fn kind_tag(fields: &Vec<(String, ReportValue)>) -> (r: Option<String>)
    ensures
        match r {
            Some(t) => kind_of(fields@) == Some(t@),
            None => kind_of(fields@) is None,
        },
{
    match find_key(fields, "kind") {
        Some(i) => {
            proof {
                let c = choose|k: int| first_key(fields@, "kind"@, k);
                lemma_first_key_unique(fields@, "kind"@, i as int, c);
            }
            match &fields[i].1 {
                ReportValue::Text(t) => Some(t.clone()),
                _ => None,
            }
        },
        None => None,
    }
}

/// The octets of a list of integers below 256.
fn octets(v: &ReportValue) -> (r: Option<Vec<u8>>)
    ensures
        match r {
            Some(b) => octets_view(*v) == Some(b@),
            None => octets_view(*v) is None,
        },
{
    match v {
        ReportValue::Array(items) => {
            let mut out: Vec<u8> = Vec::new();
            let mut i: usize = 0;
            while i < items.len()
                invariant
                    *v == ReportValue::Array(*items),
                    i <= items@.len(),
                    out@.len() == i,
                    forall|k: int| 0 <= k < i ==> (#[trigger] octet_of(items@[k])) == Some(out@[k]),
                decreases items@.len() - i,
            {
                match &items[i] {
                    ReportValue::Integer(n) => {
                        if 0 <= *n && *n < 256 {
                            out.push(*n as u8);
                        } else {
                            return None;
                        }
                    },
                    _ => {
                        assert(octet_of(items@[i as int]) is None);
                        return None;
                    },
                }
                i = i + 1;
            }
            assert(octets_view(*v).unwrap() =~= out@);
            Some(out)
        },
        _ => None,
    }
}

/// The octets of hex text.
fn hex_octets(v: &ReportValue) -> (r: Option<Vec<u8>>)
    ensures
        match r {
            Some(b) => hex_view(*v) == Some(b@),
            None => hex_view(*v) is None,
        },
{
    match v {
        ReportValue::Text(s) => decode_hex(s.as_str()),
        _ => None,
    }
}

fn append_hex(out: &mut String, b: &[u8], from: usize, to: usize)
    requires
        from <= to <= b@.len(),
    ensures
        final(out)@ == old(out)@ + hex_lower(b@.subrange(from as int, to as int)),
{
    let part = vstd::slice::slice_subrange(b, from, to);
    let text = encode_hex(part);
    out.append(text.as_str());
}

/// Hyphenated lowercase UUID text of sixteen octets.
fn uuid_hyphenated(b: &[u8]) -> (r: String)
    requires
        b@.len() == 16,
    ensures
        r@ == uuid_text(b@),
{
    proof {
        reveal_strlit("-");
    }
    let mut out = String::new();
    append_hex(&mut out, b, 0, 4);
    out.append("-");
    append_hex(&mut out, b, 4, 6);
    out.append("-");
    append_hex(&mut out, b, 6, 8);
    out.append("-");
    append_hex(&mut out, b, 8, 10);
    out.append("-");
    append_hex(&mut out, b, 10, 16);
    assert(out@ =~= uuid_text(b@));
    out
}

/// The binary form of an AAGUID with these octets.
fn aaguid_value(b: Vec<u8>) -> (r: ReportValue)
    ensures
        aaguid_rel(b@, r),
{
    if b.len() == 16 {
        let text = uuid_hyphenated(b.as_slice());
        let mut m: Vec<(String, ReportValue)> = Vec::new();
        m.push((owned("uuid"), ReportValue::Text(text)));
        ReportValue::Object(m)
    } else {
        let mut d: Vec<(String, ReportValue)> = Vec::new();
        d.push((owned("expected_bytes"), ReportValue::Integer(16)));
        d.push((owned("field"), ReportValue::Text(owned("AAGUID"))));
        d.push((owned("issue"), ReportValue::Text(owned("invalid_length"))));
        let mut m: Vec<(String, ReportValue)> = Vec::new();
        m.push((owned("format_diagnostic"), ReportValue::Object(d)));
        m.push((owned("raw"), ReportValue::Bytes(b)));
        m.push((owned("uuid"), ReportValue::Null));
        ReportValue::Object(m)
    }
}

/// A field written in a rule's format other than `NamedHex`.
fn formatted(f: FieldFormat, v: &ReportValue) -> (r: Result<ReportValue, ReportError>)
    requires
        f != FieldFormat::NamedHex,
    ensures
        match r {
            Ok(o) => formatted_rel(f, *v, o),
            Err(e) => format_fails(f, *v, e) && forall|o: ReportValue| !formatted_rel(f, *v, o),
        },
{
    match f {
        FieldFormat::Octets => {
            if let ReportValue::Null = v {
                Ok(ReportValue::Null)
            } else {
                match octets(v) {
                    Some(b) => Ok(ReportValue::Bytes(b)),
                    None => Err(ReportError::InvalidOctets),
                }
            }
        },
        FieldFormat::Hex => match hex_octets(v) {
            Some(b) => Ok(ReportValue::Bytes(b)),
            None => Err(ReportError::InvalidHex),
        },
        FieldFormat::Serial => match octets(v) {
            Some(b) => Ok(ReportValue::Text(encode_hex(b.as_slice()))),
            None => Err(ReportError::InvalidOctets),
        },
        _ => {
            match v {
                ReportValue::Array(items) => {
                    let mut outs: Vec<ReportValue> = Vec::new();
                    let mut j: usize = 0;
                    while j < items.len()
                        invariant
                            *v == ReportValue::Array(*items),
                            f == FieldFormat::HexList,
                            j <= items@.len(),
                            outs@.len() == j,
                            forall|k: int| 0 <= k < j ==> bytes_of(#[trigger] outs@[k]) is Some
                                && hex_view(items@[k]) == bytes_of(outs@[k]),
                        decreases items@.len() - j,
                    {
                        match hex_octets(&items[j]) {
                            Some(b) => outs.push(ReportValue::Bytes(b)),
                            None => {
                                proof {
                                    assert forall|o: ReportValue| !formatted_rel(f, *v, o) by {
                                        if let ReportValue::Array(os) = o {
                                            if os.len() == items.len() {
                                                assert(bytes_of(os@[j as int]) is None || hex_view(items@[j as int]) != bytes_of(os@[j as int]));
                                            }
                                        }
                                    }
                                }
                                return Err(ReportError::InvalidHex);
                            },
                        }
                        j = j + 1;
                    }
                    Ok(ReportValue::Array(outs))
                },
                _ => Err(ReportError::InvalidDerValues),
            }
        },
    }
}


/// The binary projection of a report tree: byte-carrying fields become octet
/// strings under their report names, a FIDO AAGUID becomes UUID text (or its
/// octets with a length diagnostic), and every other value is kept. Fails
/// exactly when no projection exists: a field that a rule names does not hold
/// what its format reads, or an AAGUID object lacks a hex `value`.
pub fn binary(value: &ReportValue) -> (r: Result<ReportValue, ReportError>)
    ensures
        match r {
            Ok(out) => binary_rel(*value, out),
            Err(e) => fails_with(*value, e) && forall|out: ReportValue| !binary_rel(*value, out),
        },
    decreases value, 1nat,
{
    match value {
        ReportValue::Array(items) => {
            let mut outs: Vec<ReportValue> = Vec::new();
            let mut i: usize = 0;
            while i < items.len()
                invariant
                    *value == ReportValue::Array(*items),
                    i <= items@.len(),
                    outs@.len() == i,
                    forall|k: int| 0 <= k < i ==> binary_rel(#[trigger] items@[k], outs@[k]),
                decreases items@.len() - i,
            {
                proof {
                    assert(decreases_to!(*items => items[i as int]));
                    assert(decreases_to!(*value => (*value)->Array_0));
                    assert(decreases_to!(*value => items[i as int]));
                }
                match binary(&items[i]) {
                    Ok(o) => outs.push(o),
                    Err(e) => {
                        proof {
                            assert forall|o: ReportValue| !binary_rel(*value, o) by {
                                if let ReportValue::Array(os) = o {
                                    if os.len() == items.len() {
                                        assert(!binary_rel(items@[i as int], os@[i as int]));
                                    }
                                }
                            }
                        }
                        return Err(e);
                    },
                }
                i = i + 1;
            }
            Ok(ReportValue::Array(outs))
        },
        ReportValue::Object(fields) => {
            let kind = kind_tag(fields);
            let opaque = find_key(fields, "constructed").is_some();
            let is_fido = match &kind {
                Some(k) => str_eq(k.as_str(), "fido_aaguid"),
                None => false,
            };
            proof {
                reveal_strlit("fido_aaguid");
            }
            let mut aaguid: Option<(usize, Vec<u8>)> = None;
            if is_fido {
                match find_key(fields, "value") {
                    Some(at) => match hex_octets(&fields[at].1) {
                        Some(b) => {
                            aaguid = Some((at, b));
                        },
                        None => {
                            proof {
                                assert forall|o: ReportValue| !binary_rel(*value, o) by {
                                    if let ReportValue::Object(os) = o {
                                        if os.len() == fields.len() {
                                            assert(aaguid_entry(fields@, at as int));
                                            assert(!entry_rel(fields@, at as int, os@[at as int]));
                                        }
                                    }
                                }
                            }
                            return Err(ReportError::InvalidHex);
                        },
                    },
                    None => {
                        proof {
                            assert(is_aaguid(fields@));
                        }
                        return Err(ReportError::MissingAaguid);
                    },
                }
            }
            let mut outs: Vec<(String, ReportValue)> = Vec::new();
            let mut i: usize = 0;
            while i < fields.len()
                invariant
                    *value == ReportValue::Object(*fields),
                    i <= fields@.len(),
                    outs@.len() == i,
                    match &kind {
                        Some(t) => kind_of(fields@) == Some(t@),
                        None => kind_of(fields@) is None,
                    },
                    opaque == has_key(fields@, "constructed"@),
                    match aaguid {
                        Some((at, b)) => aaguid_entry(fields@, at as int) && hex_view(fields@[at as int].1) == Some(b@),
                        None => forall|k: int| !aaguid_entry(fields@, k),
                    },
                    is_aaguid(fields@) ==> has_key(fields@, "value"@),
                    forall|k: int| 0 <= k < i ==> entry_rel(fields@, k, #[trigger] outs@[k]),
                decreases fields@.len() - i,
            {
                let entry = binary_entry(value, i, &kind, opaque, &aaguid);
                match entry {
                    Ok(o) => outs.push(o),
                    Err(e) => {
                        proof {
                            assert forall|o: ReportValue| !binary_rel(*value, o) by {
                                if let ReportValue::Object(os) = o {
                                    if os.len() == fields.len() {
                                        assert(!entry_rel(fields@, i as int, os@[i as int]));
                                    }
                                }
                            }
                        }
                        return Err(e);
                    },
                }
                i = i + 1;
            }
            proof {
                assert forall|k: int| 0 <= k < fields@.len() implies entry_rel(fields@, k, outs@[k]) by {}
            }
            Ok(ReportValue::Object(outs))
        },
        ReportValue::Null => Ok(ReportValue::Null),
        ReportValue::Bool(b) => Ok(ReportValue::Bool(*b)),
        ReportValue::Integer(n) => Ok(ReportValue::Integer(*n)),
        ReportValue::Text(t) => Ok(ReportValue::Text(t.clone())),
        ReportValue::Bytes(b) => Ok(ReportValue::Bytes(vstd::slice::slice_to_vec(b.as_slice()))),
    }
}

/// Entry `i` of an object, projected.
fn binary_entry(
    value: &ReportValue,
    i: usize,
    kind: &Option<String>,
    opaque: bool,
    aaguid: &Option<(usize, Vec<u8>)>,
) -> (r: Result<(String, ReportValue), ReportError>)
    requires
        value matches ReportValue::Object(fields) && i < fields@.len() && {
            &&& match kind {
                Some(t) => kind_of(fields@) == Some(t@),
                None => kind_of(fields@) is None,
            }
            &&& opaque == has_key(fields@, "constructed"@)
            &&& match aaguid {
                Some((at, b)) => aaguid_entry(fields@, *at as int) && hex_view(fields@[*at as int].1) == Some(b@),
                None => forall|k: int| !aaguid_entry(fields@, k),
            }
        },
    ensures
        value matches ReportValue::Object(fields) && match r {
            Ok(o) => entry_rel(fields@, i as int, o),
            Err(e) => entry_fails(fields@, i as int, e) && forall|o: (String, ReportValue)| !entry_rel(fields@, i as int, o),
        },
    decreases value, 0nat,
{
    match value {
        ReportValue::Object(fields) => {
            let key = &fields[i].0;
            let item = &fields[i].1;
            if let Some((at, b)) = aaguid {
                if *at == i {
                    proof {
                        reveal_strlit("value");
                    }
                    let copy = vstd::slice::slice_to_vec(b.as_slice());
                    return Ok((owned("value"), aaguid_value(copy)));
                }
                proof {
                    if aaguid_entry(fields@, i as int) {
                        lemma_first_key_unique(fields@, "value"@, i as int, *at as int);
                    }
                }
            }
            let rule = match kind {
                Some(k) => field_rule(key.as_str(), Some(k.as_str()), opaque),
                None => field_rule(key.as_str(), None, opaque),
            };
            match rule {
                Some((name, FieldFormat::NamedHex)) => match binary(item) {
                    Ok(o) => Ok((name, o)),
                    Err(e) => Err(e),
                },
                Some((name, f)) => match formatted(f, item) {
                    Ok(o) => Ok((name, o)),
                    Err(e) => Err(e),
                },
                None => match binary(item) {
                    Ok(o) => Ok((key.clone(), o)),
                    Err(e) => Err(e),
                },
            }
        },
        _ => Err(ReportError::InvalidDerValues),
    }
}


/// Whether every octet string in the tree can be written as Base64; the textual
/// projection asks it.
pub fn base64_encodable(value: &ReportValue) -> (r: bool)
    ensures
        r == encodable(*value),
    decreases value,
{
    match value {
        ReportValue::Bytes(b) => b.len() <= usize::MAX / 4,
        ReportValue::Array(items) => {
            let mut i: usize = 0;
            while i < items.len()
                invariant
                    *value == ReportValue::Array(*items),
                    i <= items@.len(),
                    forall|k: int| 0 <= k < i ==> encodable(#[trigger] items@[k]),
                decreases items@.len() - i,
            {
                proof {
                    assert(decreases_to!(*items => items[i as int]));
                    assert(decreases_to!(*value => (*value)->Array_0));
                }
                if !base64_encodable(&items[i]) {
                    return false;
                }
                i = i + 1;
            }
            true
        },
        ReportValue::Object(fields) => {
            let mut i: usize = 0;
            while i < fields.len()
                invariant
                    *value == ReportValue::Object(*fields),
                    i <= fields@.len(),
                    forall|k: int| 0 <= k < i ==> encodable((#[trigger] fields@[k]).1),
                decreases fields@.len() - i,
            {
                proof {
                    assert(decreases_to!(*fields => fields[i as int]));
                    assert(decreases_to!(*value => (*value)->Object_0));
                }
                if !base64_encodable(&fields[i].1) {
                    return false;
                }
                i = i + 1;
            }
            true
        },
        _ => true,
    }
}

/// The textual projection of a report tree: octet strings become standard
/// padded Base64 text and their keys gain `_base64` (so do `values_der` and a
/// null `parameters_der`); every other value is kept.
pub fn textual(value: &ReportValue) -> (r: ReportValue)
    requires
        encodable(*value),
    ensures
        textual_rel(*value, r),
    decreases value,
{
    match value {
        ReportValue::Bytes(b) => ReportValue::Text(base64_encode(b.as_slice())),
        ReportValue::Array(items) => {
            let mut outs: Vec<ReportValue> = Vec::new();
            let mut i: usize = 0;
            while i < items.len()
                invariant
                    *value == ReportValue::Array(*items),
                    encodable(*value),
                    i <= items@.len(),
                    outs@.len() == i,
                    forall|k: int| 0 <= k < i ==> textual_rel(#[trigger] items@[k], outs@[k]),
                decreases items@.len() - i,
            {
                proof {
                    assert(decreases_to!(*items => items[i as int]));
                    assert(decreases_to!(*value => (*value)->Array_0));
                }
                outs.push(textual(&items[i]));
                i = i + 1;
            }
            ReportValue::Array(outs)
        },
        ReportValue::Object(fields) => {
            proof {
                reveal_strlit("_base64");
                reveal_strlit("values_der");
                reveal_strlit("parameters_der");
            }
            let mut outs: Vec<(String, ReportValue)> = Vec::new();
            let mut i: usize = 0;
            while i < fields.len()
                invariant
                    *value == ReportValue::Object(*fields),
                    encodable(*value),
                    i <= fields@.len(),
                    outs@.len() == i,
                    forall|k: int| 0 <= k < i ==> {
                        &&& (#[trigger] outs@[k]).0@ == textual_key(fields@[k].0@, fields@[k].1)
                        &&& textual_rel(fields@[k].1, outs@[k].1)
                    },
                decreases fields@.len() - i,
            {
                proof {
                    assert(decreases_to!(*fields => fields[i as int]));
                    assert(decreases_to!(*value => (*value)->Object_0));
                }
                let key = &fields[i].0;
                let item = &fields[i].1;
                let mut name = key.clone();
                let renamed = match item {
                    ReportValue::Bytes(_) => true,
                    ReportValue::Null => str_eq(key.as_str(), "values_der") || str_eq(key.as_str(), "parameters_der"),
                    _ => str_eq(key.as_str(), "values_der"),
                };
                if renamed {
                    name.append("_base64");
                }
                let out = textual(item);
                outs.push((name, out));
                i = i + 1;
            }
            ReportValue::Object(outs)
        },
        ReportValue::Null => ReportValue::Null,
        ReportValue::Bool(b) => ReportValue::Bool(*b),
        ReportValue::Integer(n) => ReportValue::Integer(*n),
        ReportValue::Text(t) => ReportValue::Text(t.clone()),
    }
}


proof fn lemma_kept_before_bounds(fields: Seq<(String, ReportValue)>, i: int, j: int)
    requires
        0 <= i <= j <= fields.len(),
    ensures
        0 <= kept_before(fields, i) <= kept_before(fields, j) <= j,
        i < j && fields[i].1 !is Null ==> kept_before(fields, i) < kept_before(fields, j),
    decreases j - i,
{
    if i < j {
        lemma_kept_before_bounds(fields, i, j - 1);
        lemma_kept_before_bounds_from_zero(fields, j - 1);
    } else {
        lemma_kept_before_bounds_from_zero(fields, j);
    }
}

proof fn lemma_kept_before_bounds_from_zero(fields: Seq<(String, ReportValue)>, j: int)
    requires
        0 <= j <= fields.len(),
    ensures
        0 <= kept_before(fields, j) <= j,
    decreases j,
{
    if j > 0 {
        lemma_kept_before_bounds_from_zero(fields, j - 1);
    }
}

/// The TOML form of a report tree: objects drop their null entries, integers
/// outside the signed 64-bit range become decimal text, and a null anywhere
/// else (a list element, or the whole document) has no form.
pub fn toml_projection(value: &ReportValue) -> (r: Result<ReportValue, TomlError>)
    ensures
        match r {
            Ok(out) => toml_rel(*value, out),
            Err(_) => forall|out: ReportValue| !toml_rel(*value, out),
        },
    decreases value,
{
    match value {
        ReportValue::Null => Err(TomlError::NullArrayElement),
        ReportValue::Integer(n) => {
            if i64::MIN as i128 <= *n && *n <= i64::MAX as i128 {
                Ok(ReportValue::Integer(*n))
            } else {
                Ok(ReportValue::Text(format_decimal(*n)))
            }
        },
        ReportValue::Array(items) => {
            let mut outs: Vec<ReportValue> = Vec::new();
            let mut i: usize = 0;
            while i < items.len()
                invariant
                    *value == ReportValue::Array(*items),
                    i <= items@.len(),
                    outs@.len() == i,
                    forall|k: int| 0 <= k < i ==> toml_rel(#[trigger] items@[k], outs@[k]),
                decreases items@.len() - i,
            {
                proof {
                    assert(decreases_to!(*items => items[i as int]));
                    assert(decreases_to!(*value => (*value)->Array_0));
                }
                match toml_projection(&items[i]) {
                    Ok(o) => outs.push(o),
                    Err(e) => {
                        proof {
                            assert forall|o: ReportValue| !toml_rel(*value, o) by {
                                if let ReportValue::Array(os) = o {
                                    if os.len() == items.len() {
                                        assert(!toml_rel(items@[i as int], os@[i as int]));
                                    }
                                }
                            }
                        }
                        return Err(e);
                    },
                }
                i = i + 1;
            }
            Ok(ReportValue::Array(outs))
        },
        ReportValue::Object(fields) => {
            let mut outs: Vec<(String, ReportValue)> = Vec::new();
            let mut i: usize = 0;
            while i < fields.len()
                invariant
                    *value == ReportValue::Object(*fields),
                    i <= fields@.len(),
                    outs@.len() == kept_before(fields@, i as int),
                    forall|k: int| 0 <= k < i && (#[trigger] fields@[k]).1 !is Null ==> {
                        &&& outs@[kept_before(fields@, k)].0@ == fields@[k].0@
                        &&& toml_rel(fields@[k].1, outs@[kept_before(fields@, k)].1)
                    },
                decreases fields@.len() - i,
            {
                proof {
                    assert(decreases_to!(*fields => fields[i as int]));
                    assert(decreases_to!(*value => (*value)->Object_0));
                }
                let ghost before = outs@;
                if let ReportValue::Null = &fields[i].1 {
                } else {
                    match toml_projection(&fields[i].1) {
                        Ok(o) => {
                            outs.push((fields[i].0.clone(), o));
                            proof {
                                assert forall|k: int| 0 <= k < i && (#[trigger] fields@[k]).1 !is Null implies
                                    outs@[kept_before(fields@, k)] == before[kept_before(fields@, k)] by {
                                    lemma_kept_before_bounds(fields@, k, i as int);
                                }
                            }
                        },
                        Err(e) => {
                            proof {
                                assert forall|o: ReportValue| !toml_rel(*value, o) by {
                                    if let ReportValue::Object(os) = o {
                                        if os.len() == kept_before(fields@, fields@.len() as int) {
                                            assert(fields@[i as int].1 !is Null);
                                            assert(!toml_rel(fields@[i as int].1, os@[kept_before(fields@, i as int)].1));
                                        }
                                    }
                                }
                            }
                            return Err(e);
                        },
                    }
                }
                i = i + 1;
            }
            Ok(ReportValue::Object(outs))
        },
        ReportValue::Bool(b) => Ok(ReportValue::Bool(*b)),
        ReportValue::Text(t) => Ok(ReportValue::Text(t.clone())),
        ReportValue::Bytes(b) => Ok(ReportValue::Bytes(vstd::slice::slice_to_vec(b.as_slice()))),
    }
}

/// The elements of a list.
pub open spec fn items_of(v: ReportValue) -> Option<Seq<ReportValue>> {
    match v {
        ReportValue::Array(items) => Some(items@),
        _ => None,
    }
}

/// Lists that no rule names are never taken for octets: the binary projection
/// keeps such an entry's key and its list of integers as they are.
pub proof fn law_numeric_lists_are_never_octets(fields: Vec<(String, ReportValue)>, r: ReportValue, i: int)
    requires
        binary_rel(ReportValue::Object(fields), r),
        0 <= i < fields.len(),
        !aaguid_entry(fields@, i),
        field_rule_of(fields@[i].0@, kind_of(fields@), has_key(fields@, "constructed"@)) is None,
        items_of(fields@[i].1) is Some,
        forall|k: int| 0 <= k < items_of(fields@[i].1).unwrap().len()
            ==> (#[trigger] items_of(fields@[i].1).unwrap()[k]) is Integer,
    ensures
        entries_of(r) is Some,
        entries_of(r).unwrap()[i].0@ == fields@[i].0@,
        items_of(entries_of(r).unwrap()[i].1) == items_of(fields@[i].1),
{
    if let ReportValue::Object(outs) = r {
        assert(entry_rel(fields@, i, outs@[i]));
        if let ReportValue::Array(items) = fields@[i].1 {
            if let ReportValue::Array(os) = outs@[i].1 {
                assert forall|k: int| 0 <= k < items.len() implies os@[k] == items@[k] by {
                    assert(binary_rel(items@[k], os@[k]));
                    assert(items_of(fields@[i].1).unwrap()[k] == items@[k]);
                }
                assert(os@ =~= items@);
            }
        }
    }
}

/// The octets that a byte-carrying field holds in a given format.
pub open spec fn field_octets(f: FieldFormat, v: ReportValue) -> Option<Seq<u8>> {
    match f {
        FieldFormat::Hex => hex_view(v),
        FieldFormat::Octets => octets_view(v),
        _ => None,
    }
}

/// A hex or octet field reaches the textual report as the Base64 text of its
/// octets, under its report name with `_base64` appended.
pub proof fn law_byte_fields_reach_text_as_base64(
    fields: Vec<(String, ReportValue)>,
    b: ReportValue,
    t: ReportValue,
    i: int,
    name: Seq<char>,
    f: FieldFormat,
)
    requires
        binary_rel(ReportValue::Object(fields), b),
        textual_rel(b, t),
        0 <= i < fields.len(),
        !aaguid_entry(fields@, i),
        field_rule_of(fields@[i].0@, kind_of(fields@), has_key(fields@, "constructed"@)) == Some((name, f)),
        f == FieldFormat::Hex || (f == FieldFormat::Octets && fields@[i].1 !is Null),
    ensures
        field_octets(f, fields@[i].1) is Some,
        entries_of(t) is Some,
        entries_of(t).unwrap()[i].0@ == name + "_base64"@,
        text_of(entries_of(t).unwrap()[i].1) == Some(base64_text(field_octets(f, fields@[i].1).unwrap())),
{
    if let ReportValue::Object(outs) = b {
        assert(entry_rel(fields@, i, outs@[i]));
        if let ReportValue::Object(texts) = t {
            assert(texts@[i].0@ == textual_key(outs@[i].0@, outs@[i].1));
            assert(textual_rel(outs@[i].1, texts@[i].1));
        }
    }
}


/// The schema names the key under which the textual report writes each
/// byte-carrying field (a null octet field other than `parameters_der` aside).
pub proof fn law_schema_names_the_textual_keys(
    fields: Vec<(String, ReportValue)>,
    b: ReportValue,
    t: ReportValue,
    i: int,
    name: Seq<char>,
    format: SchemaFormat,
)
    requires
        binary_rel(ReportValue::Object(fields), b),
        textual_rel(b, t),
        0 <= i < fields.len(),
        !aaguid_entry(fields@, i),
        schema_rule_of(fields@[i].0@, kind_of(fields@), has_key(fields@, "constructed"@)) == Some((name, format)),
        fields@[i].1 is Null ==> fields@[i].0@ == "parameters_der"@,
        fields@[i].1 !is Bytes,
    ensures
        entries_of(t) is Some,
        entries_of(t).unwrap()[i].0@ == name,
{
    reveal_strlit("values_der");
    reveal_strlit("parameters_der");
    reveal_strlit("serial_number_hex");
    reveal_strlit("value_hex");
    reveal_strlit("_base64");
    if let ReportValue::Object(outs) = b {
        assert(entry_rel(fields@, i, outs@[i]));
        if let ReportValue::Object(texts) = t {
            assert(texts@[i].0@ == textual_key(outs@[i].0@, outs@[i].1));
        }
    }
}


proof fn lemma_hex_lower_add(a: Seq<u8>, b: Seq<u8>)
    ensures
        hex_lower(a + b) =~= hex_lower(a) + hex_lower(b),
{
    let ab = a + b;
    assert forall|k: int| 0 <= k < 2 * ab.len() implies #[trigger] hex_lower(ab)[k] == (hex_lower(a) + hex_lower(b))[k] by {
        if k < 2 * a.len() {
            assert(ab[k / 2] == a[k / 2]);
        } else {
            assert((k - 2 * a.len()) / 2 == k / 2 - a.len());
            assert((k - 2 * a.len()) % 2 == k % 2);
            assert(ab[k / 2] == b[k / 2 - a.len()]);
        }
    }
}

/// An AAGUID's UUID text keeps its octets in order: without its hyphens it is
/// the hex of the sixteen octets, with no field reordered or byte-swapped.
pub proof fn law_aaguid_text_keeps_octet_order(b: Seq<u8>)
    requires
        b.len() == 16,
    ensures
        hex_lower(b.subrange(0, 4)) + hex_lower(b.subrange(4, 6)) + hex_lower(b.subrange(6, 8))
            + hex_lower(b.subrange(8, 10)) + hex_lower(b.subrange(10, 16)) == hex_lower(b),
        uuid_text(b).len() == 36,
        uuid_text(b)[8] == '-' && uuid_text(b)[13] == '-' && uuid_text(b)[18] == '-' && uuid_text(b)[23] == '-',
{
    lemma_hex_lower_add(b.subrange(0, 4), b.subrange(4, 6));
    assert(b.subrange(0, 4) + b.subrange(4, 6) =~= b.subrange(0, 6));
    lemma_hex_lower_add(b.subrange(0, 6), b.subrange(6, 8));
    assert(b.subrange(0, 6) + b.subrange(6, 8) =~= b.subrange(0, 8));
    lemma_hex_lower_add(b.subrange(0, 8), b.subrange(8, 10));
    assert(b.subrange(0, 8) + b.subrange(8, 10) =~= b.subrange(0, 10));
    lemma_hex_lower_add(b.subrange(0, 10), b.subrange(10, 16));
    assert(b.subrange(0, 10) + b.subrange(10, 16) =~= b);
}

} // verus!
