//! Name enrichment of a serialized report: every otherName, ediPartyName and
//! x400Address object gains the fields that `GeneralName::details` decodes from
//! it (`decoded_fields`) or the diagnostic that explains why it could not
//! (`decode_diagnostic`). Fields are only added, never replaced or removed.
use vstd::prelude::*;
use crate::decoding::{DecodeDiagnostic, DecodeIssue};
use crate::encoding::{find_key, first_key, kind_tag, kind_of, lemma_first_key_unique, same_leaf, text_of, entries_of, ReportValue};
use crate::extensions::details::{name_details_match, NameDetails};
use crate::extensions::GeneralName;
use crate::text::{owned, str_eq};

verus! {

/// The value of the object's first entry with this key.
pub open spec fn entry_value(fields: Seq<(String, ReportValue)>, key: Seq<char>) -> Option<ReportValue> {
    if exists|i: int| first_key(fields, key, i) {
        Some(fields[choose|i: int| first_key(fields, key, i)].1)
    } else {
        None
    }
}

/// The text leaf stored under `key`.
pub open spec fn text_entry(fields: Seq<(String, ReportValue)>, key: Seq<char>) -> Option<String> {
    match entry_value(fields, key) {
        Some(ReportValue::Text(s)) => Some(s),
        _ => None,
    }
}

/// The boolean leaf stored under `key`.
pub open spec fn bool_entry(fields: Seq<(String, ReportValue)>, key: Seq<char>) -> Option<bool> {
    match entry_value(fields, key) {
        Some(ReportValue::Bool(b)) => Some(b),
        _ => None,
    }
}

/// The GeneralName a serialized otherName, ediPartyName or x400Address object
/// stands for: its `kind` tag, and in its `value` object the otherName's `oid`,
/// optional `name` and `value_der_hex`, or the opaque name's `constructed` flag
/// and `content_hex`. None for any other object, or a value missing a field.
pub open spec fn serialized_name(fields: Seq<(String, ReportValue)>) -> Option<GeneralName> {
    match entry_value(fields, "value"@) {
        Some(ReportValue::Object(v)) => {
            let kind = kind_of(fields);
            if kind == Some("other_name"@) {
                match (text_entry(v@, "oid"@), text_entry(v@, "value_der_hex"@)) {
                    (Some(oid), Some(hex)) => Some(GeneralName::OtherName { oid, name: text_entry(v@, "name"@), value_der_hex: hex }),
                    _ => None,
                }
            } else if kind == Some("edi_party_name"@) || kind == Some("x400_address"@) {
                match (bool_entry(v@, "constructed"@), text_entry(v@, "content_hex"@)) {
                    (Some(c), Some(hex)) => if kind == Some("edi_party_name"@) {
                        Some(GeneralName::EdiPartyName { constructed: c, content_hex: hex })
                    } else {
                        Some(GeneralName::X400Address { constructed: c, content_hex: hex })
                    },
                    _ => None,
                }
            } else {
                None
            }
        },
        _ => None,
    }
}

/// The serialized name of a diagnostic category.
pub open spec fn issue_text(i: DecodeIssue) -> Seq<char> {
    match i {
        DecodeIssue::InvalidEncoding => "invalid_encoding"@,
        DecodeIssue::UnsupportedEncoding => "unsupported_encoding"@,
        DecodeIssue::RepresentationLimit => "representation_limit"@,
        DecodeIssue::UnknownType => "unknown_type"@,
        DecodeIssue::Unclassified => "unclassified"@,
    }
}

/// `v` is the serialized diagnostic: `issue` then `field`.
pub open spec fn diagnostic_value(d: DecodeDiagnostic, v: ReportValue) -> bool {
    match entries_of(v) {
        Some(m) => {
            &&& m.len() == 2
            &&& m[0].0@ == "issue"@ && text_of(m[0].1) == Some(issue_text(d.issue))
            &&& m[1].0@ == "field"@ && text_of(m[1].1) == Some(d.field@)
        },
        None => false,
    }
}

/// `v` is the serialized `kind`/`value` pair with this kind.
pub open spec fn tagged(v: ReportValue, kind: Seq<char>) -> bool {
    match entries_of(v) {
        Some(m) => m.len() == 2 && m[0].0@ == "kind"@ && text_of(m[0].1) == Some(kind) && m[1].0@ == "value"@,
        None => false,
    }
}

/// The `value` half of a serialized `kind`/`value` pair.
pub open spec fn tagged_value(v: ReportValue) -> ReportValue {
    entries_of(v).unwrap()[1].1
}

/// `v` is the serialized name details: null when there are none, else the
/// details' kind and its text or fields.
pub open spec fn details_value(d: Option<NameDetails>, v: ReportValue) -> bool {
    match d {
        None => v is Null,
        Some(NameDetails::UserPrincipalName(s)) => tagged(v, "user_principal_name"@) && text_of(tagged_value(v)) == Some(s@),
        Some(NameDetails::DnsSrv(s)) => tagged(v, "dns_srv"@) && text_of(tagged_value(v)) == Some(s@),
        Some(NameDetails::XmppAddress(s)) => tagged(v, "xmpp_address"@) && text_of(tagged_value(v)) == Some(s@),
        Some(NameDetails::HardwareModule { type_oid, serial_hex }) => tagged(v, "hardware_module"@) && match entries_of(tagged_value(v)) {
            Some(m) => m.len() == 2 && m[0].0@ == "type_oid"@ && text_of(m[0].1) == Some(type_oid@)
                && m[1].0@ == "serial_hex"@ && text_of(m[1].1) == Some(serial_hex@),
            None => false,
        },
        Some(NameDetails::EdiPartyName { name_assigner, party_name }) => tagged(v, "edi_party_name"@) && match entries_of(tagged_value(v)) {
            Some(m) => m.len() == 2 && m[0].0@ == "name_assigner"@ && match name_assigner {
                Some(a) => text_of(m[0].1) == Some(a@),
                None => m[0].1 is Null,
            } && m[1].0@ == "party_name"@ && text_of(m[1].1) == Some(party_name@),
            None => false,
        },
    }
}

/// The entry that enrichment adds for the name `g`: its decoded fields, or the
/// diagnostic that explains why they could not be decoded.
pub open spec fn added_entry(g: GeneralName, e: (String, ReportValue)) -> bool {
    exists|r: Result<Option<NameDetails>, DecodeDiagnostic>| #[trigger] name_details_match(g, r) && match r {
        Ok(d) => e.0@ == "decoded_fields"@ && details_value(d, e.1),
        Err(d) => e.0@ == "decode_diagnostic"@ && diagnostic_value(d, e.1),
    }
}

/// `r` is `v` with its names enriched: lists and objects keep their elements and
/// entries in order (each enriched in turn), an object that stands for an
/// otherName, ediPartyName or x400Address gains exactly one entry after them,
/// and every other value is kept.
pub open spec fn names_enriched(v: ReportValue, r: ReportValue) -> bool
    decreases v,
{
    match v {
        ReportValue::Array(items) => match r {
            ReportValue::Array(outs) => outs.len() == items.len() && forall|i: int|
                0 <= i < items.len() ==> names_enriched(#[trigger] items@[i], outs@[i]),
            _ => false,
        },
        ReportValue::Object(fields) => match r {
            ReportValue::Object(outs) => {
                &&& forall|i: int| 0 <= i < fields.len() ==> {
                    &&& outs@[i].0@ == (#[trigger] fields@[i]).0@
                    &&& names_enriched(fields@[i].1, outs@[i].1)
                }
                &&& match serialized_name(fields@) {
                    Some(g) => outs.len() == fields.len() + 1 && added_entry(g, outs@[fields.len() as int]),
                    None => outs.len() == fields.len(),
                }
            },
            _ => false,
        },
        _ => same_leaf(v, r),
    }
}


pub(crate) fn entry_of<'a>(fields: &'a Vec<(String, ReportValue)>, key: &str) -> (r: Option<&'a ReportValue>)
    ensures
        match r {
            Some(v) => entry_value(fields@, key@) == Some(*v),
            None => entry_value(fields@, key@) is None,
        },
{
    match find_key(fields, key) {
        Some(i) => {
            proof {
                let c = choose|k: int| first_key(fields@, key@, k);
                lemma_first_key_unique(fields@, key@, i as int, c);
            }
            Some(&fields[i].1)
        },
        None => {
            proof {
                if exists|k: int| first_key(fields@, key@, k) {
                    let c = choose|k: int| first_key(fields@, key@, k);
                    assert(fields@[c].0@ == key@);
                }
            }
            None
        },
    }
}

fn text_field(fields: &Vec<(String, ReportValue)>, key: &str) -> (r: Option<String>)
    ensures
        r == text_entry(fields@, key@),
{
    match entry_of(fields, key) {
        Some(ReportValue::Text(s)) => Some(s.clone()),
        _ => None,
    }
}

fn bool_field(fields: &Vec<(String, ReportValue)>, key: &str) -> (r: Option<bool>)
    ensures
        r == bool_entry(fields@, key@),
{
    match entry_of(fields, key) {
        Some(ReportValue::Bool(b)) => Some(*b),
        _ => None,
    }
}

/// The GeneralName a serialized object stands for, if any.
fn name_of(fields: &Vec<(String, ReportValue)>) -> (r: Option<GeneralName>)
    ensures
        r == serialized_name(fields@),
{
    proof {
        reveal_strlit("value");
        reveal_strlit("other_name");
        reveal_strlit("edi_party_name");
        reveal_strlit("x400_address");
    }
    let v = match entry_of(fields, "value") {
        Some(ReportValue::Object(v)) => v,
        _ => {
            return None;
        },
    };
    let kind = kind_tag(fields);
    let (other, edi, x400) = match &kind {
        Some(k) => (str_eq(k.as_str(), "other_name"), str_eq(k.as_str(), "edi_party_name"), str_eq(k.as_str(), "x400_address")),
        None => (false, false, false),
    };
    if other {
        match (text_field(v, "oid"), text_field(v, "value_der_hex")) {
            (Some(oid), Some(hex)) => Some(GeneralName::OtherName { oid, name: text_field(v, "name"), value_der_hex: hex }),
            _ => None,
        }
    } else if edi || x400 {
        match (bool_field(v, "constructed"), text_field(v, "content_hex")) {
            (Some(c), Some(hex)) => if edi {
                Some(GeneralName::EdiPartyName { constructed: c, content_hex: hex })
            } else {
                Some(GeneralName::X400Address { constructed: c, content_hex: hex })
            },
            _ => None,
        }
    } else {
        None
    }
}

fn text_value(s: &str) -> (r: ReportValue)
    ensures
        text_of(r) == Some(s@),
{
    ReportValue::Text(owned(s))
}

fn issue_name(i: DecodeIssue) -> (r: &'static str)
    ensures
        r@ == issue_text(i),
{
    match i {
        DecodeIssue::InvalidEncoding => {
            proof { reveal_strlit("invalid_encoding"); }
            "invalid_encoding"
        },
        DecodeIssue::UnsupportedEncoding => {
            proof { reveal_strlit("unsupported_encoding"); }
            "unsupported_encoding"
        },
        DecodeIssue::RepresentationLimit => {
            proof { reveal_strlit("representation_limit"); }
            "representation_limit"
        },
        DecodeIssue::UnknownType => {
            proof { reveal_strlit("unknown_type"); }
            "unknown_type"
        },
        DecodeIssue::Unclassified => {
            proof { reveal_strlit("unclassified"); }
            "unclassified"
        },
    }
}

/// The serialized diagnostic.
fn diagnostic_tree(d: &DecodeDiagnostic) -> (r: ReportValue)
    ensures
        diagnostic_value(*d, r),
{
    let mut m: Vec<(String, ReportValue)> = Vec::new();
    m.push((owned("issue"), text_value(issue_name(d.issue))));
    m.push((owned("field"), ReportValue::Text(d.field.clone())));
    ReportValue::Object(m)
}

fn tagged_tree(kind: &str, value: ReportValue) -> (r: ReportValue)
    ensures
        tagged(r, kind@),
        tagged_value(r) == value,
{
    let mut m: Vec<(String, ReportValue)> = Vec::new();
    m.push((owned("kind"), text_value(kind)));
    m.push((owned("value"), value));
    ReportValue::Object(m)
}

/// The serialized name details.
fn details_tree(d: &Option<NameDetails>) -> (r: ReportValue)
    ensures
        details_value(*d, r),
{
    match d {
        None => ReportValue::Null,
        Some(NameDetails::UserPrincipalName(s)) => tagged_tree("user_principal_name", ReportValue::Text(s.clone())),
        Some(NameDetails::DnsSrv(s)) => tagged_tree("dns_srv", ReportValue::Text(s.clone())),
        Some(NameDetails::XmppAddress(s)) => tagged_tree("xmpp_address", ReportValue::Text(s.clone())),
        Some(NameDetails::HardwareModule { type_oid, serial_hex }) => {
            let mut m: Vec<(String, ReportValue)> = Vec::new();
            m.push((owned("type_oid"), ReportValue::Text(type_oid.clone())));
            m.push((owned("serial_hex"), ReportValue::Text(serial_hex.clone())));
            tagged_tree("hardware_module", ReportValue::Object(m))
        },
        Some(NameDetails::EdiPartyName { name_assigner, party_name }) => {
            let assigner = match name_assigner {
                Some(a) => ReportValue::Text(a.clone()),
                None => ReportValue::Null,
            };
            let mut m: Vec<(String, ReportValue)> = Vec::new();
            m.push((owned("name_assigner"), assigner));
            m.push((owned("party_name"), ReportValue::Text(party_name.clone())));
            tagged_tree("edi_party_name", ReportValue::Object(m))
        },
    }
}

/// The entry enrichment adds for a name.
fn added(g: &GeneralName) -> (e: (String, ReportValue))
    ensures
        added_entry(*g, e),
{
    let r = g.details();
    let e = match &r {
        Ok(d) => (owned("decoded_fields"), details_tree(d)),
        Err(d) => (owned("decode_diagnostic"), diagnostic_tree(d)),
    };
    proof {
        reveal_strlit("decoded_fields");
        reveal_strlit("decode_diagnostic");
        assert(name_details_match(*g, r));
    }
    e
}

/// Enrich every serialized otherName, ediPartyName and x400Address object with
/// `decoded_fields` (when `GeneralName::details` decodes it) or
/// `decode_diagnostic` (when it does not), added after the object's entries;
/// nothing else changes.
pub fn enrich_names(report: &ReportValue) -> (r: ReportValue)
    ensures
        names_enriched(*report, r),
    decreases report,
{
    match report {
        ReportValue::Array(items) => {
            let mut outs: Vec<ReportValue> = Vec::new();
            let mut i: usize = 0;
            while i < items.len()
                invariant
                    *report == ReportValue::Array(*items),
                    i <= items@.len(),
                    outs@.len() == i,
                    forall|k: int| 0 <= k < i ==> names_enriched(#[trigger] items@[k], outs@[k]),
                decreases items@.len() - i,
            {
                proof {
                    assert(decreases_to!(*items => items[i as int]));
                    assert(decreases_to!(*report => (*report)->Array_0));
                }
                outs.push(enrich_names(&items[i]));
                i = i + 1;
            }
            ReportValue::Array(outs)
        },
        ReportValue::Object(fields) => {
            let mut outs: Vec<(String, ReportValue)> = Vec::new();
            let mut i: usize = 0;
            while i < fields.len()
                invariant
                    *report == ReportValue::Object(*fields),
                    i <= fields@.len(),
                    outs@.len() == i,
                    forall|k: int| 0 <= k < i ==> {
                        &&& (#[trigger] outs@[k]).0@ == fields@[k].0@
                        &&& names_enriched(fields@[k].1, outs@[k].1)
                    },
                decreases fields@.len() - i,
            {
                proof {
                    assert(decreases_to!(*fields => fields[i as int]));
                    assert(decreases_to!(*report => (*report)->Object_0));
                }
                let value = enrich_names(&fields[i].1);
                outs.push((fields[i].0.clone(), value));
                i = i + 1;
            }
            match name_of(fields) {
                Some(g) => {
                    let e = added(&g);
                    outs.push(e);
                },
                None => {},
            }
            let r = ReportValue::Object(outs);
            proof {
                assert forall|k: int| 0 <= k < fields@.len() implies {
                    &&& outs@[k].0@ == (#[trigger] fields@[k]).0@
                    &&& names_enriched(fields@[k].1, outs@[k].1)
                } by {}
            }
            r
        },
        ReportValue::Null => ReportValue::Null,
        ReportValue::Bool(b) => ReportValue::Bool(*b),
        ReportValue::Integer(n) => ReportValue::Integer(*n),
        ReportValue::Text(t) => ReportValue::Text(t.clone()),
        ReportValue::Bytes(b) => ReportValue::Bytes(vstd::slice::slice_to_vec(b.as_slice())),
    }
}

} // verus!
