//! Distinguished names with RDN grouping, repeated attributes and order retained.
use vstd::prelude::*;
use crate::backend::{self, DerValue, RawAttribute, RawName};
use crate::decoding::{self, DecodeDiagnostic, DecodeIssue, reports};
use crate::oids::OidNames;
use crate::text::{decode_hex, encode_hex, hex_decoded, hex_lower, opt_view};

verus! {

/// One attribute in a relative distinguished name; no normalization or name matching.
#[derive(Clone, Debug, PartialEq, Eq)]
#[non_exhaustive]
pub struct NameAttribute {
    /// Dotted-decimal attribute OID, including unknown attributes.
    pub oid: String,
    /// Presentation label from the caller's OID table (for example CN or O).
    pub label: Option<String>,
    /// Decoded UTF-8/Printable/Numeric/IA5/Visible/BMP/Universal text, or None.
    /// No lossy decoding is used. Raw value content remains available in value_hex.
    pub value: Option<String>,
    /// ASN.1 tag number of the value; the complete Name DER preserves its header.
    pub value_tag: u32,
    /// Lowercase hexadecimal ASN.1 value content, without tag/length bytes.
    pub value_hex: String,
}

/// Owned distinguished name, retaining RDN grouping, repeated attributes and order.
#[derive(Clone, Debug, PartialEq, Eq)]
#[non_exhaustive]
pub struct DistinguishedName {
    /// Parser-generated display text; do not use string equality as name matching.
    pub display: String,
    /// RDNs in encoded order, each containing its attributes in encoded order.
    pub rdns: Vec<Vec<NameAttribute>>,
    /// Complete DER Name encoding, preserving string types and exact bytes.
    pub der: Vec<u8>,
}

/// `a` is the owned form of `raw`: OID, caller label, decoded text, tag and hex.
pub open spec fn attribute_matches(a: NameAttribute, raw: RawAttribute, names: OidNames) -> bool {
    &&& a.oid@ == raw.oid@
    &&& opt_view(a.label) == names.label(raw.oid@)
    &&& opt_view(a.value) == decoding::decoded_text(raw.value)
    &&& a.value_tag == raw.value.tag
    &&& a.value_hex@ == hex_lower(raw.value.data@)
}

/// Every attribute of `owned` is the owned form of the one at the same position.
pub open spec fn attributes_match(owned: Seq<NameAttribute>, raw: Seq<RawAttribute>, names: OidNames) -> bool {
    owned.len() == raw.len() && forall|j: int| 0 <= j < raw.len() ==> attribute_matches(#[trigger] owned[j], raw[j], names)
}

/// Every RDN of `owned` matches the RDN at the same position, in order.
pub open spec fn rdns_match(owned: Seq<Vec<NameAttribute>>, raw: Seq<Vec<RawAttribute>>, names: OidNames) -> bool {
    owned.len() == raw.len() && forall|i: int| 0 <= i < raw.len() ==> attributes_match((#[trigger] owned[i])@, raw[i]@, names)
}

/// Copy one attribute, decoding its text when the string type is supported.
pub fn inspect_attribute(attr: &RawAttribute, names: &OidNames) -> (r: NameAttribute)
    ensures
        attribute_matches(r, *attr, *names),
{
    let label = names.get(attr.oid.as_str());
    let value = match decoding::text(&attr.value) {
        Ok(s) => Some(s),
        Err(_) => None,
    };
    NameAttribute {
        oid: attr.oid.clone(),
        label,
        value,
        value_tag: attr.value.tag,
        value_hex: encode_hex(attr.value.data.as_slice()),
    }
}

/// Copy a list of attributes in order.
pub fn inspect_attributes(attrs: &Vec<RawAttribute>, names: &OidNames) -> (r: Vec<NameAttribute>)
    ensures
        attributes_match(r@, attrs@, *names),
{
    let mut out: Vec<NameAttribute> = Vec::new();
    let mut j: usize = 0;
    while j < attrs.len()
        invariant
            j <= attrs@.len(),
            out@.len() == j,
            forall|k: int| 0 <= k < j ==> attribute_matches(#[trigger] out@[k], attrs@[k], *names),
        decreases attrs@.len() - j,
    {
        out.push(inspect_attribute(&attrs[j], names));
        j = j + 1;
    }
    out
}

/// `d` is the owned form of the parsed name `raw` whose encoding is `der`.
pub open spec fn name_matches(d: DistinguishedName, raw: RawName, der: Seq<u8>, names: OidNames) -> bool {
    &&& d.display@ == raw.display@
    &&& d.der@ == der
    &&& rdns_match(d.rdns@, raw.rdns@, names)
}

/// Copy a parsed name: display text, complete DER and every RDN in order.
pub fn inspect_name(raw: &RawName, der: &[u8], names: &OidNames) -> (r: DistinguishedName)
    ensures
        name_matches(r, *raw, der@, *names),
{
    let mut rdns: Vec<Vec<NameAttribute>> = Vec::new();
    let mut i: usize = 0;
    while i < raw.rdns.len()
        invariant
            i <= raw.rdns@.len(),
            rdns@.len() == i,
            forall|k: int| 0 <= k < i ==> attributes_match((#[trigger] rdns@[k])@, raw.rdns@[k]@, *names),
        decreases raw.rdns@.len() - i,
    {
        rdns.push(inspect_attributes(&raw.rdns[i], names));
        i = i + 1;
    }
    DistinguishedName { display: raw.display.clone(), rdns, der: vstd::slice::slice_to_vec(der) }
}

/// The owned name `inspect_name_der` reports for `der`: the whole input must be
/// one Name.
pub open spec fn name_der_matches(r: Option<DistinguishedName>, der: Seq<u8>, names: OidNames) -> bool {
    match backend::distinguished_name_of(der) {
        Some(raw) => if raw.remaining == 0 {
            r matches Some(d) && name_matches(d, raw, der, names)
        } else {
            r is None
        },
        None => r is None,
    }
}

/// Parse and copy one complete DER Name; None when it does not parse or bytes follow it.
pub fn inspect_name_der(der: &[u8], names: &OidNames) -> (r: Option<DistinguishedName>)
    ensures
        name_der_matches(r, der@, *names),
{
    match backend::distinguished_name(der) {
        Some(raw) => {
            if raw.remaining != 0 {
                None
            } else {
                Some(inspect_name(&raw, der, names))
            }
        },
        None => None,
    }
}

/// The diagnostic `NameAttribute::diagnostic` reports for a tag and value hex, if
/// any: the value is re-read as a universal value with that tag (constructed
/// exactly for SEQUENCE and SET, as the parser builds a value from a tag alone).
pub open spec fn attribute_diagnostic(tag: u32, value_hex: Seq<char>) -> Option<(DecodeIssue, Seq<char>)> {
    match hex_decoded(value_hex) {
        None => Some((DecodeIssue::InvalidEncoding, "name value hex"@)),
        Some(bytes) => {
            let constructed = tag == 16 || tag == 17;
            if decoding::string_text(0, constructed, tag, bytes) is Some {
                None
            } else {
                Some(decoding::string_failure(0, constructed, tag))
            }
        },
    }
}

impl NameAttribute {
    /// Explain missing text by re-decoding the retained tag/content. No name policy runs.
    /// Returns None when text is decodable, including for a mutated public field.
    pub fn diagnostic(&self) -> (r: Option<DecodeDiagnostic>)
        ensures
            match (r, attribute_diagnostic(self.value_tag, self.value_hex@)) {
                (Some(d), Some((issue, field))) => reports(d, issue, field),
                (None, None) => true,
                _ => false,
            },
    {
        let bytes = match decode_hex(self.value_hex.as_str()) {
            Some(b) => b,
            None => {
                return Some(DecodeDiagnostic::invalid("name value hex"));
            },
        };
        let tag = self.value_tag;
        let value = DerValue { class: 0, constructed: tag == 16 || tag == 17, tag, data: bytes };
        match decoding::text(&value) {
            Ok(_) => None,
            Err(d) => Some(d),
        }
    }
}

} // verus!
