//! Policy, time, marker and legacy extensions decoded with the RustCrypto types.
use vstd::prelude::*;
use crate::backend;
use crate::decoding::{self, DecodeDiagnostic, DecodeIssue, exactly_framed, lemma_framed_narrows, reports};
use crate::extensions::{constraints, transparency, ExtensionDetails};
use crate::oids::OidNames;
use crate::rustcrypto::{self, RawDirectoryAttribute};
use crate::text::{decode_hex, encode_hex, hex_decoded, hex_lower, opt_view, str_eq};

verus! {

/// Policy counters asserted by the certificate, without path-policy evaluation.
#[derive(Clone, Copy, Debug, PartialEq, Eq, Structural)]
#[non_exhaustive]
pub struct PolicyConstraints {
    /// Number of additional certificates before an explicit policy is required.
    pub require_explicit_policy: Option<u32>,
    /// Number of additional certificates before policy mapping is inhibited.
    pub inhibit_policy_mapping: Option<u32>,
}

/// One issuer-to-subject policy mapping; order and duplicate pairs are retained.
#[derive(Clone, Debug, PartialEq, Eq)]
#[non_exhaustive]
pub struct PolicyMapping {
    /// Issuer domain policy OID in dotted-decimal notation.
    pub issuer_domain_policy: String,
    /// Caller-configurable issuer policy label, if known.
    pub issuer_domain_policy_name: Option<String>,
    /// Subject domain policy OID in dotted-decimal notation.
    pub subject_domain_policy: String,
    /// Caller-configurable subject policy label, if known.
    pub subject_domain_policy_name: Option<String>,
}

/// Optional private-key usage bounds. This does not change certificate validity.
#[derive(Clone, Copy, Debug, PartialEq, Eq, Structural)]
#[non_exhaustive]
pub struct PrivateKeyUsagePeriod {
    /// Inclusive start in Unix seconds, if encoded; no clock is read.
    pub not_before_unix: Option<i64>,
    /// Inclusive end in Unix seconds, if encoded; interval order is not enforced.
    pub not_after_unix: Option<i64>,
}

/// A subject directory attribute with its multi-valued ASN.1 SET preserved.
#[derive(Clone, Debug, PartialEq, Eq)]
pub struct DirectoryAttribute {
    /// Dotted-decimal attribute OID.
    pub oid: String,
    /// Caller-configurable presentation label, if known.
    pub name: Option<String>,
    /// Complete DER values in lowercase hex and encoded SET order.
    /// Attribute-specific interpretation is left to the caller.
    pub values_der_hex: Vec<String>,
}

/// Legacy Netscape certificate-type assertions, not enforced permissions.
#[derive(Clone, Copy, Debug, PartialEq, Eq, Structural)]
#[non_exhaustive]
pub struct NetscapeCertificateType {
    /// SSL client assertion.
    pub ssl_client: bool,
    /// SSL server assertion.
    pub ssl_server: bool,
    /// S/MIME assertion.
    pub smime: bool,
    /// Object signing assertion.
    pub object_signing: bool,
    /// Encoded reserved bit, retained without interpretation.
    pub reserved: bool,
    /// SSL certification-authority assertion.
    pub ssl_ca: bool,
    /// S/MIME certification-authority assertion.
    pub smime_ca: bool,
    /// Object-signing certification-authority assertion.
    pub object_signing_ca: bool,
}

/// The extension OIDs this module decodes.
pub open spec fn additional_oid(oid: Seq<char>) -> bool {
    oid == "2.5.29.30"@ || oid == "2.5.29.36"@ || oid == "2.5.29.33"@ || oid == "2.5.29.54"@
        || oid == "2.5.29.16"@ || oid == "2.5.29.9"@ || oid == "1.3.6.1.5.5.7.1.24"@
        || oid == "1.3.6.1.5.5.7.48.1.5"@ || oid == "1.3.6.1.4.1.11129.2.4.3"@
        || oid == "2.16.840.1.113730.1.13"@ || oid == "2.16.840.1.113730.1.1"@
        || oid == "1.3.6.1.4.1.11129.2.4.2"@
}

/// The mappings match the decoded OID pairs, labelled from the caller's table.
pub open spec fn mappings_match(v: Seq<PolicyMapping>, pairs: Seq<(Seq<char>, Seq<char>)>, names: OidNames) -> bool {
    v.len() == pairs.len() && forall|i: int| 0 <= i < pairs.len() ==> {
        &&& (#[trigger] v[i]).issuer_domain_policy@ == pairs[i].0
        &&& opt_view(v[i].issuer_domain_policy_name) == names.label(pairs[i].0)
        &&& v[i].subject_domain_policy@ == pairs[i].1
        &&& opt_view(v[i].subject_domain_policy_name) == names.label(pairs[i].1)
    }
}

/// An attribute decodes: it has a value, and every value could be re-encoded.
pub open spec fn attribute_ok(a: RawDirectoryAttribute) -> bool {
    a.1@.len() > 0 && forall|j: int| 0 <= j < a.1@.len() ==> (#[trigger] a.1@[j]) is Some
}

/// `d` is the projection of a decodable attribute.
pub open spec fn attribute_matches(d: DirectoryAttribute, a: RawDirectoryAttribute, names: OidNames) -> bool {
    &&& d.oid@ == a.0@
    &&& opt_view(d.name) == names.label(a.0@)
    &&& d.values_der_hex@.len() == a.1@.len()
    &&& forall|j: int| 0 <= j < a.1@.len() ==> (#[trigger] d.values_der_hex@[j])@ == hex_lower(a.1@[j].unwrap()@)
}

/// The Netscape certificate type for `bytes`: a one-octet BIT STRING that the
/// backend reads completely; the reserved flag is bit 4 (0x08) of that octet.
pub open spec fn netscape_matches(bytes: Seq<u8>, r: Option<ExtensionDetails>) -> bool {
    match rustcrypto::bit_string_of(bytes) {
        Ok((data, _)) => if data@.len() == 1 {
            match backend::netscape_type_of(bytes) {
                Some(n) => if n.remaining == 0 {
                    r == Some(ExtensionDetails::NetscapeCertificateType(NetscapeCertificateType {
                        ssl_client: n.ssl_client,
                        ssl_server: n.ssl_server,
                        smime: n.smime,
                        object_signing: n.object_signing,
                        reserved: data@[0] & 8 != 0,
                        ssl_ca: n.ssl_ca,
                        smime_ca: n.smime_ca,
                        object_signing_ca: n.object_signing_ca,
                    }))
                } else {
                    r is None
                },
                None => r is None,
            }
        } else {
            r is None
        },
        Err(_) => r is None,
    }
}

/// The Subject Directory Attributes result for `bytes`: a non-empty list of
/// attributes that each have values, projected in order; otherwise None.
pub open spec fn directory_attributes_match(bytes: Seq<u8>, names: OidNames, r: Option<ExtensionDetails>) -> bool {
    match rustcrypto::subject_directory_attributes_of(bytes) {
        Some(l) => if l@.len() > 0 && forall|i: int| 0 <= i < l@.len() ==> attribute_ok(#[trigger] l@[i]) {
            match r {
                Some(ExtensionDetails::SubjectDirectoryAttributes(v)) => v@.len() == l@.len()
                    && forall|i: int| 0 <= i < l@.len() ==> attribute_matches(#[trigger] v@[i], l@[i], names),
                _ => false,
            }
        } else {
            r is None
        },
        None => r is None,
    }
}

/// Whether a value of an `additional_oid` extension decodes, stated without the
/// caller's labels.
pub open spec fn additional_decodable(oid: Seq<char>, bytes: Seq<u8>) -> bool {
    if oid == "2.5.29.30"@ {
        match rustcrypto::name_constraints_of(bytes) {
            Ok((p, e)) => (p is Some || e is Some) && constraints::subtrees_ok(p) && constraints::subtrees_ok(e),
            Err(_) => false,
        }
    } else if oid == "2.5.29.36"@ {
        match rustcrypto::policy_constraints_of(bytes) {
            Some((a, b)) => !(a is None && b is None),
            None => false,
        }
    } else if oid == "2.5.29.33"@ {
        match rustcrypto::policy_mappings_of(bytes) {
            Some(pairs) => pairs.len() > 0,
            None => false,
        }
    } else if oid == "2.5.29.54"@ {
        rustcrypto::inhibit_any_policy_of(bytes) is Some
    } else if oid == "2.5.29.16"@ {
        match rustcrypto::private_key_usage_period_of(bytes) {
            Some((a, b)) => !(a is None && b is None),
            None => false,
        }
    } else if oid == "2.5.29.9"@ {
        match rustcrypto::subject_directory_attributes_of(bytes) {
            Some(l) => l@.len() > 0 && forall|i: int| 0 <= i < l@.len() ==> attribute_ok(#[trigger] l@[i]),
            None => false,
        }
    } else if oid == "1.3.6.1.5.5.7.1.24"@ {
        match rustcrypto::u16_sequence_of(bytes) {
            Some(f) => f.len() > 0,
            None => false,
        }
    } else if oid == "1.3.6.1.5.5.7.48.1.5"@ || oid == "1.3.6.1.4.1.11129.2.4.3"@ {
        rustcrypto::null_of(bytes)
    } else if oid == "2.16.840.1.113730.1.13"@ {
        rustcrypto::ia5_string_of(bytes) is Some
    } else if oid == "2.16.840.1.113730.1.1"@ {
        match rustcrypto::bit_string_of(bytes) {
            Ok((data, _)) => data@.len() == 1 && match backend::netscape_type_of(bytes) {
                Some(n) => n.remaining == 0,
                None => false,
            },
            Err(_) => false,
        }
    } else {
        transparency::timestamps_of(bytes) is Some
    }
}

/// For an OID of `additional_oid`, the backend acceptance that each decoder
/// needs is one complete value at `bytes`.
pub open spec fn additional_framing(oid: Seq<char>, bytes: Seq<u8>) -> bool {
    if oid == "2.5.29.30"@ {
        exactly_framed(bytes, |b: Seq<u8>| rustcrypto::name_constraints_of(b) is Ok)
    } else if oid == "2.5.29.36"@ {
        exactly_framed(bytes, |b: Seq<u8>| rustcrypto::policy_constraints_of(b) is Some)
    } else if oid == "2.5.29.33"@ {
        exactly_framed(bytes, |b: Seq<u8>| rustcrypto::policy_mappings_of(b) is Some)
    } else if oid == "2.5.29.54"@ {
        exactly_framed(bytes, |b: Seq<u8>| rustcrypto::inhibit_any_policy_of(b) is Some)
    } else if oid == "2.5.29.16"@ {
        exactly_framed(bytes, |b: Seq<u8>| rustcrypto::private_key_usage_period_of(b) is Some)
    } else if oid == "2.5.29.9"@ {
        exactly_framed(bytes, |b: Seq<u8>| rustcrypto::subject_directory_attributes_of(b) is Some)
    } else if oid == "1.3.6.1.5.5.7.1.24"@ {
        exactly_framed(bytes, |b: Seq<u8>| rustcrypto::u16_sequence_of(b) is Some)
    } else if oid == "1.3.6.1.5.5.7.48.1.5"@ || oid == "1.3.6.1.4.1.11129.2.4.3"@ {
        bytes == seq![5u8, 0u8]
    } else if oid == "2.16.840.1.113730.1.13"@ {
        exactly_framed(bytes, |b: Seq<u8>| rustcrypto::ia5_string_of(b) is Some)
    } else if oid == "2.16.840.1.113730.1.1"@ {
        exactly_framed(bytes, |b: Seq<u8>| rustcrypto::bit_string_of(b) is Ok)
    } else {
        exactly_framed(bytes, |b: Seq<u8>| transparency::timestamps_of(b) is Some)
    }
}

proof fn lemma_additional_framed(oid: Seq<char>, bytes: Seq<u8>)
    requires
        additional_oid(oid),
        additional_framing(oid, bytes),
    ensures
        exactly_framed(bytes, |b: Seq<u8>| additional_decodable(oid, b)),
{
    let narrow = |b: Seq<u8>| additional_decodable(oid, b);
    if oid == "2.5.29.30"@ {
        lemma_framed_narrows(bytes, |b: Seq<u8>| rustcrypto::name_constraints_of(b) is Ok, narrow);
    } else if oid == "2.5.29.36"@ {
        lemma_framed_narrows(bytes, |b: Seq<u8>| rustcrypto::policy_constraints_of(b) is Some, narrow);
    } else if oid == "2.5.29.33"@ {
        lemma_framed_narrows(bytes, |b: Seq<u8>| rustcrypto::policy_mappings_of(b) is Some, narrow);
    } else if oid == "2.5.29.54"@ {
        lemma_framed_narrows(bytes, |b: Seq<u8>| rustcrypto::inhibit_any_policy_of(b) is Some, narrow);
    } else if oid == "2.5.29.16"@ {
        lemma_framed_narrows(bytes, |b: Seq<u8>| rustcrypto::private_key_usage_period_of(b) is Some, narrow);
    } else if oid == "2.5.29.9"@ {
        lemma_framed_narrows(bytes, |b: Seq<u8>| rustcrypto::subject_directory_attributes_of(b) is Some, narrow);
    } else if oid == "1.3.6.1.5.5.7.1.24"@ {
        lemma_framed_narrows(bytes, |b: Seq<u8>| rustcrypto::u16_sequence_of(b) is Some, narrow);
    } else if oid == "1.3.6.1.5.5.7.48.1.5"@ || oid == "1.3.6.1.4.1.11129.2.4.3"@ {
        assert forall|n: int| 0 <= n < bytes.len() implies !narrow(#[trigger] bytes.take(n)) by {
            assert(bytes.take(n).len() < 2);
        }
        assert forall|s: Seq<u8>| s.len() > 0 implies !narrow(#[trigger] (bytes + s)) by {
            assert((bytes + s).len() > 2);
        }
    } else if oid == "2.16.840.1.113730.1.13"@ {
        lemma_framed_narrows(bytes, |b: Seq<u8>| rustcrypto::ia5_string_of(b) is Some, narrow);
    } else if oid == "2.16.840.1.113730.1.1"@ {
        lemma_framed_narrows(bytes, |b: Seq<u8>| rustcrypto::bit_string_of(b) is Ok, narrow);
    } else {
        lemma_framed_narrows(bytes, |b: Seq<u8>| transparency::timestamps_of(b) is Some, narrow);
    }
}

/// For an OID of `additional_oid`, `decode` returns details exactly when the
/// value decodes (`additional_decodable`), whatever the caller's labels.
pub proof fn lemma_additional_outcome(oid: Seq<char>, bytes: Seq<u8>, names: OidNames, r: Option<ExtensionDetails>)
    requires
        additional_oid(oid),
        additional_matches(oid, bytes, names, r),
    ensures
        r is Some <==> additional_decodable(oid, bytes),
{
}

/// What `decode` gives for an OID of `additional_oid`: the decoded details, or
/// None when the value does not decode (absent optional content included).
pub open spec fn additional_matches(oid: Seq<char>, bytes: Seq<u8>, names: OidNames, r: Option<ExtensionDetails>) -> bool {
    if oid == "2.5.29.30"@ {
        match r {
            Some(ExtensionDetails::NameConstraints(c)) => constraints::constraints_match(bytes, names, Some(c)),
            Some(_) => false,
            None => constraints::constraints_match(bytes, names, None),
        }
    } else if oid == "2.5.29.36"@ {
        match rustcrypto::policy_constraints_of(bytes) {
            Some((a, b)) => if a is None && b is None {
                r is None
            } else {
                r == Some(ExtensionDetails::PolicyConstraints(PolicyConstraints {
                    require_explicit_policy: a,
                    inhibit_policy_mapping: b,
                }))
            },
            None => r is None,
        }
    } else if oid == "2.5.29.33"@ {
        match rustcrypto::policy_mappings_of(bytes) {
            Some(pairs) => if pairs.len() > 0 {
                match r { Some(ExtensionDetails::PolicyMappings(v)) => mappings_match(v@, pairs, names), _ => false }
            } else {
                r is None
            },
            None => r is None,
        }
    } else if oid == "2.5.29.54"@ {
        match rustcrypto::inhibit_any_policy_of(bytes) {
            Some(n) => r == Some(ExtensionDetails::InhibitAnyPolicy(n)),
            None => r is None,
        }
    } else if oid == "2.5.29.16"@ {
        match rustcrypto::private_key_usage_period_of(bytes) {
            Some((a, b)) => if a is None && b is None {
                r is None
            } else {
                r == Some(ExtensionDetails::PrivateKeyUsagePeriod(PrivateKeyUsagePeriod { not_before_unix: a, not_after_unix: b }))
            },
            None => r is None,
        }
    } else if oid == "2.5.29.9"@ {
        directory_attributes_match(bytes, names, r)
    } else if oid == "1.3.6.1.5.5.7.1.24"@ {
        match rustcrypto::u16_sequence_of(bytes) {
            Some(f) => if f.len() > 0 {
                match r { Some(ExtensionDetails::TlsFeatures(v)) => v@ == f, _ => false }
            } else {
                r is None
            },
            None => r is None,
        }
    } else if oid == "1.3.6.1.5.5.7.48.1.5"@ {
        if rustcrypto::null_of(bytes) { r == Some(ExtensionDetails::OcspNoCheck) } else { r is None }
    } else if oid == "1.3.6.1.4.1.11129.2.4.3"@ {
        if rustcrypto::null_of(bytes) { r == Some(ExtensionDetails::CtPoison) } else { r is None }
    } else if oid == "2.16.840.1.113730.1.13"@ {
        match rustcrypto::ia5_string_of(bytes) {
            Some(t) => match r { Some(ExtensionDetails::NetscapeComment(s)) => s@ == t, _ => false },
            None => r is None,
        }
    } else if oid == "2.16.840.1.113730.1.1"@ {
        netscape_matches(bytes, r)
    } else if oid == "1.3.6.1.4.1.11129.2.4.2"@ {
        match (r, transparency::timestamps_of(bytes)) {
            (Some(ExtensionDetails::SignedCertificateTimestamps(v)), Some(s)) =>
                v@.map_values(|e: transparency::SctEntry| transparency::sct_fields(e)) == s,
            (None, None) => true,
            _ => false,
        }
    } else {
        r == Some(ExtensionDetails::Unsupported)
    }
}

fn mappings(pairs: &Vec<(String, String)>, names: &OidNames) -> (r: Vec<PolicyMapping>)
    ensures
        mappings_match(r@, pairs@.map_values(|p: (String, String)| (p.0@, p.1@)), *names),
{
    let ghost view = pairs@.map_values(|p: (String, String)| (p.0@, p.1@));
    let mut out: Vec<PolicyMapping> = Vec::new();
    let mut i: usize = 0;
    while i < pairs.len()
        invariant
            i <= pairs@.len(),
            view == pairs@.map_values(|p: (String, String)| (p.0@, p.1@)),
            out@.len() == i,
            forall|k: int| 0 <= k < i ==> {
                &&& (#[trigger] out@[k]).issuer_domain_policy@ == view[k].0
                &&& opt_view(out@[k].issuer_domain_policy_name) == names.label(view[k].0)
                &&& out@[k].subject_domain_policy@ == view[k].1
                &&& opt_view(out@[k].subject_domain_policy_name) == names.label(view[k].1)
            },
        decreases pairs@.len() - i,
    {
        let p = &pairs[i];
        out.push(PolicyMapping {
            issuer_domain_policy: p.0.clone(),
            issuer_domain_policy_name: names.get(p.0.as_str()),
            subject_domain_policy: p.1.clone(),
            subject_domain_policy_name: names.get(p.1.as_str()),
        });
        i = i + 1;
    }
    out
}

fn directory_attribute(a: &RawDirectoryAttribute, names: &OidNames) -> (r: Option<DirectoryAttribute>)
    ensures
        r is Some <==> attribute_ok(*a),
        r matches Some(d) ==> attribute_matches(d, *a, *names),
{
    if a.1.len() == 0 {
        return None;
    }
    let mut values: Vec<String> = Vec::new();
    let mut j: usize = 0;
    while j < a.1.len()
        invariant
            j <= a.1@.len(),
            values@.len() == j,
            forall|k: int| 0 <= k < j ==> (#[trigger] a.1@[k]) is Some,
            forall|k: int| 0 <= k < j ==> (#[trigger] values@[k])@ == hex_lower(a.1@[k].unwrap()@),
        decreases a.1@.len() - j,
    {
        match &a.1[j] {
            Some(der) => values.push(encode_hex(der.as_slice())),
            None => {
                return None;
            },
        }
        j = j + 1;
    }
    Some(DirectoryAttribute { oid: a.0.clone(), name: names.get(a.0.as_str()), values_der_hex: values })
}

fn directory_attributes(bytes: &[u8], names: &OidNames) -> (r: Option<ExtensionDetails>)
    ensures
        directory_attributes_match(bytes@, *names, r),
        r is Some ==> exactly_framed(bytes@, |b: Seq<u8>| rustcrypto::subject_directory_attributes_of(b) is Some),
{
    let l = match rustcrypto::subject_directory_attributes(bytes) {
        Some(l) => l,
        None => {
            return None;
        },
    };
    if l.len() == 0 {
        return None;
    }
    let mut out: Vec<DirectoryAttribute> = Vec::new();
    let mut i: usize = 0;
    while i < l.len()
        invariant
            i <= l@.len(),
            rustcrypto::subject_directory_attributes_of(bytes@) == Some(l),
            l@.len() > 0,
            out@.len() == i,
            forall|k: int| 0 <= k < i ==> attribute_ok(#[trigger] l@[k]),
            forall|k: int| 0 <= k < i ==> attribute_matches(#[trigger] out@[k], l@[k], *names),
        decreases l@.len() - i,
    {
        match directory_attribute(&l[i], names) {
            Some(d) => out.push(d),
            None => {
                return None;
            },
        }
        i = i + 1;
    }
    Some(ExtensionDetails::SubjectDirectoryAttributes(out))
}

fn netscape_type(bytes: &[u8]) -> (r: Option<ExtensionDetails>)
    ensures
        netscape_matches(bytes@, r),
        r is Some ==> exactly_framed(bytes@, |b: Seq<u8>| rustcrypto::bit_string_of(b) is Ok),
{
    let data = match rustcrypto::bit_string(bytes) {
        Ok((data, _)) => data,
        Err(_) => {
            return None;
        },
    };
    if data.len() != 1 {
        return None;
    }
    let n = match backend::netscape_type(bytes) {
        Some(n) => n,
        None => {
            return None;
        },
    };
    if n.remaining != 0 {
        return None;
    }
    Some(ExtensionDetails::NetscapeCertificateType(NetscapeCertificateType {
        ssl_client: n.ssl_client,
        ssl_server: n.ssl_server,
        smime: n.smime,
        object_signing: n.object_signing,
        reserved: data[0] & 8 != 0,
        ssl_ca: n.ssl_ca,
        smime_ca: n.smime_ca,
        object_signing_ca: n.object_signing_ca,
    }))
}

/// Decode one of the policy, time, marker and legacy extensions. Optional content
/// that is entirely absent, and empty lists, do not decode; any other OID is
/// `Unsupported`.
pub fn decode(oid: &str, bytes: &[u8], names: &OidNames) -> (r: Option<ExtensionDetails>)
    ensures
        additional_matches(oid@, bytes@, *names, r),
        additional_oid(oid@) && r is Some ==> exactly_framed(bytes@, |b: Seq<u8>| additional_decodable(oid@, b)),
{
    let r = if str_eq(oid, "2.5.29.30") {
        match constraints::decode(bytes, names) {
            Some(c) => Some(ExtensionDetails::NameConstraints(c)),
            None => None,
        }
    } else if str_eq(oid, "2.5.29.36") {
        match rustcrypto::policy_constraints(bytes) {
            Some((a, b)) => if a.is_none() && b.is_none() {
                None
            } else {
                Some(ExtensionDetails::PolicyConstraints(PolicyConstraints { require_explicit_policy: a, inhibit_policy_mapping: b }))
            },
            None => None,
        }
    } else if str_eq(oid, "2.5.29.33") {
        match rustcrypto::policy_mappings(bytes) {
            Some(pairs) => if pairs.len() == 0 {
                None
            } else {
                Some(ExtensionDetails::PolicyMappings(mappings(&pairs, names)))
            },
            None => None,
        }
    } else if str_eq(oid, "2.5.29.54") {
        match rustcrypto::inhibit_any_policy(bytes) {
            Some(n) => Some(ExtensionDetails::InhibitAnyPolicy(n)),
            None => None,
        }
    } else if str_eq(oid, "2.5.29.16") {
        match rustcrypto::private_key_usage_period(bytes) {
            Some((a, b)) => if a.is_none() && b.is_none() {
                None
            } else {
                Some(ExtensionDetails::PrivateKeyUsagePeriod(PrivateKeyUsagePeriod { not_before_unix: a, not_after_unix: b }))
            },
            None => None,
        }
    } else if str_eq(oid, "2.5.29.9") {
        directory_attributes(bytes, names)
    } else if str_eq(oid, "1.3.6.1.5.5.7.1.24") {
        match rustcrypto::u16_sequence(bytes) {
            Some(f) => if f.len() == 0 { None } else { Some(ExtensionDetails::TlsFeatures(f)) },
            None => None,
        }
    } else if str_eq(oid, "1.3.6.1.5.5.7.48.1.5") {
        if rustcrypto::null(bytes) { Some(ExtensionDetails::OcspNoCheck) } else { None }
    } else if str_eq(oid, "1.3.6.1.4.1.11129.2.4.3") {
        if rustcrypto::null(bytes) { Some(ExtensionDetails::CtPoison) } else { None }
    } else if str_eq(oid, "2.16.840.1.113730.1.13") {
        match rustcrypto::ia5_string(bytes) {
            Some(s) => Some(ExtensionDetails::NetscapeComment(s)),
            None => None,
        }
    } else if str_eq(oid, "2.16.840.1.113730.1.1") {
        netscape_type(bytes)
    } else if str_eq(oid, "1.3.6.1.4.1.11129.2.4.2") {
        match transparency::decode(bytes) {
            Some(v) => Some(ExtensionDetails::SignedCertificateTimestamps(v)),
            None => None,
        }
    } else {
        Some(ExtensionDetails::Unsupported)
    };
    proof {
        if additional_oid(oid@) && r is Some {
            lemma_additional_framed(oid@, bytes@);
        }
    }
    r
}

/// The outcome of decoding one retained attribute value: hex to octets, exactly one
/// DER value, then its string text.
pub open spec fn value_text_outcome(raw: Seq<char>) -> Result<Seq<char>, (DecodeIssue, Seq<char>)> {
    match hex_decoded(raw) {
        None => Err((DecodeIssue::InvalidEncoding, "attribute value hex"@)),
        Some(b) => match decoding::single_value(b) {
            Err(e) => Err(e),
            Ok(v) => match decoding::decoded_text(v) {
                Some(t) => Ok(t),
                None => Err(decoding::text_failure(v)),
            },
        },
    }
}

/// A text decoding result agrees with its specified outcome.
pub open spec fn text_result_matches(r: Result<String, DecodeDiagnostic>, expected: Result<Seq<char>, (DecodeIssue, Seq<char>)>) -> bool {
    match (r, expected) {
        (Ok(s), Ok(t)) => s@ == t,
        (Err(d), Err((issue, field))) => reports(d, issue, field),
        _ => false,
    }
}

fn value_text(raw: &String) -> (r: Result<String, DecodeDiagnostic>)
    ensures
        text_result_matches(r, value_text_outcome(raw@)),
{
    let bytes = match decode_hex(raw.as_str()) {
        Some(b) => b,
        None => {
            return Err(DecodeDiagnostic::invalid("attribute value hex"));
        },
    };
    let value = match decoding::any(bytes.as_slice()) {
        Ok(v) => v,
        Err(d) => {
            return Err(d);
        },
    };
    decoding::text(&value)
}

impl DirectoryAttribute {
    /// Decode string-valued attribute members individually, in their original order.
    /// Unsupported/non-string values return diagnostics and retain their original DER.
    /// No attribute-specific syntax, identity matching, or policy is enforced.
    pub fn text_values(&self) -> (r: Vec<Result<String, DecodeDiagnostic>>)
        ensures
            r@.len() == self.values_der_hex@.len(),
            forall|i: int| 0 <= i < r@.len() ==>
                text_result_matches(#[trigger] r@[i], value_text_outcome(self.values_der_hex@[i]@)),
    {
        let mut out: Vec<Result<String, DecodeDiagnostic>> = Vec::new();
        let mut i: usize = 0;
        while i < self.values_der_hex.len()
            invariant
                i <= self.values_der_hex@.len(),
                out@.len() == i,
                forall|k: int| 0 <= k < i ==>
                    text_result_matches(#[trigger] out@[k], value_text_outcome(self.values_der_hex@[k]@)),
            decreases self.values_der_hex@.len() - i,
        {
            out.push(value_text(&self.values_der_hex[i]));
            i = i + 1;
        }
        out
    }
}

} // verus!
