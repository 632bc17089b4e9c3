//! Certificate extensions: the owned GeneralName projection and the decoders of
//! the extensions this library interprets.
//!
//! Unsupported extensions stay `Unsupported`; a supported extension whose value
//! does not decode stays `Malformed`. Neither is a certificate-level failure.
pub mod additional;
pub mod constraints;
pub mod copies;
pub mod details;
pub mod device;
pub mod diagnostics;
pub mod locations;
pub mod policies;
pub mod transparency;

use vstd::prelude::*;
use crate::backend::{self, RawBits, RawGeneralName};
use crate::decoding::{exactly_framed, lemma_framed_narrows};
use crate::names::{self, rdns_match, NameAttribute};
use crate::oids::OidNames;
use crate::ip::{format_ipv4, format_ipv6, ipv4_text, ipv6_text};
use crate::text::{encode_hex, hex_lower, opt_view, str_eq};
use self::additional::{
    DirectoryAttribute, NetscapeCertificateType, PolicyConstraints, PolicyMapping,
    PrivateKeyUsagePeriod,
};
use self::constraints::NameConstraints;
use self::device::{CertificateTemplate, FidoTransports};
use self::locations::{AccessDescription, AuthorityKeyIdentifier, DistributionPoint};
use self::policies::CertificatePolicy;
use self::transparency::SctEntry;

verus! {

/// An owned GeneralName. Values are decoded, not validated as identities or URLs.
#[derive(Clone, Debug, PartialEq, Eq)]
#[non_exhaustive]
pub enum GeneralName {
    /// DNS text as encoded; no wildcard or hostname matching is performed.
    Dns(String),
    /// RFC822 mailbox text; no mailbox validation is performed.
    Email(String),
    /// URI text; no resource is fetched.
    Uri(String),
    /// IPv4 or IPv6 in standard textual notation.
    Ip(String),
    /// Directory name with ordered RDN groups.
    Directory(Vec<Vec<NameAttribute>>),
    /// Registered identifier in dotted-decimal notation.
    RegisteredId(String),
    /// otherName: its type OID, the caller's label for it, and the encoded octets
    /// that follow the OID (the explicit [0] value wrapper included) in lowercase hex.
    OtherName {
        /// Dotted-decimal type OID.
        oid: String,
        /// Presentation label from the caller's OID table, if known.
        name: Option<String>,
        /// Octets after the type OID, in lowercase hex.
        value_der_hex: String,
    },
    /// x400Address as an opaque value: constructed bit and content octets in hex.
    X400Address {
        /// Whether the constructed bit was set.
        constructed: bool,
        /// Content octets in lowercase hex.
        content_hex: String,
    },
    /// ediPartyName as an opaque value: constructed bit and content octets in hex.
    EdiPartyName {
        /// Whether the constructed bit was set.
        constructed: bool,
        /// Content octets in lowercase hex.
        content_hex: String,
    },
    /// A GeneralName choice by its context tag, kept for callers; parsing does not
    /// produce it, since every choice now has its own variant.
    Unsupported(u32),
    /// Malformed GeneralName choice, including invalid IP lengths or text encodings.
    /// Its bytes remain in the containing extension's value_der.
    Malformed(u32),
}

/// Decoded Key Usage bits. These describe assertions, not enforced permissions.
#[derive(Clone, Copy, Debug, PartialEq, Eq, Structural)]
#[non_exhaustive]
pub struct KeyUsage {
    /// Digital signatures other than certificate/CRL signing.
    pub digital_signature: bool,
    /// The nonRepudiation/contentCommitment bit.
    pub content_commitment: bool,
    /// Key transport.
    pub key_encipherment: bool,
    /// Direct data encryption.
    pub data_encipherment: bool,
    /// Key agreement.
    pub key_agreement: bool,
    /// Certificate signing.
    pub key_cert_sign: bool,
    /// CRL signing.
    pub crl_sign: bool,
    /// Encipher-only key agreement.
    pub encipher_only: bool,
    /// Decipher-only key agreement.
    pub decipher_only: bool,
}

/// An Extended Key Usage purpose, preserving OIDs, order and repetitions.
#[derive(Clone, Debug, PartialEq, Eq)]
#[non_exhaustive]
pub struct KeyPurpose {
    /// Dotted-decimal key-purpose OID.
    pub oid: String,
    /// Presentation label from the caller's OID table, or None for an unknown purpose.
    pub name: Option<String>,
}

/// Application-facing interpretation of a certificate extension.
/// Malformed/unsupported values and duplicate extensions never disappear silently.
#[derive(Clone, Debug, PartialEq, Eq)]
#[non_exhaustive]
pub enum ExtensionDetails {
    /// Subject Alternative Name entries in encoded order.
    SubjectAlternativeName(Vec<GeneralName>),
    /// Issuer Alternative Name entries in encoded order.
    IssuerAlternativeName(Vec<GeneralName>),
    /// Key Usage flags.
    KeyUsage(KeyUsage),
    /// Extended Key Usage purposes.
    ExtendedKeyUsage(Vec<KeyPurpose>),
    /// Basic Constraints; no trust or path policy is enforced.
    BasicConstraints {
        /// Encoded CA assertion (default false).
        ca: bool,
        /// Encoded path-length constraint, when present.
        path_len_constraint: Option<u32>,
    },
    /// Subject key identifier octets in lowercase hex.
    SubjectKeyIdentifier(String),
    /// Authority key identifier components.
    AuthorityKeyIdentifier(AuthorityKeyIdentifier),
    /// Authority information access descriptions in encoded order.
    AuthorityInfoAccess(Vec<AccessDescription>),
    /// Subject information access descriptions in encoded order.
    SubjectInfoAccess(Vec<AccessDescription>),
    /// CRL distribution points in encoded order.
    CrlDistributionPoints(Vec<DistributionPoint>),
    /// Freshest-CRL (delta CRL) distribution points in encoded order.
    FreshestCrl(Vec<DistributionPoint>),
    /// Certificate policies in encoded order.
    CertificatePolicies(Vec<CertificatePolicy>),
    /// Name constraints.
    NameConstraints(NameConstraints),
    /// Policy constraint counters.
    PolicyConstraints(PolicyConstraints),
    /// Policy mappings in encoded order.
    PolicyMappings(Vec<PolicyMapping>),
    /// inhibitAnyPolicy skip count.
    InhibitAnyPolicy(u32),
    /// Private key usage period.
    PrivateKeyUsagePeriod(PrivateKeyUsagePeriod),
    /// Subject directory attributes in encoded order.
    SubjectDirectoryAttributes(Vec<DirectoryAttribute>),
    /// RFC 7633 TLS feature numbers in encoded order.
    TlsFeatures(Vec<u16>),
    /// OCSP no-check marker.
    OcspNoCheck,
    /// Certificate Transparency precertificate poison marker.
    CtPoison,
    /// Netscape comment text.
    NetscapeComment(String),
    /// Netscape certificate type flags.
    NetscapeCertificateType(NetscapeCertificateType),
    /// Embedded signed certificate timestamps.
    SignedCertificateTimestamps(Vec<SctEntry>),
    /// FIDO authenticator AAGUID octets in lowercase hex, of any length.
    FidoAaguid(String),
    /// FIDO U2F transports.
    FidoTransports(FidoTransports),
    /// Microsoft certificate template name.
    MicrosoftTemplateName(String),
    /// Microsoft certificate template fields.
    MicrosoftCertificateTemplate(CertificateTemplate),
    /// This library does not interpret this OID. Raw bytes remain available.
    Unsupported,
    /// A supported extension could not be decoded within this library's limits.
    /// This is a finding, not a certificate-level parse failure.
    Malformed,
}

/// An extension and its decoded information, retained in certificate order.
#[derive(Clone, Debug, PartialEq, Eq)]
pub struct ExtensionInfo {
    /// Dotted-decimal extension OID, including unknown OIDs.
    pub oid: String,
    /// Encoded critical flag; this library does not enforce critical extensions.
    pub critical: bool,
    /// True on every occurrence of an OID that appears more than once.
    pub duplicate: bool,
    /// Inner extnValue octets, without the outer OCTET STRING wrapper.
    pub value_der: Vec<u8>,
    /// Decoded information or an explicit unsupported/malformed state.
    pub details: ExtensionDetails,
}

/// `g` is the owned projection of the parsed name `raw`.
pub open spec fn general_name_matches(g: GeneralName, raw: RawGeneralName, names: OidNames) -> bool {
    match raw {
        RawGeneralName::Other(oid, bytes) => match g {
            GeneralName::OtherName { oid: o, name, value_der_hex } =>
                o@ == oid@ && opt_view(name) == names.label(oid@) && value_der_hex@ == hex_lower(bytes@),
            _ => false,
        },
        RawGeneralName::Rfc822(s) => match g { GeneralName::Email(t) => t@ == s@, _ => false },
        RawGeneralName::Dns(s) => match g { GeneralName::Dns(t) => t@ == s@, _ => false },
        RawGeneralName::Uri(s) => match g { GeneralName::Uri(t) => t@ == s@, _ => false },
        RawGeneralName::X400(c, content) => match g {
            GeneralName::X400Address { constructed, content_hex } => constructed == c && content_hex@ == hex_lower(content@),
            _ => false,
        },
        RawGeneralName::Edi(c, content) => match g {
            GeneralName::EdiPartyName { constructed, content_hex } => constructed == c && content_hex@ == hex_lower(content@),
            _ => false,
        },
        RawGeneralName::Directory(der) => match backend::distinguished_name_of(der@) {
            Some(n) => if n.remaining == 0 {
                match g { GeneralName::Directory(rdns) => rdns_match(rdns@, n.rdns@, names), _ => false }
            } else {
                g == GeneralName::Malformed(4)
            },
            None => g == GeneralName::Malformed(4),
        },
        RawGeneralName::Ip(b) => if b@.len() == 4 {
            match g { GeneralName::Ip(t) => t@ == ipv4_text(b@), _ => false }
        } else if b@.len() == 16 {
            match g { GeneralName::Ip(t) => t@ == ipv6_text(b@), _ => false }
        } else {
            g == GeneralName::Malformed(7)
        },
        RawGeneralName::Registered(o) => match g { GeneralName::RegisteredId(t) => t@ == o@, _ => false },
        RawGeneralName::Rejected(tag) => g == GeneralName::Malformed(tag),
    }
}

/// Every owned name is the projection of the parsed name at the same position.
pub open spec fn general_names_match(v: Seq<GeneralName>, raw: Seq<RawGeneralName>, names: OidNames) -> bool {
    v.len() == raw.len() && forall|i: int| 0 <= i < raw.len() ==> general_name_matches(#[trigger] v[i], raw[i], names)
}

/// Project one parsed GeneralName into its owned form. A directory name is read
/// again from its DER; x400Address and ediPartyName keep their constructed bit
/// and content octets.
pub fn general_name(raw: &RawGeneralName, names: &OidNames) -> (r: GeneralName)
    ensures
        general_name_matches(r, *raw, *names),
{
    match raw {
        RawGeneralName::Other(oid, bytes) => GeneralName::OtherName {
            oid: oid.clone(),
            name: names.get(oid.as_str()),
            value_der_hex: encode_hex(bytes.as_slice()),
        },
        RawGeneralName::Rfc822(s) => GeneralName::Email(s.clone()),
        RawGeneralName::Dns(s) => GeneralName::Dns(s.clone()),
        RawGeneralName::Uri(s) => GeneralName::Uri(s.clone()),
        RawGeneralName::X400(c, content) => GeneralName::X400Address {
            constructed: *c,
            content_hex: encode_hex(content.as_slice()),
        },
        RawGeneralName::Edi(c, content) => GeneralName::EdiPartyName {
            constructed: *c,
            content_hex: encode_hex(content.as_slice()),
        },
        RawGeneralName::Directory(der) => match names::inspect_name_der(der.as_slice(), names) {
            Some(d) => GeneralName::Directory(d.rdns),
            None => GeneralName::Malformed(4),
        },
        RawGeneralName::Ip(b) => {
            if b.len() == 4 {
                GeneralName::Ip(format_ipv4(b.as_slice()))
            } else if b.len() == 16 {
                GeneralName::Ip(format_ipv6(b.as_slice()))
            } else {
                GeneralName::Malformed(7)
            }
        },
        RawGeneralName::Registered(o) => GeneralName::RegisteredId(o.clone()),
        RawGeneralName::Rejected(tag) => GeneralName::Malformed(*tag),
    }
}

/// Project a list of parsed names, in order.
pub fn general_names(list: &Vec<RawGeneralName>, names: &OidNames) -> (r: Vec<GeneralName>)
    ensures
        general_names_match(r@, list@, *names),
{
    let mut out: Vec<GeneralName> = Vec::new();
    let mut i: usize = 0;
    while i < list.len()
        invariant
            i <= list@.len(),
            out@.len() == i,
            forall|k: int| 0 <= k < i ==> general_name_matches(#[trigger] out@[k], list@[k], *names),
        decreases list@.len() - i,
    {
        out.push(general_name(&list[i], names));
        i = i + 1;
    }
    out
}

/// 2 to the power `n`, for the bit counts of one octet.
pub open spec fn bit_value(n: u8) -> int {
    if n == 0 { 1 }
    else if n == 1 { 2 }
    else if n == 2 { 4 }
    else if n == 3 { 8 }
    else if n == 4 { 16 }
    else if n == 5 { 32 }
    else if n == 6 { 64 }
    else { 128 }
}

/// A Key Usage BIT STRING within the nine named bits: one or two content octets,
/// no unused bit set, and a second octet only for decipherOnly.
pub open spec fn key_usage_bits_valid(b: RawBits) -> bool {
    &&& b.remaining == 0
    &&& 1 <= b.data@.len() <= 2
    &&& b.unused_bits <= 7
    &&& b.data@.last() as int % bit_value(b.unused_bits) == 0
    &&& b.data@.len() == 2 ==> b.data@[1] % 128 == 0 && b.unused_bits == 7
}

/// The key-purpose list matches the parsed OIDs, with the caller's labels.
pub open spec fn purposes_match(v: Seq<KeyPurpose>, oids: Seq<String>, names: OidNames) -> bool {
    v.len() == oids.len() && forall|i: int| 0 <= i < oids.len() ==>
        (#[trigger] v[i]).oid@ == oids[i]@ && opt_view(v[i].name) == names.label(oids[i]@)
}

/// Subject/issuer alternative names: a complete, non-empty GeneralNames value.
pub open spec fn alternative_names_ok(parsed: Option<(Vec<RawGeneralName>, usize)>) -> bool {
    parsed matches Some((list, rest)) && rest == 0 && list@.len() > 0
}

/// The dotted OIDs this module decodes itself.
pub open spec fn core_oid(oid: Seq<char>) -> bool {
    oid == "2.5.29.17"@ || oid == "2.5.29.18"@ || oid == "2.5.29.19"@ || oid == "2.5.29.15"@
        || oid == "2.5.29.37"@ || oid == "2.5.29.14"@ || oid == "2.5.29.35"@
        || oid == "1.3.6.1.5.5.7.1.1"@ || oid == "1.3.6.1.5.5.7.1.11"@ || oid == "2.5.29.31"@
        || oid == "2.5.29.46"@ || oid == "2.5.29.32"@
}

/// Decoded Basic Constraints carry the encoded fields: a leading BOOLEAN is the
/// cA flag, and the short encodings give both fields.
pub open spec fn basic_constraints_follow_encoding(bytes: Seq<u8>, r: Option<ExtensionDetails>) -> bool {
    r is Some && r.unwrap() is BasicConstraints ==> {
        &&& backend::leads_with_boolean(bytes) ==> r.unwrap()->ca == (bytes[4] != 0)
        &&& backend::basic_constraints_encoding(bytes) is Some ==>
            (r.unwrap()->ca, r.unwrap()->path_len_constraint) == backend::basic_constraints_encoding(bytes).unwrap()
    }
}

/// What `decode_core` gives for an OID of `core_oid`: the decoded details, or
/// None when the value does not decode.
pub open spec fn core_matches(oid: Seq<char>, bytes: Seq<u8>, names: OidNames, r: Option<ExtensionDetails>) -> bool {
    if oid == "2.5.29.17"@ {
        if alternative_names_ok(backend::subject_alternative_names_of(bytes)) {
            match r {
                Some(ExtensionDetails::SubjectAlternativeName(v)) =>
                    general_names_match(v@, backend::subject_alternative_names_of(bytes).unwrap().0@, names),
                _ => false,
            }
        } else {
            r is None
        }
    } else if oid == "2.5.29.18"@ {
        if alternative_names_ok(backend::issuer_alternative_names_of(bytes)) {
            match r {
                Some(ExtensionDetails::IssuerAlternativeName(v)) =>
                    general_names_match(v@, backend::issuer_alternative_names_of(bytes).unwrap().0@, names),
                _ => false,
            }
        } else {
            r is None
        }
    } else if oid == "2.5.29.19"@ {
        &&& basic_constraints_follow_encoding(bytes, r)
        &&& match backend::basic_constraints_of(bytes) {
            Some((ca, path, rest)) => if rest == 0 {
                r == Some(ExtensionDetails::BasicConstraints { ca, path_len_constraint: path })
            } else {
                r is None
            },
            None => r is None,
        }
    } else if oid == "2.5.29.15"@ {
        match backend::bit_string_of(bytes) {
            Some(bits) => if key_usage_bits_valid(bits) {
                match backend::key_usage_of(bytes) {
                    Some(k) => r == Some(ExtensionDetails::KeyUsage(k)),
                    None => r is None,
                }
            } else {
                r is None
            },
            None => r is None,
        }
    } else if oid == "2.5.29.37"@ {
        match backend::oid_sequence_of(bytes) {
            Some((oids, rest)) => if rest == 0 && oids@.len() > 0 {
                match r {
                    Some(ExtensionDetails::ExtendedKeyUsage(v)) => purposes_match(v@, oids@, names),
                    _ => false,
                }
            } else {
                r is None
            },
            None => r is None,
        }
    } else if oid == "2.5.29.14"@ {
        &&& (r is Some && r.unwrap() is SubjectKeyIdentifier && backend::short_octet_string(bytes)
            ==> r.unwrap()->SubjectKeyIdentifier_0@ == hex_lower(bytes.skip(2)))
        &&& match backend::key_identifier_of(bytes) {
            Some((id, rest)) => if rest == 0 {
                match r { Some(ExtensionDetails::SubjectKeyIdentifier(s)) => s@ == hex_lower(id@), _ => false }
            } else {
                r is None
            },
            None => r is None,
        }
    } else if oid == "2.5.29.35"@ {
        locations::authority_key_matches(bytes, names, r)
    } else if oid == "1.3.6.1.5.5.7.1.1"@ {
        match r {
            Some(ExtensionDetails::AuthorityInfoAccess(v)) => locations::authority_access_matches(bytes, names, Some(v@)),
            Some(_) => false,
            None => locations::authority_access_matches(bytes, names, None),
        }
    } else if oid == "1.3.6.1.5.5.7.1.11"@ {
        match r {
            Some(ExtensionDetails::SubjectInfoAccess(v)) => locations::subject_access_matches(bytes, names, Some(v@)),
            Some(_) => false,
            None => locations::subject_access_matches(bytes, names, None),
        }
    } else if oid == "2.5.29.31"@ {
        match r {
            Some(ExtensionDetails::CrlDistributionPoints(v)) => locations::distribution_matches(bytes, names, Some(v@)),
            Some(_) => false,
            None => locations::distribution_matches(bytes, names, None),
        }
    } else if oid == "2.5.29.46"@ {
        match r {
            Some(ExtensionDetails::FreshestCrl(v)) => locations::distribution_matches(bytes, names, Some(v@)),
            Some(_) => false,
            None => locations::distribution_matches(bytes, names, None),
        }
    } else {
        match r {
            Some(ExtensionDetails::CertificatePolicies(v)) => policies::policies_match(bytes, names, Some(v@)),
            Some(_) => false,
            None => policies::policies_match(bytes, names, None),
        }
    }
}

fn bit_mask(n: u8) -> (r: u8)
    requires
        n <= 7,
    ensures
        r == bit_value(n),
{
    if n == 0 { 1 }
    else if n == 1 { 2 }
    else if n == 2 { 4 }
    else if n == 3 { 8 }
    else if n == 4 { 16 }
    else if n == 5 { 32 }
    else if n == 6 { 64 }
    else { 128 }
}

/// Check a Key Usage BIT STRING against the nine named bits, so that no set bit
/// beyond them is silently dropped.
fn key_usage_bits_ok(b: &RawBits) -> (r: bool)
    ensures
        r == key_usage_bits_valid(*b),
{
    if b.remaining != 0 || b.data.len() == 0 || b.data.len() > 2 || b.unused_bits > 7 {
        return false;
    }
    let last = b.data[b.data.len() - 1];
    if last % bit_mask(b.unused_bits) != 0 {
        return false;
    }
    if b.data.len() == 2 && (b.data[1] % 128 != 0 || b.unused_bits != 7) {
        return false;
    }
    true
}

fn alternative_names(parsed: Option<(Vec<RawGeneralName>, usize)>, names: &OidNames) -> (r: Option<Vec<GeneralName>>)
    ensures
        r is Some <==> alternative_names_ok(parsed),
        r matches Some(v) ==> general_names_match(v@, parsed.unwrap().0@, *names),
{
    match parsed {
        Some((list, rest)) => {
            if rest == 0 && list.len() > 0 {
                Some(general_names(&list, names))
            } else {
                None
            }
        },
        None => None,
    }
}

fn key_purposes(oids: &Vec<String>, names: &OidNames) -> (r: Vec<KeyPurpose>)
    ensures
        purposes_match(r@, oids@, *names),
{
    let mut out: Vec<KeyPurpose> = Vec::new();
    let mut i: usize = 0;
    while i < oids.len()
        invariant
            i <= oids@.len(),
            out@.len() == i,
            forall|k: int| 0 <= k < i ==>
                (#[trigger] out@[k]).oid@ == oids@[k]@ && opt_view(out@[k].name) == names.label(oids@[k]@),
        decreases oids@.len() - i,
    {
        out.push(KeyPurpose { oid: oids[i].clone(), name: names.get(oids[i].as_str()) });
        i = i + 1;
    }
    out
}

/// For an OID of `core_oid`, the backend acceptance that its decoder needs is one
/// complete value at `bytes`.
pub open spec fn core_framing(oid: Seq<char>, bytes: Seq<u8>) -> bool {
    if oid == "2.5.29.17"@ {
        exactly_framed(bytes, |b: Seq<u8>| backend::subject_alternative_names_of(b) is Some
            && backend::subject_alternative_names_of(b).unwrap().1 == 0)
    } else if oid == "2.5.29.18"@ {
        exactly_framed(bytes, |b: Seq<u8>| backend::issuer_alternative_names_of(b) is Some
            && backend::issuer_alternative_names_of(b).unwrap().1 == 0)
    } else if oid == "2.5.29.19"@ {
        exactly_framed(bytes, |b: Seq<u8>| backend::basic_constraints_of(b) is Some
            && backend::basic_constraints_of(b).unwrap().2 == 0)
    } else if oid == "2.5.29.15"@ {
        exactly_framed(bytes, |b: Seq<u8>| backend::bit_string_of(b) is Some
            && backend::bit_string_of(b).unwrap().remaining == 0)
    } else if oid == "2.5.29.37"@ {
        exactly_framed(bytes, |b: Seq<u8>| backend::oid_sequence_of(b) is Some
            && backend::oid_sequence_of(b).unwrap().1 == 0)
    } else if oid == "2.5.29.14"@ {
        exactly_framed(bytes, |b: Seq<u8>| backend::key_identifier_of(b) is Some
            && backend::key_identifier_of(b).unwrap().1 == 0)
    } else if oid == "2.5.29.35"@ {
        exactly_framed(bytes, |b: Seq<u8>| crate::rustcrypto::authority_key_schema_of(b))
    } else if oid == "1.3.6.1.5.5.7.1.1"@ {
        exactly_framed(bytes, |b: Seq<u8>| crate::rustcrypto::authority_access_schema_of(b))
    } else if oid == "1.3.6.1.5.5.7.1.11"@ {
        exactly_framed(bytes, |b: Seq<u8>| crate::rustcrypto::subject_access_schema_of(b))
    } else if oid == "2.5.29.31"@ || oid == "2.5.29.46"@ {
        exactly_framed(bytes, |b: Seq<u8>| crate::rustcrypto::distribution_points_of(b) is Some)
    } else {
        exactly_framed(bytes, |b: Seq<u8>| crate::rustcrypto::certificate_policies_of(b) is Some)
    }
}

proof fn lemma_core_framed(oid: Seq<char>, bytes: Seq<u8>)
    requires
        core_oid(oid),
        core_framing(oid, bytes),
    ensures
        exactly_framed(bytes, |b: Seq<u8>| decodable(oid, b)),
{
    let narrow = |b: Seq<u8>| decodable(oid, b);
    if oid == "2.5.29.17"@ {
        lemma_framed_narrows(bytes, |b: Seq<u8>| backend::subject_alternative_names_of(b) is Some
            && backend::subject_alternative_names_of(b).unwrap().1 == 0, narrow);
    } else if oid == "2.5.29.18"@ {
        lemma_framed_narrows(bytes, |b: Seq<u8>| backend::issuer_alternative_names_of(b) is Some
            && backend::issuer_alternative_names_of(b).unwrap().1 == 0, narrow);
    } else if oid == "2.5.29.19"@ {
        lemma_framed_narrows(bytes, |b: Seq<u8>| backend::basic_constraints_of(b) is Some
            && backend::basic_constraints_of(b).unwrap().2 == 0, narrow);
    } else if oid == "2.5.29.15"@ {
        lemma_framed_narrows(bytes, |b: Seq<u8>| backend::bit_string_of(b) is Some
            && backend::bit_string_of(b).unwrap().remaining == 0, narrow);
    } else if oid == "2.5.29.37"@ {
        lemma_framed_narrows(bytes, |b: Seq<u8>| backend::oid_sequence_of(b) is Some
            && backend::oid_sequence_of(b).unwrap().1 == 0, narrow);
    } else if oid == "2.5.29.14"@ {
        lemma_framed_narrows(bytes, |b: Seq<u8>| backend::key_identifier_of(b) is Some
            && backend::key_identifier_of(b).unwrap().1 == 0, narrow);
    } else if oid == "2.5.29.35"@ {
        lemma_framed_narrows(bytes, |b: Seq<u8>| crate::rustcrypto::authority_key_schema_of(b), narrow);
    } else if oid == "1.3.6.1.5.5.7.1.1"@ {
        lemma_framed_narrows(bytes, |b: Seq<u8>| crate::rustcrypto::authority_access_schema_of(b), narrow);
    } else if oid == "1.3.6.1.5.5.7.1.11"@ {
        lemma_framed_narrows(bytes, |b: Seq<u8>| crate::rustcrypto::subject_access_schema_of(b), narrow);
    } else if oid == "2.5.29.31"@ || oid == "2.5.29.46"@ {
        lemma_framed_narrows(bytes, |b: Seq<u8>| crate::rustcrypto::distribution_points_of(b) is Some, narrow);
    } else {
        lemma_framed_narrows(bytes, |b: Seq<u8>| crate::rustcrypto::certificate_policies_of(b) is Some, narrow);
    }
}

/// Decode one of the extensions of `core_oid`; None when its value does not decode.
pub fn decode_core(oid: &str, bytes: &[u8], names: &OidNames) -> (r: Option<ExtensionDetails>)
    ensures
        core_matches(oid@, bytes@, *names, r),
        core_oid(oid@) && r is Some ==> exactly_framed(bytes@, |b: Seq<u8>| decodable(oid@, b)),
{
    let r = if str_eq(oid, "2.5.29.17") {
        match alternative_names(backend::subject_alternative_names(bytes), names) {
            Some(v) => Some(ExtensionDetails::SubjectAlternativeName(v)),
            None => None,
        }
    } else if str_eq(oid, "2.5.29.18") {
        match alternative_names(backend::issuer_alternative_names(bytes), names) {
            Some(v) => Some(ExtensionDetails::IssuerAlternativeName(v)),
            None => None,
        }
    } else if str_eq(oid, "2.5.29.19") {
        match backend::basic_constraints(bytes) {
            Some((ca, path, rest)) => if rest == 0 {
                Some(ExtensionDetails::BasicConstraints { ca, path_len_constraint: path })
            } else {
                None
            },
            None => None,
        }
    } else if str_eq(oid, "2.5.29.15") {
        // Bound the backend's flag representation first: bits beyond the nine
        // named usages make the value malformed rather than being truncated.
        match backend::bit_string(bytes) {
            Some(bits) => if key_usage_bits_ok(&bits) {
                match backend::key_usage(bytes) {
                    Some(k) => Some(ExtensionDetails::KeyUsage(k)),
                    None => None,
                }
            } else {
                None
            },
            None => None,
        }
    } else if str_eq(oid, "2.5.29.37") {
        // The sequence is read directly so that order, repetitions and unknown
        // purposes survive.
        match backend::oid_sequence(bytes) {
            Some((oids, rest)) => if rest == 0 && oids.len() > 0 {
                Some(ExtensionDetails::ExtendedKeyUsage(key_purposes(&oids, names)))
            } else {
                None
            },
            None => None,
        }
    } else if str_eq(oid, "2.5.29.14") {
        match backend::key_identifier(bytes) {
            Some((id, rest)) => if rest == 0 {
                Some(ExtensionDetails::SubjectKeyIdentifier(encode_hex(id.as_slice())))
            } else {
                None
            },
            None => None,
        }
    } else if str_eq(oid, "2.5.29.35") {
        locations::authority_key(bytes, names)
    } else if str_eq(oid, "1.3.6.1.5.5.7.1.1") {
        match locations::authority_access(bytes, names) {
            Some(v) => Some(ExtensionDetails::AuthorityInfoAccess(v)),
            None => None,
        }
    } else if str_eq(oid, "1.3.6.1.5.5.7.1.11") {
        match locations::subject_access(bytes, names) {
            Some(v) => Some(ExtensionDetails::SubjectInfoAccess(v)),
            None => None,
        }
    } else if str_eq(oid, "2.5.29.31") {
        match locations::distribution(bytes, names) {
            Some(v) => Some(ExtensionDetails::CrlDistributionPoints(v)),
            None => None,
        }
    } else if str_eq(oid, "2.5.29.46") {
        match locations::distribution(bytes, names) {
            Some(v) => Some(ExtensionDetails::FreshestCrl(v)),
            None => None,
        }
    } else {
        match policies::decode(bytes, names) {
            Some(v) => Some(ExtensionDetails::CertificatePolicies(v)),
            None => None,
        }
    };
    proof {
        if core_oid(oid@) && r is Some {
            lemma_core_framed(oid@, bytes@);
        }
    }
    r
}

/// What `decode_supported` gives: the core and additional decoders by OID, then
/// the device decoders, whose `Ok(None)` means an unsupported OID; None when a
/// supported value does not decode.
pub open spec fn supported_matches(oid: Seq<char>, bytes: Seq<u8>, names: OidNames, r: Option<ExtensionDetails>) -> bool {
    if core_oid(oid) {
        core_matches(oid, bytes, names, r)
    } else if additional::additional_oid(oid) {
        additional::additional_matches(oid, bytes, names, r)
    } else {
        exists|d: Result<Option<ExtensionDetails>, crate::decoding::DecodeDiagnostic>| {
            &&& #[trigger] device::device_matches(oid, bytes, d)
            &&& match d {
                Ok(Some(x)) => r == Some(x),
                Ok(None) => r == Some(ExtensionDetails::Unsupported),
                Err(_) => r is None,
            }
        }
    }
}

fn is_core(oid: &str) -> (r: bool)
    ensures
        r == core_oid(oid@),
{
    str_eq(oid, "2.5.29.17") || str_eq(oid, "2.5.29.18") || str_eq(oid, "2.5.29.19") || str_eq(oid, "2.5.29.15")
        || str_eq(oid, "2.5.29.37") || str_eq(oid, "2.5.29.14") || str_eq(oid, "2.5.29.35")
        || str_eq(oid, "1.3.6.1.5.5.7.1.1") || str_eq(oid, "1.3.6.1.5.5.7.1.11") || str_eq(oid, "2.5.29.31")
        || str_eq(oid, "2.5.29.46") || str_eq(oid, "2.5.29.32")
}

fn is_additional(oid: &str) -> (r: bool)
    ensures
        r == additional::additional_oid(oid@),
{
    str_eq(oid, "2.5.29.30") || str_eq(oid, "2.5.29.36") || str_eq(oid, "2.5.29.33") || str_eq(oid, "2.5.29.54")
        || str_eq(oid, "2.5.29.16") || str_eq(oid, "2.5.29.9") || str_eq(oid, "1.3.6.1.5.5.7.1.24")
        || str_eq(oid, "1.3.6.1.5.5.7.48.1.5") || str_eq(oid, "1.3.6.1.4.1.11129.2.4.3")
        || str_eq(oid, "2.16.840.1.113730.1.13") || str_eq(oid, "2.16.840.1.113730.1.1")
        || str_eq(oid, "1.3.6.1.4.1.11129.2.4.2")
}

/// Decode a supported extension value, `Unsupported` for an unknown OID, or None
/// when a supported value does not decode.
pub fn decode_supported(oid: &str, bytes: &[u8], names: &OidNames) -> (r: Option<ExtensionDetails>)
    ensures
        supported_matches(oid@, bytes@, *names, r),
        (core_oid(oid@) || additional::additional_oid(oid@)) && r is Some
            ==> exactly_framed(bytes@, |b: Seq<u8>| decodable(oid@, b)),
{
    if is_core(oid) {
        decode_core(oid, bytes, names)
    } else if is_additional(oid) {
        let r = additional::decode(oid, bytes, names);
        proof {
            if r is Some {
                lemma_framed_narrows(bytes@, |b: Seq<u8>| additional::additional_decodable(oid@, b),
                    |b: Seq<u8>| decodable(oid@, b));
            }
        }
        r
    } else {
        let d = device::decode(oid, bytes);
        match d {
            Ok(Some(x)) => Some(x),
            Ok(None) => Some(ExtensionDetails::Unsupported),
            Err(_) => None,
        }
    }
}

/// The details `decode_with_names` reports: the supported result, or `Malformed`.
pub open spec fn details_matches(oid: Seq<char>, bytes: Seq<u8>, names: OidNames, d: ExtensionDetails) -> bool {
    supported_matches(oid, bytes, names, Some(d)) || (supported_matches(oid, bytes, names, None) && d == ExtensionDetails::Malformed)
}

/// Decode one extension value with the caller's OID labels. A supported extension
/// whose value does not decode is `Malformed`; an unknown OID is `Unsupported`.
pub fn decode_with_names(oid: &str, bytes: &[u8], names: &OidNames) -> (r: ExtensionDetails)
    ensures
        details_matches(oid@, bytes@, *names, r),
        (core_oid(oid@) || additional::additional_oid(oid@)) && r != ExtensionDetails::Malformed
            ==> complete_value(oid@, bytes@),
{
    let r = match decode_supported(oid, bytes, names) {
        Some(d) => d,
        None => ExtensionDetails::Malformed,
    };
    proof {
        if (core_oid(oid@) || additional::additional_oid(oid@)) && r != ExtensionDetails::Malformed {
            lemma_supported_outcome(oid@, bytes@, *names, Some(r));
            assert forall|n: int, other: OidNames, d: ExtensionDetails|
                0 <= n < bytes@.len() && #[trigger] details_matches(oid@, bytes@.take(n), other, d)
                implies d == ExtensionDetails::Malformed by {
                assert(!decodable(oid@, bytes@.take(n)));
                lemma_malformed_exactly_when_undecodable(oid@, bytes@.take(n), other, d);
            }
            assert forall|s: Seq<u8>, other: OidNames, d: ExtensionDetails|
                s.len() > 0 && #[trigger] details_matches(oid@, bytes@ + s, other, d)
                implies d == ExtensionDetails::Malformed by {
                assert(!decodable(oid@, bytes@ + s));
                lemma_malformed_exactly_when_undecodable(oid@, bytes@ + s, other, d);
            }
        }
    }
    r
}

/// No strict prefix of `bytes`, and nothing that continues `bytes` with further
/// octets, decodes as an `oid` extension: with any labels, each is reported
/// `Malformed`.
pub open spec fn complete_value(oid: Seq<char>, bytes: Seq<u8>) -> bool {
    &&& forall|n: int, names: OidNames, d: ExtensionDetails|
        0 <= n < bytes.len() && #[trigger] details_matches(oid, bytes.take(n), names, d)
            ==> d == ExtensionDetails::Malformed
    &&& forall|s: Seq<u8>, names: OidNames, d: ExtensionDetails|
        s.len() > 0 && #[trigger] details_matches(oid, bytes + s, names, d)
            ==> d == ExtensionDetails::Malformed
}

proof fn lemma_malformed_exactly_when_undecodable(oid: Seq<char>, bytes: Seq<u8>, names: OidNames, d: ExtensionDetails)
    requires
        details_matches(oid, bytes, names, d),
    ensures
        d == ExtensionDetails::Malformed <==> !decodable(oid, bytes),
{
    if supported_matches(oid, bytes, names, Some(d)) {
        lemma_supported_outcome(oid, bytes, names, Some(d));
    } else {
        lemma_supported_outcome(oid, bytes, names, None);
    }
}

/// Decode one extension value with the default OID labels.
pub fn decode(oid: &str, bytes: &[u8]) -> (r: ExtensionDetails)
    ensures
        exists|names: OidNames| #![trigger details_matches(oid@, bytes@, names, r)]
            details_matches(oid@, bytes@, names, r)
            && forall|o: Seq<char>| #[trigger] names.label(o) == names.base_label(o),
        (core_oid(oid@) || additional::additional_oid(oid@)) && r != ExtensionDetails::Malformed
            ==> complete_value(oid@, bytes@),
{
    let names = OidNames::default();
    decode_with_names(oid, bytes, &names)
}

/// An extension OID that no decoder supports is reported `Unsupported`, whatever
/// its value, and never `Malformed`.
pub proof fn law_unknown_extensions_are_unsupported(oid: Seq<char>, bytes: Seq<u8>, names: OidNames, d: ExtensionDetails)
    requires
        !core_oid(oid),
        !additional::additional_oid(oid),
        !device::device_oid(oid),
        details_matches(oid, bytes, names, d),
    ensures
        d == ExtensionDetails::Unsupported,
{
}

/// A supported extension is reported `Malformed` exactly when its value does not
/// decode; an unsupported one never is.
pub proof fn law_malformed_means_undecodable(oid: Seq<char>, bytes: Seq<u8>, names: OidNames, d: ExtensionDetails)
    requires
        details_matches(oid, bytes, names, d),
    ensures
        d == ExtensionDetails::Malformed ==> supported_matches(oid, bytes, names, None)
            || supported_matches(oid, bytes, names, Some(ExtensionDetails::Malformed)),
        d != ExtensionDetails::Malformed ==> supported_matches(oid, bytes, names, Some(d)),
{
}

/// Whether an extension value decodes, stated without the caller's labels: the
/// supported decoders' conditions, and for other OIDs the device decoders'.
pub open spec fn decodable(oid: Seq<char>, bytes: Seq<u8>) -> bool {
    if core_oid(oid) {
        if oid == "2.5.29.17"@ {
            alternative_names_ok(backend::subject_alternative_names_of(bytes))
        } else if oid == "2.5.29.18"@ {
            alternative_names_ok(backend::issuer_alternative_names_of(bytes))
        } else if oid == "2.5.29.19"@ {
            match backend::basic_constraints_of(bytes) {
                Some((_, _, rest)) => rest == 0,
                None => false,
            }
        } else if oid == "2.5.29.15"@ {
            match backend::bit_string_of(bytes) {
                Some(bits) => key_usage_bits_valid(bits) && backend::key_usage_of(bytes) is Some,
                None => false,
            }
        } else if oid == "2.5.29.37"@ {
            match backend::oid_sequence_of(bytes) {
                Some((oids, rest)) => rest == 0 && oids@.len() > 0,
                None => false,
            }
        } else if oid == "2.5.29.14"@ {
            match backend::key_identifier_of(bytes) {
                Some((_, rest)) => rest == 0,
                None => false,
            }
        } else if oid == "2.5.29.35"@ {
            crate::rustcrypto::authority_key_schema_of(bytes) && match backend::authority_key_identifier_of(bytes) {
                Some(a) => a.remaining == 0,
                None => false,
            }
        } else if oid == "1.3.6.1.5.5.7.1.1"@ || oid == "1.3.6.1.5.5.7.1.11"@ {
            let schema = if oid == "1.3.6.1.5.5.7.1.1"@ {
                crate::rustcrypto::authority_access_schema_of(bytes)
            } else {
                crate::rustcrypto::subject_access_schema_of(bytes)
            };
            let parsed = if oid == "1.3.6.1.5.5.7.1.1"@ {
                backend::authority_info_access_of(bytes)
            } else {
                backend::subject_info_access_of(bytes)
            };
            match parsed {
                Some((items, rest)) => schema && rest == 0 && items@.len() > 0,
                None => false,
            }
        } else if oid == "2.5.29.31"@ || oid == "2.5.29.46"@ {
            match crate::rustcrypto::distribution_points_of(bytes) {
                Some(points) => points@.len() > 0 && forall|i: int| 0 <= i < points@.len() ==> locations::point_ok(#[trigger] points@[i]),
                None => false,
            }
        } else {
            match crate::rustcrypto::certificate_policies_of(bytes) {
                Some(list) => list@.len() > 0 && forall|i: int| 0 <= i < list@.len() ==> policies::policy_ok(#[trigger] list@[i]),
                None => false,
            }
        }
    } else if additional::additional_oid(oid) {
        additional::additional_decodable(oid, bytes)
    } else {
        device::device_failure(oid, bytes) is None
    }
}

proof fn lemma_supported_outcome(oid: Seq<char>, bytes: Seq<u8>, names: OidNames, r: Option<ExtensionDetails>)
    requires
        supported_matches(oid, bytes, names, r),
    ensures
        r is None <==> !decodable(oid, bytes),
        r != Some(ExtensionDetails::Malformed),
{
    if !core_oid(oid) && !additional::additional_oid(oid) {
        let d = choose|d: Result<Option<ExtensionDetails>, crate::decoding::DecodeDiagnostic>| {
            &&& #[trigger] device::device_matches(oid, bytes, d)
            &&& match d {
                Ok(Some(x)) => r == Some(x),
                Ok(None) => r == Some(ExtensionDetails::Unsupported),
                Err(_) => r is None,
            }
        };
        device::lemma_device_failure(oid, bytes, d);
    }
}

/// The caller's labels never change whether an extension value decodes: with any
/// two label tables, an extension is `Malformed` under one exactly when it is
/// under the other, and exactly when its value does not decode.
pub proof fn law_labels_never_change_which_values_decode(
    oid: Seq<char>,
    bytes: Seq<u8>,
    first: OidNames,
    second: OidNames,
    d1: ExtensionDetails,
    d2: ExtensionDetails,
)
    requires
        details_matches(oid, bytes, first, d1),
        details_matches(oid, bytes, second, d2),
    ensures
        d1 == ExtensionDetails::Malformed <==> d2 == ExtensionDetails::Malformed,
        d1 == ExtensionDetails::Malformed <==> !decodable(oid, bytes),
{
    if supported_matches(oid, bytes, first, Some(d1)) {
        lemma_supported_outcome(oid, bytes, first, Some(d1));
    } else {
        lemma_supported_outcome(oid, bytes, first, None);
    }
    if supported_matches(oid, bytes, second, Some(d2)) {
        lemma_supported_outcome(oid, bytes, second, Some(d2));
    } else {
        lemma_supported_outcome(oid, bytes, second, None);
    }
}

/// Each GeneralName keeps its choice: a dNSName, rfc822Name, URI or registeredID
/// keeps its text under the same choice; an otherName keeps its type OID and value
/// octets; an x400Address or ediPartyName keeps its constructed bit and content; a
/// four-octet iPAddress is shown as an IP address of four decimal octets joined by
/// dots, a sixteen-octet one as an IP address, and one of another length, or a
/// rejected entry, as `Malformed` with its tag.
pub proof fn law_general_names_keep_their_choice(g: GeneralName, raw: RawGeneralName, names: OidNames)
    requires
        general_name_matches(g, raw, names),
    ensures
        raw matches RawGeneralName::Dns(s) ==> (g matches GeneralName::Dns(t) && t@ == s@),
        raw matches RawGeneralName::Rfc822(s) ==> (g matches GeneralName::Email(t) && t@ == s@),
        raw matches RawGeneralName::Uri(s) ==> (g matches GeneralName::Uri(t) && t@ == s@),
        raw matches RawGeneralName::Registered(s) ==> (g matches GeneralName::RegisteredId(t) && t@ == s@),
        raw matches RawGeneralName::Other(oid, value) ==> (g matches GeneralName::OtherName { oid: o, value_der_hex, .. }
            && o@ == oid@ && value_der_hex@ == hex_lower(value@)),
        raw matches RawGeneralName::X400(c, content) ==> (g matches GeneralName::X400Address { constructed, content_hex }
            && constructed == c && content_hex@ == hex_lower(content@)),
        raw matches RawGeneralName::Edi(c, content) ==> (g matches GeneralName::EdiPartyName { constructed, content_hex }
            && constructed == c && content_hex@ == hex_lower(content@)),
        raw is Ip && raw->Ip_0@.len() == 4 ==> (g matches GeneralName::Ip(t) && t@ == {
            let b = raw->Ip_0@;
            crate::ip::decimal_text(b[0] as nat) + seq!['.'] + crate::ip::decimal_text(b[1] as nat) + seq!['.']
                + crate::ip::decimal_text(b[2] as nat) + seq!['.'] + crate::ip::decimal_text(b[3] as nat)
        }),
        raw matches RawGeneralName::Ip(b) ==> (b@.len() == 4 || b@.len() == 16 <==> g is Ip),
        raw matches RawGeneralName::Ip(b) ==> (b@.len() != 4 && b@.len() != 16 <==> g == GeneralName::Malformed(7)),
        raw matches RawGeneralName::Rejected(tag) ==> g == GeneralName::Malformed(tag),
{
}

/// Basic Constraints report the encoded fields: when the SEQUENCE starts with a
/// BOOLEAN, `ca` is that BOOLEAN (true for FF, false for 00); an empty SEQUENCE is
/// not a CA and has no path length; a lone one-octet INTEGER n is the path length
/// n with `ca` false; a BOOLEAN then such an INTEGER gives both.
pub proof fn law_basic_constraints_report_the_encoded_fields(bytes: Seq<u8>, names: OidNames, d: ExtensionDetails)
    requires
        details_matches("2.5.29.19"@, bytes, names, d),
        d is BasicConstraints,
    ensures
        bytes.len() >= 5 && bytes[0] == 0x30 && 3 <= bytes[1] < 0x80 && bytes[2] == 1 && bytes[3] == 1
            ==> (d->ca <==> bytes[4] != 0),
        bytes == seq![0x30u8, 0] ==> !d->ca && d->path_len_constraint is None,
        bytes.len() == 5 && bytes[0] == 0x30 && bytes[1] == 3 && bytes[2] == 2 && bytes[3] == 1 && bytes[4] < 0x80
            ==> !d->ca && d->path_len_constraint == Some(bytes[4] as u32),
        bytes.len() == 8 && bytes[0] == 0x30 && bytes[1] == 6 && bytes[2] == 1 && bytes[3] == 1
            && bytes[5] == 2 && bytes[6] == 1 && bytes[7] < 0x80
            ==> (d->ca <==> bytes[4] != 0) && d->path_len_constraint == Some(bytes[7] as u32),
{
    reveal_strlit("2.5.29.17");
    reveal_strlit("2.5.29.18");
    reveal_strlit("2.5.29.19");
    assert("2.5.29.19"@[8] != "2.5.29.17"@[8]);
    assert("2.5.29.19"@[8] != "2.5.29.18"@[8]);
    assert(core_oid("2.5.29.19"@));
    assert(supported_matches("2.5.29.19"@, bytes, names, Some(d)));
    assert(core_matches("2.5.29.19"@, bytes, names, Some(d)));
    assert(basic_constraints_follow_encoding(bytes, Some(d)));
}

/// A Subject Key Identifier that is one OCTET STRING reports its content octets in
/// lowercase hex, two digits per octet in order.
pub proof fn law_subject_key_identifier_reports_its_octets(bytes: Seq<u8>, names: OidNames, d: ExtensionDetails)
    requires
        details_matches("2.5.29.14"@, bytes, names, d),
        d is SubjectKeyIdentifier,
        bytes.len() >= 2 && bytes[0] == 4 && bytes[1] < 0x80 && bytes.len() == bytes[1] + 2,
    ensures
        d->SubjectKeyIdentifier_0@.len() == 2 * (bytes.len() - 2),
        forall|i: int| 0 <= i < bytes.len() - 2 ==> {
            &&& #[trigger] d->SubjectKeyIdentifier_0@[2 * i] == crate::text::hex_digit(bytes[i + 2] / 16)
            &&& d->SubjectKeyIdentifier_0@[2 * i + 1] == crate::text::hex_digit(bytes[i + 2] % 16)
        },
{
    reveal_strlit("2.5.29.17");
    reveal_strlit("2.5.29.18");
    reveal_strlit("2.5.29.19");
    reveal_strlit("2.5.29.15");
    reveal_strlit("2.5.29.37");
    reveal_strlit("2.5.29.14");
    assert("2.5.29.14"@[8] != "2.5.29.17"@[8]);
    assert("2.5.29.14"@[8] != "2.5.29.18"@[8]);
    assert("2.5.29.14"@[8] != "2.5.29.19"@[8]);
    assert("2.5.29.14"@[8] != "2.5.29.15"@[8]);
    assert("2.5.29.14"@[7] != "2.5.29.37"@[7]);
    assert(core_oid("2.5.29.14"@));
    assert(supported_matches("2.5.29.14"@, bytes, names, Some(d)));
    let t = d->SubjectKeyIdentifier_0@;
    let c = bytes.skip(2);
    assert(t == hex_lower(c));
    assert forall|i: int| 0 <= i < bytes.len() - 2 implies {
        &&& #[trigger] t[2 * i] == crate::text::hex_digit(bytes[i + 2] / 16)
        &&& t[2 * i + 1] == crate::text::hex_digit(bytes[i + 2] % 16)
    } by {
        assert(c[i] == bytes[i + 2]);
        assert((2 * i) / 2 == i && (2 * i) % 2 == 0);
        assert((2 * i + 1) / 2 == i && (2 * i + 1) % 2 == 1);
    }
}

} // verus!
