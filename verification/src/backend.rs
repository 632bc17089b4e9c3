//! Calls into `x509-parser`, `asn1-rs` and `oid-registry`.
//!
//! Every function here is trusted: its body converts the parser's borrowed result
//! into plain owned values, and its contract only names that result. The
//! inspection logic that reads these values lives in the verified modules.
use vstd::prelude::*;
use x509_parser::nom::Parser;
use crate::extensions::KeyUsage;
use crate::decoding::exactly_framed;
use x509_parser::prelude::FromDer;
use x509_parser::asn1_rs::ToDer;
use x509_parser::asn1_rs::{self as asn1_rs, Any, Tag};
use x509_parser::extensions::GeneralName as B;
use x509_parser::extensions::GeneralName::{OtherName, RFC822Name, DNSName, X400Address, DirectoryName, EDIPartyName, URI, IPAddress, RegisteredID, Invalid};
use self::RawGeneralName::{Other, Rfc822, Dns, X400, Directory, Edi, Uri, Ip, Registered, Rejected};

verus! {

/// One DER value as the parser read it: identifier fields and content octets.
#[derive(Clone, Debug, PartialEq, Eq)]
pub struct DerValue {
    /// Tag class: 0 universal, 1 application, 2 context-specific, 3 private.
    pub class: u8,
    /// Whether the constructed bit is set.
    pub constructed: bool,
    /// Tag number.
    pub tag: u32,
    /// Content octets, without identifier and length.
    pub data: Vec<u8>,
}

/// Algorithm parameters: the value, and its re-encoded DER when that succeeds.
#[derive(Clone, Debug)]
pub struct RawParameters {
    /// The parameter value.
    pub value: DerValue,
    /// Complete DER encoding of the parameters.
    pub der: Option<Vec<u8>>,
}

/// An AlgorithmIdentifier: dotted OID and optional parameters.
#[derive(Clone, Debug)]
pub struct RawAlgorithm {
    /// Dotted-decimal algorithm OID.
    pub oid: String,
    /// Parameters, when encoded.
    pub parameters: Option<RawParameters>,
}

/// The fields of a parsed certificate that are plain bytes or numbers.
#[derive(Clone, Debug)]
pub struct CertificateFrame {
    /// Number of input bytes that follow the certificate.
    pub remaining: usize,
    /// The TBS certificate's signature AlgorithmIdentifier.
    pub inner_algorithm: RawAlgorithm,
    /// Zero-based encoded version number.
    pub version: u32,
    /// Serial INTEGER content octets.
    pub serial: Vec<u8>,
    /// Issuer Name DER.
    pub issuer_der: Vec<u8>,
    /// Subject Name DER.
    pub subject_der: Vec<u8>,
    /// notBefore in Unix seconds.
    pub not_before: i64,
    /// notAfter in Unix seconds.
    pub not_after: i64,
    /// SubjectPublicKeyInfo DER.
    pub spki_der: Vec<u8>,
    /// Signature BIT STRING octets.
    pub signature: Vec<u8>,
    /// Unused bits in the last signature octet.
    pub signature_unused_bits: u8,
}

/// A SubjectPublicKeyInfo: algorithm and subjectPublicKey BIT STRING.
#[derive(Clone, Debug)]
pub struct RawPublicKey {
    /// Number of input bytes after the SubjectPublicKeyInfo.
    pub remaining: usize,
    /// Key algorithm.
    pub algorithm: RawAlgorithm,
    /// BIT STRING octets.
    pub key: Vec<u8>,
    /// Unused bits in the last key octet.
    pub unused_bits: u8,
}

/// One certificate extension as encoded.
#[derive(Clone, Debug)]
pub struct RawExtension {
    /// Dotted-decimal extension OID.
    pub oid: String,
    /// Critical flag.
    pub critical: bool,
    /// extnValue content octets.
    pub value: Vec<u8>,
}

/// One AttributeTypeAndValue of a distinguished name.
#[derive(Clone, Debug)]
pub struct RawAttribute {
    /// Dotted-decimal attribute type.
    pub oid: String,
    /// Attribute value.
    pub value: DerValue,
}

/// A parsed X.509 Name.
#[derive(Clone, Debug)]
pub struct RawName {
    /// Number of input bytes after the Name.
    pub remaining: usize,
    /// The parser's display text for the name.
    pub display: String,
    /// RDNs and their attributes in encoded order.
    pub rdns: Vec<Vec<RawAttribute>>,
}

/// A GeneralName choice as the parser distinguishes it.
#[derive(Clone, Debug)]
pub enum RawGeneralName {
    /// otherName: type OID and the bytes that follow it.
    Other(String, Vec<u8>),
    /// rfc822Name text.
    Rfc822(String),
    /// dNSName text.
    Dns(String),
    /// x400Address, whose content the parser does not decode: the constructed
    /// bit of its [3] tag and its content octets.
    X400(bool, Vec<u8>),
    /// directoryName: the Name DER.
    Directory(Vec<u8>),
    /// ediPartyName, whose content the parser does not decode: the constructed
    /// bit of its [5] tag and its content octets.
    Edi(bool, Vec<u8>),
    /// uniformResourceIdentifier text.
    Uri(String),
    /// iPAddress octets.
    Ip(Vec<u8>),
    /// registeredID in dotted-decimal form.
    Registered(String),
    /// A choice whose content the parser rejected, with its tag number.
    Rejected(u32),
}

/// One RFC 6962 v1 SignedCertificateTimestamp as the parser read it.
#[derive(Clone, Debug)]
pub struct RawTimestamp {
    /// Number of list bytes after this entry.
    pub remaining: usize,
    /// Log identifier.
    pub log_id: Vec<u8>,
    /// Milliseconds since the Unix epoch.
    pub timestamp: u64,
    /// Extension octets.
    pub extensions: Vec<u8>,
    /// Hash algorithm number.
    pub hash_algorithm: u8,
    /// Signature algorithm number.
    pub signature_algorithm: u8,
    /// Signature octets.
    pub signature: Vec<u8>,
}

/// The Netscape certificate-type flags as the parser reports them.
#[derive(Clone, Copy, Debug)]
pub struct RawNetscapeType {
    /// Number of input bytes after the BIT STRING.
    pub remaining: usize,
    /// ssl_client.
    pub ssl_client: bool,
    /// ssl_server.
    pub ssl_server: bool,
    /// smime.
    pub smime: bool,
    /// object_signing.
    pub object_signing: bool,
    /// ssl_ca.
    pub ssl_ca: bool,
    /// smime_ca.
    pub smime_ca: bool,
    /// object_signing_ca.
    pub object_signing_ca: bool,
}

/// What `X509CertificateParser` (extension bodies not deep-parsed) reads from `der`.
pub uninterp spec fn certificate_frame_of(der: Seq<u8>) -> Option<CertificateFrame>;

/// `X509CertificateParser::parse` with `with_deep_parse_extensions(false)`.
/// Claims that the result is a fixed function of the input bytes, None when the
/// parser fails; `remaining` is the length of the unconsumed input. The parser
/// reads one definite-length SEQUENCE from the front: bytes appended after it
/// only add to what remains, and when it fills the input exactly, no strict
/// prefix holds the whole SEQUENCE, so every prefix fails.
#[verifier::external_body]
pub(crate) fn certificate_frame(der: &[u8]) -> (r: Option<CertificateFrame>)
    ensures
        r == certificate_frame_of(der@),
        r matches Some(f) ==> f.remaining <= der@.len(),
        r matches Some(f) ==> forall|s: Seq<u8>| #[trigger] certificate_frame_of(der@ + s) is Some
            && certificate_frame_of(der@ + s).unwrap().remaining == f.remaining + s.len(),
        r matches Some(f) && f.remaining == 0 ==> forall|n: int| 0 <= n < der@.len()
            ==> #[trigger] certificate_frame_of(der@.take(n)) is None,
{
    let parser = x509_parser::certificate::X509CertificateParser::new();
    let (rest, c) = parser.with_deep_parse_extensions(false).parse(der).ok()?;
    Some(CertificateFrame {
        remaining: rest.len(),
        inner_algorithm: raw_algorithm(&c.tbs_certificate.signature),
        version: c.version().0,
        serial: c.raw_serial().to_vec(),
        issuer_der: c.issuer().as_raw().to_vec(),
        subject_der: c.subject().as_raw().to_vec(),
        not_before: c.validity().not_before.timestamp(),
        not_after: c.validity().not_after.timestamp(),
        spki_der: c.public_key().raw.to_vec(),
        signature: c.signature_value.data.to_vec(),
        signature_unused_bits: c.signature_value.unused_bits,
    })
}

/// The outer signatureAlgorithm the certificate parser reads from `der`.
pub uninterp spec fn certificate_signature_algorithm_of(der: Seq<u8>) -> Option<RawAlgorithm>;

/// `X509CertificateParser::parse` (no deep extension parsing), returning the outer
/// `signature_algorithm` with each parameter re-encoded by `ToDer::to_der_vec`.
/// Claims that it succeeds exactly when `certificate_frame` does.
#[verifier::external_body]
pub(crate) fn certificate_signature_algorithm(der: &[u8]) -> (r: Option<RawAlgorithm>)
    ensures
        r == certificate_signature_algorithm_of(der@),
        r is Some <==> certificate_frame_of(der@) is Some,
{
    let parser = x509_parser::certificate::X509CertificateParser::new();
    let (_, c) = parser.with_deep_parse_extensions(false).parse(der).ok()?;
    Some(raw_algorithm(&c.signature_algorithm))
}

/// The parser's AlgorithmIdentifier type; opaque here.
#[verifier::external_type_specification]
#[verifier::external_body]
pub struct ExAlgorithmIdentifier<'a>(x509_parser::x509::AlgorithmIdentifier<'a>);

/// Move one parsed AlgorithmIdentifier into the raw form: dotted OID, and each
/// parameter's class, constructed flag, tag, content octets and `to_der_vec`
/// encoding. Nothing is claimed: its argument is opaque.
#[verifier::external_body]
pub(crate) fn raw_algorithm(a: &x509_parser::x509::AlgorithmIdentifier<'_>) -> RawAlgorithm {
    RawAlgorithm {
        oid: a.algorithm.to_id_string(),
        parameters: a.parameters.as_ref().map(|p| RawParameters {
            value: DerValue { class: p.class() as u8, constructed: p.header.is_constructed(), tag: p.tag().0, data: p.data.to_vec() },
            der: p.to_der_vec().ok(),
        }),
    }
}

/// The extensions the certificate parser reads from `der`, in encoded order.
pub uninterp spec fn certificate_extensions_of(der: Seq<u8>) -> Option<Vec<RawExtension>>;

/// `X509CertificateParser::parse` (no deep extension parsing), returning each
/// extension's dotted OID, critical flag and extnValue octets in encoded order.
/// Claims that it succeeds exactly when `certificate_frame` does.
#[verifier::external_body]
pub(crate) fn certificate_extensions(der: &[u8]) -> (r: Option<Vec<RawExtension>>)
    ensures
        r == certificate_extensions_of(der@),
        r is Some <==> certificate_frame_of(der@) is Some,
{
    let parser = x509_parser::certificate::X509CertificateParser::new();
    let (_, c) = parser.with_deep_parse_extensions(false).parse(der).ok()?;
    Some(c.extensions().iter().map(|e| RawExtension {
        oid: e.oid.to_id_string(),
        critical: e.critical,
        value: e.value.to_vec(),
    }).collect())
}

/// What `SubjectPublicKeyInfo::from_der` reads from `der`.
pub uninterp spec fn public_key_info_of(der: Seq<u8>) -> Option<RawPublicKey>;

/// `x509_parser::x509::SubjectPublicKeyInfo::from_der`, with the algorithm
/// parameters re-encoded by `ToDer::to_der_vec`. Claims only that the result is a
/// fixed function of the input, with `remaining` at most the input length.
#[verifier::external_body]
pub(crate) fn public_key_info(der: &[u8]) -> (r: Option<RawPublicKey>)
    ensures
        r == public_key_info_of(der@),
        r matches Some(k) ==> k.remaining <= der@.len(),
{
    let (rest, k) = x509_parser::x509::SubjectPublicKeyInfo::from_der(der).ok()?;
    let a = &k.algorithm;
    Some(RawPublicKey {
        remaining: rest.len(),
        algorithm: RawAlgorithm {
            oid: a.algorithm.to_id_string(),
            parameters: a.parameters.as_ref().map(|p| RawParameters {
                value: DerValue { class: p.class() as u8, constructed: p.header.is_constructed(), tag: p.tag().0, data: p.data.to_vec() },
                der: p.to_der_vec().ok(),
            }),
        },
        key: k.subject_public_key.data.to_vec(),
        unused_bits: k.subject_public_key.unused_bits,
    })
}

/// What `X509Name::from_der` reads from `der`.
pub uninterp spec fn distinguished_name_of(der: Seq<u8>) -> Option<RawName>;

/// `x509_parser::x509::X509Name::from_der`, returning the parser's `Display`
/// text and each attribute's type and value in encoded order. Claims only that
/// the result is a fixed function of the input, with `remaining` at most its length.
#[verifier::external_body]
pub(crate) fn distinguished_name(der: &[u8]) -> (r: Option<RawName>)
    ensures
        r == distinguished_name_of(der@),
        r matches Some(n) ==> n.remaining <= der@.len(),
{
    let (rest, n) = x509_parser::x509::X509Name::from_der(der).ok()?;
    Some(RawName {
        remaining: rest.len(),
        display: n.to_string(),
        rdns: n.iter_rdn().map(|rdn| rdn.iter().map(|a| RawAttribute {
            oid: a.attr_type().to_id_string(),
            value: DerValue { class: a.attr_value().class() as u8, constructed: a.attr_value().header.is_constructed(), tag: a.attr_value().tag().0, data: a.as_slice().to_vec() },
        }).collect()).collect(),
    })
}

/// What `RelativeDistinguishedName::from_der` reads from `der`.
pub uninterp spec fn relative_name_of(der: Seq<u8>) -> Option<(Vec<RawAttribute>, usize)>;

/// `x509_parser::x509::RelativeDistinguishedName::from_der`, returning each
/// attribute's type and value in encoded order and the unconsumed length.
#[verifier::external_body]
pub(crate) fn relative_name(der: &[u8]) -> (r: Option<(Vec<RawAttribute>, usize)>)
    ensures
        r == relative_name_of(der@),
{
    let (rest, n) = x509_parser::x509::RelativeDistinguishedName::from_der(der).ok()?;
    Some((n.iter().map(|a| RawAttribute {
        oid: a.attr_type().to_id_string(),
        value: DerValue { class: a.attr_value().class() as u8, constructed: a.attr_value().header.is_constructed(), tag: a.attr_value().tag().0, data: a.as_slice().to_vec() },
    }).collect(), rest.len()))
}

/// What `Any::from_der` reads from the front of `bytes`, with the unconsumed length.
pub uninterp spec fn der_value_of(bytes: Seq<u8>) -> Option<(DerValue, usize)>;

/// `asn1_rs::Any::from_der`: one DER value from the front of `bytes`.
/// Claims that a success consumes at least one byte (an identifier and a length
/// are always read), so the unconsumed length is below the input length.
#[verifier::external_body]
pub(crate) fn der_value(bytes: &[u8]) -> (r: Option<(DerValue, usize)>)
    ensures
        r == der_value_of(bytes@),
        r matches Some((_, rest)) ==> rest < bytes@.len(),
{
    let (rest, a) = x509_parser::asn1_rs::Any::from_der(bytes).ok()?;
    Some((DerValue { class: a.class() as u8, constructed: a.header.is_constructed(), tag: a.tag().0, data: a.data.to_vec() }, rest.len()))
}

/// The parser's GeneralName type; opaque here.
#[verifier::external_type_specification]
#[verifier::external_body]
pub struct ExGeneralName<'a>(B<'a>);

/// Move one parsed GeneralName into the raw form, variant for variant. Nothing
/// is claimed: its argument is opaque.
#[verifier::external_body]
pub(crate) fn raw_general_name(n: &B<'_>) -> RawGeneralName {
    match n {
        OtherName(o, b) => Other(o.to_id_string(), b.to_vec()),
        RFC822Name(t) => Rfc822(t.to_string()),
        DNSName(t) => Dns(t.to_string()),
        X400Address(a) => X400(a.header.is_constructed(), a.data.to_vec()),
        DirectoryName(d) => Directory(d.as_raw().to_vec()),
        EDIPartyName(a) => Edi(a.header.is_constructed(), a.data.to_vec()),
        URI(t) => Uri(t.to_string()),
        IPAddress(b) => Ip(b.to_vec()),
        RegisteredID(o) => Registered(o.to_id_string()),
        Invalid(t, _) => Rejected(t.0),
    }
}

/// What `GeneralName::from_der` reads from the front of `bytes`.
pub uninterp spec fn general_name_of(bytes: Seq<u8>) -> Option<(RawGeneralName, usize)>;

/// `x509_parser::extensions::GeneralName::from_der`: one GeneralName from the
/// front of `bytes`, with the unconsumed length. Claims only that the result is a
/// fixed function of the input.
#[verifier::external_body]
pub(crate) fn general_name(bytes: &[u8]) -> (r: Option<(RawGeneralName, usize)>)
    ensures
        r == general_name_of(bytes@),
{
    let (rest, n) = B::from_der(bytes).ok()?;
    Some((raw_general_name(&n), rest.len()))
}

/// What `SubjectAlternativeName::from_der` reads from `bytes`.
pub uninterp spec fn subject_alternative_names_of(bytes: Seq<u8>) -> Option<(Vec<RawGeneralName>, usize)>;

/// `x509_parser::extensions::SubjectAlternativeName::from_der`: the names in
/// encoded order and the unconsumed length. Claims that the result is a
/// fixed function of the input.
/// A DER value has the length its header gives, so the value read from an input
/// that it fills is one complete value: a strict prefix does not parse, and more
/// octets after it are left unconsumed.
#[verifier::external_body]
pub(crate) fn subject_alternative_names(bytes: &[u8]) -> (r: Option<(Vec<RawGeneralName>, usize)>)
    ensures
        r == subject_alternative_names_of(bytes@),
        r is Some && r.unwrap().1 == 0 ==> exactly_framed(bytes@, |b: Seq<u8>| subject_alternative_names_of(b) is Some && subject_alternative_names_of(b).unwrap().1 == 0),
{
    let (rest, v) = x509_parser::extensions::SubjectAlternativeName::from_der(bytes).ok()?;
    Some((v.general_names.iter().map(raw_general_name).collect(), rest.len()))
}

/// What `IssuerAlternativeName::from_der` reads from `bytes`.
pub uninterp spec fn issuer_alternative_names_of(bytes: Seq<u8>) -> Option<(Vec<RawGeneralName>, usize)>;

/// `x509_parser::extensions::IssuerAlternativeName::from_der`: the names in
/// encoded order and the unconsumed length. Claims that the result is a
/// fixed function of the input.
/// A DER value has the length its header gives, so the value read from an input
/// that it fills is one complete value: a strict prefix does not parse, and more
/// octets after it are left unconsumed.
#[verifier::external_body]
pub(crate) fn issuer_alternative_names(bytes: &[u8]) -> (r: Option<(Vec<RawGeneralName>, usize)>)
    ensures
        r == issuer_alternative_names_of(bytes@),
        r is Some && r.unwrap().1 == 0 ==> exactly_framed(bytes@, |b: Seq<u8>| issuer_alternative_names_of(b) is Some && issuer_alternative_names_of(b).unwrap().1 == 0),
{
    let (rest, v) = x509_parser::extensions::IssuerAlternativeName::from_der(bytes).ok()?;
    Some((v.general_names.iter().map(raw_general_name).collect(), rest.len()))
}

/// What `AuthorityInfoAccess::from_der` reads from `bytes`.
pub uninterp spec fn authority_info_access_of(bytes: Seq<u8>) -> Option<(Vec<(String, RawGeneralName)>, usize)>;

/// `x509_parser::extensions::AuthorityInfoAccess::from_der`: each access method
/// OID and location in encoded order, and the unconsumed length. Claims only that
/// the result is a fixed function of the input.
#[verifier::external_body]
pub(crate) fn authority_info_access(bytes: &[u8]) -> (r: Option<(Vec<(String, RawGeneralName)>, usize)>)
    ensures
        r == authority_info_access_of(bytes@),
{
    let (rest, v) = x509_parser::extensions::AuthorityInfoAccess::from_der(bytes).ok()?;
    Some((v.iter().map(|d| (d.access_method.to_id_string(), raw_general_name(&d.access_location))).collect(), rest.len()))
}

/// What `SubjectInfoAccess::from_der` reads from `bytes`.
pub uninterp spec fn subject_info_access_of(bytes: Seq<u8>) -> Option<(Vec<(String, RawGeneralName)>, usize)>;

/// `x509_parser::extensions::SubjectInfoAccess::from_der`: each access method
/// OID and location in encoded order, and the unconsumed length. Claims only that
/// the result is a fixed function of the input.
#[verifier::external_body]
pub(crate) fn subject_info_access(bytes: &[u8]) -> (r: Option<(Vec<(String, RawGeneralName)>, usize)>)
    ensures
        r == subject_info_access_of(bytes@),
{
    let (rest, v) = x509_parser::extensions::SubjectInfoAccess::from_der(bytes).ok()?;
    Some((v.iter().map(|d| (d.access_method.to_id_string(), raw_general_name(&d.access_location))).collect(), rest.len()))
}

/// The fields of an AuthorityKeyIdentifier.
#[derive(Clone, Debug)]
pub struct RawAuthorityKey {
    /// Number of input bytes after the value.
    pub remaining: usize,
    /// keyIdentifier octets.
    pub key_identifier: Option<Vec<u8>>,
    /// authorityCertIssuer names.
    pub issuer: Option<Vec<RawGeneralName>>,
    /// authorityCertSerialNumber content octets.
    pub serial: Option<Vec<u8>>,
}

/// What `AuthorityKeyIdentifier::from_der` reads from `bytes`.
pub uninterp spec fn authority_key_identifier_of(bytes: Seq<u8>) -> Option<RawAuthorityKey>;

/// `x509_parser::extensions::AuthorityKeyIdentifier::from_der`. Claims only that
/// the result is a fixed function of the input.
#[verifier::external_body]
pub(crate) fn authority_key_identifier(bytes: &[u8]) -> (r: Option<RawAuthorityKey>)
    ensures
        r == authority_key_identifier_of(bytes@),
{
    let (rest, v) = x509_parser::extensions::AuthorityKeyIdentifier::from_der(bytes).ok()?;
    Some(RawAuthorityKey {
        remaining: rest.len(),
        key_identifier: v.key_identifier.map(|k| k.0.to_vec()),
        issuer: v.authority_cert_issuer.map(|l| l.iter().map(raw_general_name).collect()),
        serial: v.authority_cert_serial.map(|s| s.to_vec()),
    })
}

/// One OCTET STRING in short-form length filling `bytes`.
pub open spec fn short_octet_string(bytes: Seq<u8>) -> bool {
    bytes.len() >= 2 && bytes[0] == 4 && bytes[1] < 0x80 && bytes.len() == bytes[1] + 2
}

/// What `KeyIdentifier::from_der` reads from `bytes`.
pub uninterp spec fn key_identifier_of(bytes: Seq<u8>) -> Option<(Vec<u8>, usize)>;

/// `x509_parser::extensions::KeyIdentifier::from_der`: the OCTET STRING content
/// and the unconsumed length. Claims that the result is a fixed function of
/// the input.
/// A DER value has the length its header gives, so the value read from an input
/// that it fills is one complete value: a strict prefix does not parse, and more
/// octets after it are left unconsumed.
/// The value is read as a DER OCTET STRING whose content is the identifier, so a
/// `short_octet_string` gives its content octets and nothing unconsumed.
#[verifier::external_body]
pub(crate) fn key_identifier(bytes: &[u8]) -> (r: Option<(Vec<u8>, usize)>)
    ensures
        r == key_identifier_of(bytes@),
        r is Some && short_octet_string(bytes@) ==> r.unwrap().0@ == bytes@.skip(2) && r.unwrap().1 == 0,
        r is Some && r.unwrap().1 == 0 ==> exactly_framed(bytes@, |b: Seq<u8>| key_identifier_of(b) is Some && key_identifier_of(b).unwrap().1 == 0),
{
    let (rest, v) = x509_parser::extensions::KeyIdentifier::from_der(bytes).ok()?;
    Some((v.0.to_vec(), rest.len()))
}

/// A BIT STRING as `asn1_rs::BitString::from_der` reads it.
#[derive(Clone, Debug)]
pub struct RawBits {
    /// Number of input bytes after the value.
    pub remaining: usize,
    /// Unused bits in the last octet.
    pub unused_bits: u8,
    /// Content octets after the unused-bit count.
    pub data: Vec<u8>,
}

/// What `asn1_rs::BitString::from_der` reads from `bytes`.
pub uninterp spec fn bit_string_of(bytes: Seq<u8>) -> Option<RawBits>;

/// `asn1_rs::BitString::from_der`. Claims that the result is a fixed
/// function of the input.
/// A DER value has the length its header gives, so the value read from an input
/// that it fills is one complete value: a strict prefix does not parse, and more
/// octets after it are left unconsumed.
#[verifier::external_body]
pub(crate) fn bit_string(bytes: &[u8]) -> (r: Option<RawBits>)
    ensures
        r == bit_string_of(bytes@),
        r is Some && r.unwrap().remaining == 0 ==> exactly_framed(bytes@, |b: Seq<u8>| bit_string_of(b) is Some && bit_string_of(b).unwrap().remaining == 0),
{
    let (rest, v) = asn1_rs::BitString::from_der(bytes).ok()?;
    Some(RawBits { remaining: rest.len(), unused_bits: v.unused_bits, data: v.data.to_vec() })
}

/// What `x509_parser::extensions::KeyUsage::from_der` reports for `bytes`.
pub uninterp spec fn key_usage_of(bytes: Seq<u8>) -> Option<KeyUsage>;

/// `x509_parser::extensions::KeyUsage::from_der`, read through its nine named
/// accessors (`non_repudiation` as `content_commitment`). Claims only that the
/// result is a fixed function of the input.
#[verifier::external_body]
pub(crate) fn key_usage(bytes: &[u8]) -> (r: Option<KeyUsage>)
    ensures
        r == key_usage_of(bytes@),
{
    let (_, k) = x509_parser::extensions::KeyUsage::from_der(bytes).ok()?;
    Some(KeyUsage {
        digital_signature: k.digital_signature(), content_commitment: k.non_repudiation(),
        key_encipherment: k.key_encipherment(), data_encipherment: k.data_encipherment(),
        key_agreement: k.key_agreement(), key_cert_sign: k.key_cert_sign(), crl_sign: k.crl_sign(),
        encipher_only: k.encipher_only(), decipher_only: k.decipher_only(),
    })
}

/// What `Vec::<Oid>::from_der` reads from `bytes`.
pub uninterp spec fn oid_sequence_of(bytes: Seq<u8>) -> Option<(Vec<String>, usize)>;

/// `Vec::<asn1_rs::Oid>::from_der` (SEQUENCE OF OBJECT IDENTIFIER), each OID in
/// dotted form, in order, and the unconsumed length. Claims that the result
/// is a fixed function of the input.
/// A DER value has the length its header gives, so the value read from an input
/// that it fills is one complete value: a strict prefix does not parse, and more
/// octets after it are left unconsumed.
#[verifier::external_body]
pub(crate) fn oid_sequence(bytes: &[u8]) -> (r: Option<(Vec<String>, usize)>)
    ensures
        r == oid_sequence_of(bytes@),
        r is Some && r.unwrap().1 == 0 ==> exactly_framed(bytes@, |b: Seq<u8>| oid_sequence_of(b) is Some && oid_sequence_of(b).unwrap().1 == 0),
{
    let (rest, v) = Vec::<asn1_rs::Oid>::from_der(bytes).ok()?;
    Some((v.iter().map(|o| o.to_id_string()).collect(), rest.len()))
}

/// A SEQUENCE in short-form length holding at least a BOOLEAN of one octet first.
pub open spec fn leads_with_boolean(bytes: Seq<u8>) -> bool {
    bytes.len() >= 5 && bytes[0] == 0x30 && 3 <= bytes[1] < 0x80 && bytes[2] == 1 && bytes[3] == 1
}

/// The cA flag and path length of the short Basic Constraints encodings: an empty
/// SEQUENCE, a lone BOOLEAN, a lone one-octet non-negative INTEGER, or a BOOLEAN
/// then such an INTEGER; None for any other input.
pub open spec fn basic_constraints_encoding(bytes: Seq<u8>) -> Option<(bool, Option<u32>)> {
    if bytes == seq![0x30u8, 0] {
        Some((false, None))
    } else if bytes.len() == 5 && bytes[0] == 0x30 && bytes[1] == 3 && bytes[2] == 1 && bytes[3] == 1 {
        Some((bytes[4] != 0, None))
    } else if bytes.len() == 5 && bytes[0] == 0x30 && bytes[1] == 3 && bytes[2] == 2 && bytes[3] == 1 && bytes[4] < 0x80 {
        Some((false, Some(bytes[4] as u32)))
    } else if bytes.len() == 8 && bytes[0] == 0x30 && bytes[1] == 6 && bytes[2] == 1 && bytes[3] == 1
        && bytes[5] == 2 && bytes[6] == 1 && bytes[7] < 0x80 {
        Some((bytes[4] != 0, Some(bytes[7] as u32)))
    } else {
        None
    }
}

/// What `BasicConstraints::from_der` reads from `bytes`.
pub uninterp spec fn basic_constraints_of(bytes: Seq<u8>) -> Option<(bool, Option<u32>, usize)>;

/// `x509_parser::extensions::BasicConstraints::from_der`: CA flag, path length
/// and the unconsumed length. Claims that the result is a fixed function
/// of the input.
/// A DER value has the length its header gives, so the value read from an input
/// that it fills is one complete value: a strict prefix does not parse, and more
/// octets after it are left unconsumed.
/// The parser reads the SEQUENCE with DER rules (a BOOLEAN is one octet, 00 or
/// FF) and takes `ca` from a first BOOLEAN element (false when there is none) and
/// the path length from an INTEGER element, so the short encodings give the
/// fields of `basic_constraints_encoding`.
#[verifier::external_body]
pub(crate) fn basic_constraints(bytes: &[u8]) -> (r: Option<(bool, Option<u32>, usize)>)
    ensures
        r == basic_constraints_of(bytes@),
        r is Some && leads_with_boolean(bytes@) ==> r.unwrap().0 == (bytes@[4] != 0),
        r is Some && basic_constraints_encoding(bytes@) is Some ==>
            (r.unwrap().0, r.unwrap().1) == basic_constraints_encoding(bytes@).unwrap(),
        r is Some && r.unwrap().2 == 0 ==> exactly_framed(bytes@, |b: Seq<u8>| basic_constraints_of(b) is Some && basic_constraints_of(b).unwrap().2 == 0),
{
    let (rest, v) = x509_parser::extensions::BasicConstraints::from_der(bytes).ok()?;
    Some((v.ca, v.path_len_constraint, rest.len()))
}

/// What `NSCertType::from_der` reports for `bytes`.
pub uninterp spec fn netscape_type_of(bytes: Seq<u8>) -> Option<RawNetscapeType>;

/// `x509_parser::extensions::NSCertType::from_der`, read through its seven
/// named accessors. Claims only that the result is a fixed function of the input.
#[verifier::external_body]
pub(crate) fn netscape_type(bytes: &[u8]) -> (r: Option<RawNetscapeType>)
    ensures
        r == netscape_type_of(bytes@),
{
    let (rest, n) = x509_parser::extensions::NSCertType::from_der(bytes).ok()?;
    Some(RawNetscapeType {
        remaining: rest.len(), ssl_client: n.ssl_client(), ssl_server: n.ssl_server(), smime: n.smime(),
        object_signing: n.object_signing(), ssl_ca: n.ssl_ca(), smime_ca: n.smime_ca(), object_signing_ca: n.object_signing_ca(),
    })
}

/// What `parse_ct_signed_certificate_timestamp` reads from the front of `list`.
pub uninterp spec fn ct_timestamp_of(list: Seq<u8>) -> Option<RawTimestamp>;

/// `x509_parser::extensions::parse_ct_signed_certificate_timestamp`: one
/// length-prefixed v1 SCT from the front of `list`. Claims only that the result
/// is a fixed function of the input.
#[verifier::external_body]
pub(crate) fn ct_timestamp(list: &[u8]) -> (r: Option<RawTimestamp>)
    ensures
        r == ct_timestamp_of(list@),
{
    let (rest, v) = x509_parser::extensions::parse_ct_signed_certificate_timestamp(list).ok()?;
    Some(RawTimestamp {
        remaining: rest.len(), log_id: v.id.key_id.to_vec(), timestamp: v.timestamp, extensions: v.extensions.0.to_vec(),
        hash_algorithm: v.signature.hash_alg_id, signature_algorithm: v.signature.sign_alg_id, signature: v.signature.data.to_vec(),
    })
}

/// `asn1_rs::Any::as_i64` on a universal INTEGER with the given content octets.
/// For minimal encodings the parser sign-extends up to eight octets and removes
/// leading zeros of positive values, so the result is the two's-complement value
/// exactly when it fits in i64.
#[verifier::external_body]
pub(crate) fn integer_i64(data: &[u8]) -> (r: Option<i64>)
    requires
        data@.len() > 0,
        !crate::decoding::redundant_sign(data@),
    ensures
        r == (if i64::MIN <= crate::decoding::twos_complement(data@) <= i64::MAX {
            Some(crate::decoding::twos_complement(data@) as i64)
        } else {
            None
        }),
{
    Any::from_tag_and_data(Tag::Integer, data).as_i64().ok()
}

/// `Utf8String::try_from` on a universal UTF8String with these content octets:
/// the standard library's UTF-8 validation, so text exactly for valid UTF-8.
#[verifier::external_body]
pub(crate) fn utf8_text(data: &[u8]) -> (r: Option<String>)
    ensures
        r is Some <==> vstd::utf8::valid_utf8(data@),
        r matches Some(s) ==> s@ == vstd::utf8::decode_utf8(data@),
{
    asn1_rs::Utf8String::try_from(&Any::from_tag_and_data(Tag::Utf8String, data)).ok().map(|s| s.string())
}

/// `PrintableString::try_from`: accepts exactly the PrintableString character set,
/// one character per octet.
#[verifier::external_body]
pub(crate) fn printable_text(data: &[u8]) -> (r: Option<String>)
    ensures
        r is Some <==> forall|i: int| 0 <= i < data@.len() ==> crate::decoding::printable_byte(#[trigger] data@[i]),
        r matches Some(s) ==> s@ == crate::decoding::byte_chars(data@),
{
    asn1_rs::PrintableString::try_from(&Any::from_tag_and_data(Tag::PrintableString, data)).ok().map(|s| s.string())
}

/// `NumericString::try_from`: accepts exactly digits and space.
#[verifier::external_body]
pub(crate) fn numeric_text(data: &[u8]) -> (r: Option<String>)
    ensures
        r is Some <==> forall|i: int| 0 <= i < data@.len() ==> crate::decoding::numeric_byte(#[trigger] data@[i]),
        r matches Some(s) ==> s@ == crate::decoding::byte_chars(data@),
{
    asn1_rs::NumericString::try_from(&Any::from_tag_and_data(Tag::NumericString, data)).ok().map(|s| s.string())
}

/// `Ia5String::try_from`: accepts exactly ASCII octets.
#[verifier::external_body]
pub(crate) fn ia5_text(data: &[u8]) -> (r: Option<String>)
    ensures
        r is Some <==> forall|i: int| 0 <= i < data@.len() ==> crate::decoding::ia5_byte(#[trigger] data@[i]),
        r matches Some(s) ==> s@ == crate::decoding::byte_chars(data@),
{
    asn1_rs::Ia5String::try_from(&Any::from_tag_and_data(Tag::Ia5String, data)).ok().map(|s| s.string())
}

/// `VisibleString::try_from`: accepts exactly octets 0x20 through 0x7f.
#[verifier::external_body]
pub(crate) fn visible_text(data: &[u8]) -> (r: Option<String>)
    ensures
        r is Some <==> forall|i: int| 0 <= i < data@.len() ==> crate::decoding::visible_byte(#[trigger] data@[i]),
        r matches Some(s) ==> s@ == crate::decoding::byte_chars(data@),
{
    asn1_rs::VisibleString::try_from(&Any::from_tag_and_data(Tag::VisibleString, data)).ok().map(|s| s.string())
}

/// `UniversalString::try_from`: big-endian UCS-4, accepted exactly when the
/// length is a multiple of four and every quad is a Unicode scalar value.
#[verifier::external_body]
pub(crate) fn universal_text(data: &[u8]) -> (r: Option<String>)
    ensures
        r matches Some(s) ==> crate::decoding::ucs4_text(data@) == Some(s@),
        r is None ==> crate::decoding::ucs4_text(data@) is None,
{
    asn1_rs::UniversalString::try_from(&Any::from_tag_and_data(Tag::UniversalString, data)).ok().map(|s| s.string())
}

/// The registry type from `oid-registry`; opaque here.
#[verifier::external_type_specification]
#[verifier::external_body]
pub struct ExOidRegistry<'a>(oid_registry::OidRegistry<'a>);

/// The short names a registry holds, keyed by dotted-decimal OID text.
pub uninterp spec fn registry_short_names(registry: oid_registry::OidRegistry<'static>) -> Map<Seq<char>, Seq<char>>;

/// The short name the upstream crypto, X.509 and X.500 tables give an OID,
/// keyed by dotted-decimal text.
pub uninterp spec fn standard_short_name(oid: Seq<char>) -> Option<Seq<char>>;

/// `OidRegistry::default().with_crypto().with_x509().with_x500()`: the upstream
/// crypto, X.509 and X.500 tables, which are fixed tables compiled into the
/// crate. Their contents are named, not listed: every registry built this way
/// holds the same short names.
#[verifier::external_body]
pub(crate) fn standard_registry() -> (r: oid_registry::OidRegistry<'static>)
    ensures
        forall|oid: Seq<char>| #[trigger] registry_short_names(r).dom().contains(oid) == standard_short_name(oid) is Some,
        forall|oid: Seq<char>| #[trigger] registry_short_names(r).dom().contains(oid)
            ==> registry_short_names(r)[oid] == standard_short_name(oid).unwrap(),
{
    oid_registry::OidRegistry::default().with_crypto().with_x509().with_x500()
}

/// `Oid::from_str` then `OidRegistry::get`, returning the entry's short name.
/// For OID text that `Oid::from_str` parses and prints back unchanged, the result
/// is the registry's short name for that OID, if it holds one.
#[verifier::external_body]
pub(crate) fn registry_short_name(registry: &oid_registry::OidRegistry<'static>, oid: &str) -> (r: Option<String>)
    requires
        oid_reformat_of(oid@) == Some(oid@),
    ensures
        r is Some <==> registry_short_names(*registry).dom().contains(oid@),
        r matches Some(s) ==> s@ == registry_short_names(*registry)[oid@],
{
    let parsed = <asn1_rs::Oid as core::str::FromStr>::from_str(oid).ok()?;
    registry.get(&parsed).map(|e| e.sn().to_string())
}

/// What `Oid::from_str` followed by `to_id_string` makes of OID text.
pub uninterp spec fn oid_reformat_of(oid: Seq<char>) -> Option<Seq<char>>;

/// `Oid::from_str` followed by `Oid::to_id_string`: the parsed OID printed back,
/// None when parsing fails. The printed form is ASCII (decimal arcs and dots, or
/// hexadecimal octets), as `to_id_string` shows. For text whose first arc is 0, 1
/// or 2 and that has a second arc, the text comes back unchanged exactly when
/// `round_trips` holds: `from_str` splits at every '.' and parses each arc as a
/// `u64`, `Oid::from` refuses a second arc of 40 or more, and the printer writes
/// the first two arcs from the first octet and later arcs in decimal, falling
/// back to hex octets when an arc needs more than nine base-128 digits (2^63 or
/// more).
#[verifier::external_body]
pub(crate) fn oid_reformat(oid: &str) -> (r: Option<String>)
    ensures
        r matches Some(t) ==> oid_reformat_of(oid@) == Some(t@) && vstd::utf8::is_ascii_chars(t@),
        r is None ==> oid_reformat_of(oid@) is None,
        crate::oids::leading_arcs_valid(oid@) ==> ((r is Some && r.unwrap()@ == oid@) == crate::oids::round_trips(oid@)),
{
    <asn1_rs::Oid as core::str::FromStr>::from_str(oid).ok().map(|o| o.to_id_string())
}

/// The dotted text `Oid::to_id_string` gives for OID content octets.
pub uninterp spec fn oid_text_of(data: Seq<u8>) -> Seq<char>;

/// `asn1_rs::Oid::new` over these content octets (what `Any::as_oid` builds, which
/// never fails), then `to_id_string`. Claims only that the text is a fixed
/// function of the octets.
#[verifier::external_body]
pub(crate) fn oid_text(data: &[u8]) -> (r: String)
    ensures
        r@ == oid_text_of(data@),
{
    asn1_rs::Oid::new(std::borrow::Cow::Borrowed(data)).to_id_string()
}

} // verus!
