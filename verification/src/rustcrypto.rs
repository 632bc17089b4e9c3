//! Calls into the RustCrypto crates: `x509-cert` and `der`, `pkcs1`, `sha2` and
//! `pem-rfc7468`.
//!
//! Every wrapper here is trusted; its contract states what the called function
//! documents or names its result. The SEQUENCE re-encoding that precedes the
//! ediPartyName decoder is verified.
use vstd::prelude::*;
use pkcs1::der::Decode as _;
use x509_cert::der::{Decode, Encode, Error as DerError, ErrorKind, Tag};
use x509_cert::der::asn1::{BitString, BmpString, Ia5String, Null, OctetString};
use x509_cert::ext::pkix;
use x509_cert::ext::pkix::name::{DistributionPointName, EdiPartyName, GeneralName as CryptoName, HardwareModuleName};
use sha2::Digest;
use base64ct::Encoding as _;
use crate::decoding::exactly_framed;

verus! {

/// `der::asn1::BmpString::from_ucs2` followed by its `Display` text. It accepts
/// content of even length (within the 32-bit DER length) whose code units, read
/// big-endian, each decode on their own to a character below U+FFFF (no
/// surrogates), and displays those characters in order.
#[verifier::external_body]
pub(crate) fn bmp_text(data: &[u8]) -> (r: Option<String>)
    ensures
        crate::text::opt_view(r) == crate::decoding::ucs2_text(data@),
{
    x509_cert::der::asn1::BmpString::from_ucs2(data).ok().map(|s| s.to_string())
}

/// RSASSA-PSS parameters as `pkcs1` decodes them.
#[derive(Clone, Debug)]
pub struct RawPssParameters {
    /// Message hash algorithm OID.
    pub hash_oid: String,
    /// Mask-generation algorithm OID.
    pub mask_gen_oid: String,
    /// OID of the mask-generation algorithm's parameters, when present.
    pub mask_gen_parameters_oid: Option<String>,
    /// Salt length in octets.
    pub salt_length: u8,
    /// Trailer field number.
    pub trailer_field: u32,
}

/// What `pkcs1::RsaPssParams::from_der` decodes from `der`.
pub uninterp spec fn rsa_pss_parameters_of(der: Seq<u8>) -> Option<RawPssParameters>;

/// `pkcs1::RsaPssParams::from_der` (which applies the RFC 8017 defaults and
/// rejects unconsumed input). Claims that the result is a fixed function of the
/// input and, as `TrailerField` has the single variant `BC = 1`, that the trailer
/// field is 1.
#[verifier::external_body]
pub(crate) fn rsa_pss_parameters(der: &[u8]) -> (r: Option<RawPssParameters>)
    ensures
        r == rsa_pss_parameters_of(der@),
        r matches Some(p) ==> p.trailer_field == 1,
{
    let p = pkcs1::RsaPssParams::from_der(der).ok()?;
    Some(RawPssParameters {
        hash_oid: p.hash.oid.to_string(),
        mask_gen_oid: p.mask_gen.oid.to_string(),
        mask_gen_parameters_oid: p.mask_gen.parameters.as_ref().map(|a| a.oid.to_string()),
        salt_length: p.salt_len,
        trailer_field: p.trailer_field as u32,
    })
}

/// What `pkcs1::RsaPublicKey::from_der` decodes from `der`: modulus and public
/// exponent octets as `UintRef::as_bytes` gives them.
pub uninterp spec fn rsa_public_key_of(der: Seq<u8>) -> Option<(Vec<u8>, Vec<u8>)>;

/// `pkcs1::RsaPublicKey::from_der`, returning `modulus.as_bytes()` and
/// `public_exponent.as_bytes()`. Claims only that the result is a fixed function
/// of the input.
#[verifier::external_body]
pub(crate) fn rsa_public_key(der: &[u8]) -> (r: Option<(Vec<u8>, Vec<u8>)>)
    ensures
        r == rsa_public_key_of(der@),
{
    let k = pkcs1::RsaPublicKey::from_der(der).ok()?;
    Some((k.modulus.as_bytes().to_vec(), k.public_exponent.as_bytes().to_vec()))
}

/// The category of a `der` decoding error, as far as field diagnostics need it.
#[derive(Clone, Copy, Debug, PartialEq, Eq, Structural)]
pub enum DerFailure {
    /// `ErrorKind::Overlength`.
    Overlength,
    /// `ErrorKind::NestingDepth`.
    NestingDepth,
    /// `ErrorKind::TagUnknown`.
    TagUnknown,
    /// `ErrorKind::TagUnexpected` where a context-specific tag with this number was found.
    UnexpectedContextTag(u32),
    /// Any other error kind.
    Other,
}

/// The `der` crate's error type; opaque here.
#[verifier::external_type_specification]
#[verifier::external_body]
pub struct ExDerError(DerError);

/// Classify a `der` error by `Error::kind`, variant for variant. Nothing is
/// claimed: its argument is opaque.
#[verifier::external_body]
fn der_failure(e: DerError) -> DerFailure {
    match e.kind() {
        ErrorKind::Overlength => DerFailure::Overlength,
        ErrorKind::NestingDepth => DerFailure::NestingDepth,
        ErrorKind::TagUnknown { .. } => DerFailure::TagUnknown,
        ErrorKind::TagUnexpected { actual: Tag::ContextSpecific { number, .. }, .. } => DerFailure::UnexpectedContextTag(number.0),
        _ => DerFailure::Other,
    }
}

/// What `OctetString::from_der` decodes from `bytes`.
pub uninterp spec fn octet_string_of(bytes: Seq<u8>) -> Result<Vec<u8>, DerFailure>;

/// `der::asn1::OctetString::from_der`: the content octets, or the error's
/// category. Claims that the result is a fixed function of the input.
/// `from_der` reads one value of the length its header gives and rejects unread
/// input, so an accepted input is one complete value (`exactly_framed`).
#[verifier::external_body]
pub(crate) fn octet_string(bytes: &[u8]) -> (r: Result<Vec<u8>, DerFailure>)
    ensures
        r == octet_string_of(bytes@),
        r is Ok ==> exactly_framed(bytes@, |b: Seq<u8>| octet_string_of(b) is Ok),
{
    OctetString::from_der(bytes).map(|v| v.as_bytes().to_vec()).map_err(der_failure)
}

/// What `BitString::from_der` decodes from `bytes`: content octets after the
/// unused-bit count, and that count.
pub uninterp spec fn bit_string_of(bytes: Seq<u8>) -> Result<(Vec<u8>, u8), DerFailure>;

/// `der::asn1::BitString::from_der`: `raw_bytes` and `unused_bits`, or the
/// error's category. The decoder rejects more than seven unused bits and unused
/// bits without content octets, so a success has `unused_bits` at most 7, and 0
/// when there are no content octets; it also checks that the bit length fits in
/// `usize`.
/// `from_der` reads one value of the length its header gives and rejects unread
/// input, so an accepted input is one complete value (`exactly_framed`).
#[verifier::external_body]
pub(crate) fn bit_string(bytes: &[u8]) -> (r: Result<(Vec<u8>, u8), DerFailure>)
    ensures
        r == bit_string_of(bytes@),
        r is Ok ==> exactly_framed(bytes@, |b: Seq<u8>| bit_string_of(b) is Ok),
        r matches Ok((data, unused)) ==> unused <= 7 && (data@.len() == 0 ==> unused == 0)
            && data@.len() * 8 <= usize::MAX,
{
    BitString::from_der(bytes).map(|v| (v.raw_bytes().to_vec(), v.unused_bits())).map_err(der_failure)
}

/// What `BmpString::from_der` followed by its `Display` text gives for `bytes`.
pub uninterp spec fn bmp_string_of(bytes: Seq<u8>) -> Result<Seq<char>, DerFailure>;

/// `der::asn1::BmpString::from_der`, then `to_string`. Claims only that the
/// result is a fixed function of the input.
#[verifier::external_body]
pub(crate) fn bmp_string(bytes: &[u8]) -> (r: Result<String, DerFailure>)
    ensures
        match (r, bmp_string_of(bytes@)) {
            (Ok(s), Ok(t)) => s@ == t,
            (Err(e), Err(f)) => e == f,
            _ => false,
        },
{
    BmpString::from_der(bytes).map(|v| v.to_string()).map_err(der_failure)
}

/// `der::asn1::Ia5String::from_der`: the text of an IA5String filling `bytes`.
/// Claims that the result is a fixed function of the input.
/// `from_der` reads one value of the length its header gives and rejects unread
/// input, so an accepted input is one complete value (`exactly_framed`).
#[verifier::external_body]
pub(crate) fn ia5_string(bytes: &[u8]) -> (r: Option<String>)
    ensures
        r is Some <==> ia5_string_of(bytes@) is Some,
        r matches Some(s) ==> ia5_string_of(bytes@) == Some(s@),
        r is Some ==> exactly_framed(bytes@, |b: Seq<u8>| ia5_string_of(b) is Some),
{
    Ia5String::from_der(bytes).ok().map(|v| v.as_str().to_string())
}

/// What `Ia5String::from_der` decodes from `bytes`.
pub uninterp spec fn ia5_string_of(bytes: Seq<u8>) -> Option<Seq<char>>;

/// What `Null::from_der` accepts: the DER encoding of NULL is the two octets
/// 05 00 (a zero length in its one short form, nothing after it).
pub open spec fn null_of(bytes: Seq<u8>) -> bool {
    bytes == seq![5u8, 0u8]
}

/// `der::asn1::Null::from_der`: whether `bytes` are exactly one NULL, that is
/// exactly the two octets 05 00.
#[verifier::external_body]
pub(crate) fn null(bytes: &[u8]) -> (r: bool)
    ensures
        r == null_of(bytes@),
{
    Null::from_der(bytes).is_ok()
}

/// What `Vec::<u16>::from_der` decodes from `bytes`.
pub uninterp spec fn u16_sequence_of(bytes: Seq<u8>) -> Option<Seq<u16>>;

/// `Vec::<u16>::from_der`: a SEQUENCE OF INTEGER with every value in u16 range.
/// Claims that the result is a fixed function of the input.
/// `from_der` reads one value of the length its header gives and rejects unread
/// input, so an accepted input is one complete value (`exactly_framed`).
#[verifier::external_body]
pub(crate) fn u16_sequence(bytes: &[u8]) -> (r: Option<Vec<u16>>)
    ensures
        match r {
            Some(v) => u16_sequence_of(bytes@) == Some(v@),
            None => u16_sequence_of(bytes@) is None,
        },
        r is Some ==> exactly_framed(bytes@, |b: Seq<u8>| u16_sequence_of(b) is Some),
{
    Vec::<u16>::from_der(bytes).ok()
}

/// What `PolicyConstraints::from_der` decodes from `bytes`.
pub uninterp spec fn policy_constraints_of(bytes: Seq<u8>) -> Option<(Option<u32>, Option<u32>)>;

/// `x509_cert::ext::pkix::PolicyConstraints::from_der`: requireExplicitPolicy
/// and inhibitPolicyMapping. Claims that the result is a fixed function of the
/// input. It reads one value of the length its header
/// gives and rejects unread input, so an accepted input is one complete value.
#[verifier::external_body]
pub(crate) fn policy_constraints(bytes: &[u8]) -> (r: Option<(Option<u32>, Option<u32>)>)
    ensures
        r == policy_constraints_of(bytes@),
        r is Some ==> exactly_framed(bytes@, |b: Seq<u8>| policy_constraints_of(b) is Some),
{
    pkix::PolicyConstraints::from_der(bytes).ok().map(|p| (p.require_explicit_policy, p.inhibit_policy_mapping))
}

/// What `PolicyMappings::from_der` decodes from `bytes`.
pub uninterp spec fn policy_mappings_of(bytes: Seq<u8>) -> Option<Seq<(Seq<char>, Seq<char>)>>;

/// `x509_cert::ext::pkix::PolicyMappings::from_der`: each issuer and subject
/// domain policy OID in dotted form, in encoded order. Claims that the result is
/// a fixed function of the input. It reads one value of the length its header
/// gives and rejects unread input, so an accepted input is one complete value.
#[verifier::external_body]
pub(crate) fn policy_mappings(bytes: &[u8]) -> (r: Option<Vec<(String, String)>>)
    ensures
        match r {
            Some(v) => policy_mappings_of(bytes@) == Some(v@.map_values(|p: (String, String)| (p.0@, p.1@))),
            None => policy_mappings_of(bytes@) is None,
        },
        r is Some ==> exactly_framed(bytes@, |b: Seq<u8>| policy_mappings_of(b) is Some),
{
    let p = pkix::PolicyMappings::from_der(bytes).ok()?;
    Some(p.0.iter().map(|m| (m.issuer_domain_policy.to_string(), m.subject_domain_policy.to_string())).collect())
}

/// What `InhibitAnyPolicy::from_der` decodes from `bytes`.
pub uninterp spec fn inhibit_any_policy_of(bytes: Seq<u8>) -> Option<u32>;

/// `x509_cert::ext::pkix::InhibitAnyPolicy::from_der`: the skip count.
/// Claims that the result is a fixed function of the input. It reads one value of the length its header
/// gives and rejects unread input, so an accepted input is one complete value.
#[verifier::external_body]
pub(crate) fn inhibit_any_policy(bytes: &[u8]) -> (r: Option<u32>)
    ensures
        r == inhibit_any_policy_of(bytes@),
        r is Some ==> exactly_framed(bytes@, |b: Seq<u8>| inhibit_any_policy_of(b) is Some),
{
    pkix::InhibitAnyPolicy::from_der(bytes).ok().map(|p| p.0)
}

/// What `PrivateKeyUsagePeriod::from_der` decodes from `bytes`, as Unix seconds.
pub uninterp spec fn private_key_usage_period_of(bytes: Seq<u8>) -> Option<(Option<i64>, Option<i64>)>;

/// `x509_cert::ext::pkix::PrivateKeyUsagePeriod::from_der`, each time as
/// `to_unix_duration().as_secs()`. Claims that the result is a fixed function of
/// the input. It reads one value of the length its header
/// gives and rejects unread input, so an accepted input is one complete value.
#[verifier::external_body]
pub(crate) fn private_key_usage_period(bytes: &[u8]) -> (r: Option<(Option<i64>, Option<i64>)>)
    ensures
        r == private_key_usage_period_of(bytes@),
        r is Some ==> exactly_framed(bytes@, |b: Seq<u8>| private_key_usage_period_of(b) is Some),
{
    let p = pkix::PrivateKeyUsagePeriod::from_der(bytes).ok()?;
    let secs = |t: x509_cert::der::asn1::GeneralizedTime| t.to_unix_duration().as_secs() as i64;
    Some((p.not_before.map(secs), p.not_after.map(secs)))
}

/// One attribute of a SubjectDirectoryAttributes value: its dotted OID and each
/// value re-encoded, None where re-encoding failed.
pub type RawDirectoryAttribute = (String, Vec<Option<Vec<u8>>>);

/// What `SubjectDirectoryAttributes::from_der` decodes from `bytes`.
pub uninterp spec fn subject_directory_attributes_of(bytes: Seq<u8>) -> Option<Vec<RawDirectoryAttribute>>;

/// `x509_cert::ext::pkix::SubjectDirectoryAttributes::from_der`, each value
/// re-encoded with `Encode::to_der`. Claims that the result is a fixed function
/// of the input. It reads one value of the length its header
/// gives and rejects unread input, so an accepted input is one complete value.
#[verifier::external_body]
pub(crate) fn subject_directory_attributes(bytes: &[u8]) -> (r: Option<Vec<RawDirectoryAttribute>>)
    ensures
        r == subject_directory_attributes_of(bytes@),
        r is Some ==> exactly_framed(bytes@, |b: Seq<u8>| subject_directory_attributes_of(b) is Some),
{
    let p = pkix::SubjectDirectoryAttributes::from_der(bytes).ok()?;
    Some(p.0.iter().map(|a| (a.oid.to_string(), a.values.iter().map(|v| v.to_der().ok()).collect())).collect())
}

/// A name-constraint base: IP octets, or any other GeneralName re-encoded
/// (None where re-encoding failed).
#[derive(Clone, Debug)]
pub enum RawConstraintBase {
    /// iPAddress octets.
    Ip(Vec<u8>),
    /// Another GeneralName choice, re-encoded.
    Encoded(Option<Vec<u8>>),
}

/// One GeneralSubtree: base, minimum and optional maximum.
#[derive(Clone, Debug)]
pub struct RawSubtree {
    /// The base name.
    pub base: RawConstraintBase,
    /// Minimum distance.
    pub minimum: u32,
    /// Maximum distance, when encoded.
    pub maximum: Option<u32>,
}

/// Permitted and excluded subtrees as decoded.
pub type RawNameConstraints = (Option<Vec<RawSubtree>>, Option<Vec<RawSubtree>>);

/// What `NameConstraints::from_der` decodes from `bytes`.
pub uninterp spec fn name_constraints_of(bytes: Seq<u8>) -> Result<RawNameConstraints, DerFailure>;

/// `x509_cert::ext::pkix::NameConstraints::from_der`, each non-IP base
/// re-encoded with `Encode::to_der`, or the error's category. Claims that the
/// result is a fixed function of the input. It reads one value of the length its header
/// gives and rejects unread input, so an accepted input is one complete value.
#[verifier::external_body]
pub(crate) fn name_constraints(bytes: &[u8]) -> (r: Result<RawNameConstraints, DerFailure>)
    ensures
        r == name_constraints_of(bytes@),
        r is Ok ==> exactly_framed(bytes@, |b: Seq<u8>| name_constraints_of(b) is Ok),
{
    let subtrees = |l: Vec<pkix::constraints::name::GeneralSubtree>| -> Vec<RawSubtree> {
        l.iter().map(|t| RawSubtree {
            base: match &t.base { CryptoName::IpAddress(ip) => RawConstraintBase::Ip(ip.as_bytes().to_vec()), other => RawConstraintBase::Encoded(other.to_der().ok()) },
            minimum: t.minimum,
            maximum: t.maximum,
        }).collect()
    };
    let v = pkix::NameConstraints::from_der(bytes).map_err(der_failure)?;
    Ok((v.permitted_subtrees.map(subtrees), v.excluded_subtrees.map(subtrees)))
}

/// A distribution-point name: full GeneralNames re-encoded one by one, or the
/// relative RDN re-encoded (None where re-encoding failed).
#[derive(Clone, Debug)]
pub enum RawPointName {
    /// fullName.
    Full(Vec<Option<Vec<u8>>>),
    /// nameRelativeToCRLIssuer.
    Relative(Option<Vec<u8>>),
}

/// One DistributionPoint as decoded.
#[derive(Clone, Debug)]
pub struct RawDistributionPoint {
    /// distributionPoint, when encoded.
    pub name: Option<RawPointName>,
    /// ReasonFlags bits, when encoded.
    pub reasons: Option<u16>,
    /// cRLIssuer names re-encoded one by one, when encoded.
    pub crl_issuer: Option<Vec<Option<Vec<u8>>>>,
}

/// What `CrlDistributionPoints::from_der` decodes from `bytes`.
pub uninterp spec fn distribution_points_of(bytes: Seq<u8>) -> Option<Vec<RawDistributionPoint>>;

/// `x509_cert::ext::pkix::CrlDistributionPoints::from_der`, names re-encoded with
/// `Encode::to_der` and reasons as `FlagSet::bits`. Claims that the result is a
/// fixed function of the input.
/// It reads one value of the length its header gives and rejects unread input,
/// so an accepted input is one complete value.
#[verifier::external_body]
pub(crate) fn distribution_points(bytes: &[u8]) -> (r: Option<Vec<RawDistributionPoint>>)
    ensures
        r == distribution_points_of(bytes@),
        r is Some ==> exactly_framed(bytes@, |b: Seq<u8>| distribution_points_of(b) is Some),
{
    let names = |l: &Vec<CryptoName>| -> Vec<Option<Vec<u8>>> { l.iter().map(|n| n.to_der().ok()).collect() };
    let p = pkix::CrlDistributionPoints::from_der(bytes).ok()?;
    Some(p.0.iter().map(|d| RawDistributionPoint {
        name: d.distribution_point.as_ref().map(|n| match n {
            DistributionPointName::FullName(l) => RawPointName::Full(names(l)),
            DistributionPointName::NameRelativeToCRLIssuer(rdn) => RawPointName::Relative(rdn.to_der().ok()),
        }),
        reasons: d.reasons.map(|r| r.bits()),
        crl_issuer: d.crl_issuer.as_ref().map(names),
    }).collect())
}

/// One PolicyInformation: dotted OID and its qualifiers, each with its dotted
/// identifier and value (absent, or re-encoded with None where that failed).
pub type RawPolicy = (String, Option<Vec<(String, Option<Option<Vec<u8>>>)>>);

/// What `CertificatePolicies::from_der` decodes from `bytes`.
pub uninterp spec fn certificate_policies_of(bytes: Seq<u8>) -> Option<Vec<RawPolicy>>;

/// `x509_cert::ext::pkix::CertificatePolicies::from_der`, qualifier values
/// re-encoded with `Encode::to_der`. Claims that the result is a fixed function
/// of the input.
/// It reads one value of the length its header gives and rejects unread input,
/// so an accepted input is one complete value.
#[verifier::external_body]
pub(crate) fn certificate_policies(bytes: &[u8]) -> (r: Option<Vec<RawPolicy>>)
    ensures
        r == certificate_policies_of(bytes@),
        r is Some ==> exactly_framed(bytes@, |b: Seq<u8>| certificate_policies_of(b) is Some),
{
    let p = pkix::CertificatePolicies::from_der(bytes).ok()?;
    Some(p.0.iter().map(|i| (i.policy_identifier.to_string(), i.policy_qualifiers.as_ref().map(|l| l.iter().map(|q| {
        (q.policy_qualifier_id.to_string(), q.qualifier.as_ref().map(|v| v.to_der().ok()))
    }).collect()))).collect())
}

/// Whether `AuthorityKeyIdentifier::from_der` accepts `bytes`.
pub uninterp spec fn authority_key_schema_of(bytes: Seq<u8>) -> bool;

/// `x509_cert::ext::pkix::AuthorityKeyIdentifier::from_der` succeeds: the strict
/// schema check of the AKI value.
/// It reads one value of the length its header gives and rejects unread input,
/// so an accepted input is one complete value.
#[verifier::external_body]
pub(crate) fn authority_key_schema(bytes: &[u8]) -> (r: bool)
    ensures
        r == authority_key_schema_of(bytes@),
        r ==> exactly_framed(bytes@, |b: Seq<u8>| authority_key_schema_of(b)),
{
    pkix::AuthorityKeyIdentifier::from_der(bytes).is_ok()
}

/// Whether `AuthorityInfoAccessSyntax::from_der` accepts `bytes`.
pub uninterp spec fn authority_access_schema_of(bytes: Seq<u8>) -> bool;

/// `x509_cert::ext::pkix::AuthorityInfoAccessSyntax::from_der` succeeds: the
/// strict schema check of the AIA value.
/// It reads one value of the length its header gives and rejects unread input,
/// so an accepted input is one complete value.
#[verifier::external_body]
pub(crate) fn authority_access_schema(bytes: &[u8]) -> (r: bool)
    ensures
        r == authority_access_schema_of(bytes@),
        r ==> exactly_framed(bytes@, |b: Seq<u8>| authority_access_schema_of(b)),
{
    pkix::AuthorityInfoAccessSyntax::from_der(bytes).is_ok()
}

/// Whether `SubjectInfoAccessSyntax::from_der` accepts `bytes`.
pub uninterp spec fn subject_access_schema_of(bytes: Seq<u8>) -> bool;

/// `x509_cert::ext::pkix::SubjectInfoAccessSyntax::from_der` succeeds: the
/// strict schema check of the SIA value.
/// It reads one value of the length its header gives and rejects unread input,
/// so an accepted input is one complete value.
#[verifier::external_body]
pub(crate) fn subject_access_schema(bytes: &[u8]) -> (r: bool)
    ensures
        r == subject_access_schema_of(bytes@),
        r ==> exactly_framed(bytes@, |b: Seq<u8>| subject_access_schema_of(b)),
{
    pkix::SubjectInfoAccessSyntax::from_der(bytes).is_ok()
}

/// What `HardwareModuleName::from_der` decodes from `bytes`: type OID and serial.
pub uninterp spec fn hardware_module_name_of(bytes: Seq<u8>) -> Result<(Seq<char>, Seq<u8>), DerFailure>;

/// `x509_cert::ext::pkix::name::HardwareModuleName::from_der`: hwType in dotted
/// form and hwSerialNum octets, or the error's category. Claims only that the
/// result is a fixed function of the input.
#[verifier::external_body]
pub(crate) fn hardware_module_name(bytes: &[u8]) -> (r: Result<(String, Vec<u8>), DerFailure>)
    ensures
        match (r, hardware_module_name_of(bytes@)) {
            (Ok((t, s)), Ok((u, v))) => t@ == u && s@ == v,
            (Err(e), Err(f)) => e == f,
            _ => false,
        },
{
    let h = HardwareModuleName::from_der(bytes).map_err(der_failure)?;
    Ok((h.hw_type.to_string(), h.hw_serial_num.as_bytes().to_vec()))
}

/// The DER length octets of a length that fits in 32 bits: one octet below 128,
/// else 0x80 plus the count of big-endian octets, then those octets.
pub open spec fn der_length(n: nat) -> Seq<u8> {
    if n < 0x80 {
        seq![n as u8]
    } else if n <= 0xff {
        seq![0x81u8, n as u8]
    } else if n <= 0xffff {
        seq![0x82u8, (n / 0x100) as u8, (n % 0x100) as u8]
    } else if n <= 0xff_ffff {
        seq![0x83u8, (n / 0x1_0000) as u8, ((n / 0x100) % 0x100) as u8, (n % 0x100) as u8]
    } else {
        seq![0x84u8, (n / 0x100_0000) as u8, ((n / 0x1_0000) % 0x100) as u8, ((n / 0x100) % 0x100) as u8, (n % 0x100) as u8]
    }
}

/// Content octets re-encoded as a DER SEQUENCE, as `der::asn1::Any::new(Tag::Sequence, ..)`
/// followed by `to_der` writes it; that fails (an overflow, `Other`) when the
/// whole encoding would exceed `u32::MAX` octets.
pub open spec fn sequence_encoding(content: Seq<u8>) -> Result<Seq<u8>, DerFailure> {
    if content.len() + 6 > u32::MAX {
        Err(DerFailure::Other)
    } else {
        Ok(seq![0x30u8] + der_length(content.len()) + content)
    }
}

/// Re-encode content octets as a DER SEQUENCE.
fn sequence_der(content: &[u8]) -> (r: Result<Vec<u8>, DerFailure>)
    ensures
        match (r, sequence_encoding(content@)) {
            (Ok(d), Ok(e)) => d@ == e,
            (Err(f), Err(g)) => f == g,
            _ => false,
        },
{
    let n = content.len();
    if n > 0xffff_fff9 {
        return Err(DerFailure::Other);
    }
    let mut out: Vec<u8> = Vec::new();
    out.push(0x30);
    if n < 0x80 {
        out.push(n as u8);
    } else if n <= 0xff {
        out.push(0x81);
        out.push(n as u8);
    } else if n <= 0xffff {
        out.push(0x82);
        out.push((n / 0x100) as u8);
        out.push((n % 0x100) as u8);
    } else if n <= 0xff_ffff {
        out.push(0x83);
        out.push((n / 0x1_0000) as u8);
        out.push(((n / 0x100) % 0x100) as u8);
        out.push((n % 0x100) as u8);
    } else {
        out.push(0x84);
        out.push((n / 0x100_0000) as u8);
        out.push(((n / 0x1_0000) % 0x100) as u8);
        out.push(((n / 0x100) % 0x100) as u8);
        out.push((n % 0x100) as u8);
    }
    let ghost head = out@;
    assert(head =~= seq![0x30u8] + der_length(n as nat));
    let mut i: usize = 0;
    while i < n
        invariant
            n == content@.len(),
            i <= n,
            out@ =~= head + content@.take(i as int),
        decreases n - i,
    {
        out.push(content[i]);
        assert(content@.take(i + 1) =~= content@.take(i as int).push(content@[i as int]));
        i = i + 1;
    }
    assert(content@.take(n as int) =~= content@);
    Ok(out)
}

/// What `EdiPartyName::from_der` decodes from a DER encoding: nameAssigner and
/// partyName text.
pub uninterp spec fn edi_party_name_der_of(der: Seq<u8>) -> Result<(Option<Seq<char>>, Seq<char>), DerFailure>;

/// `x509_cert::ext::pkix::name::EdiPartyName::from_der`, with each DirectoryString
/// as `value()`. Claims only that the result is a fixed function of the input.
#[verifier::external_body]
fn edi_party_name_der(der: &[u8]) -> (r: Result<(Option<String>, String), DerFailure>)
    ensures
        match (r, edi_party_name_der_of(der@)) {
            (Ok((a, p)), Ok((b, q))) => crate::text::opt_view(a) == b && p@ == q,
            (Err(e), Err(f)) => e == f,
            _ => false,
        },
{
    EdiPartyName::from_der(der).map(|v| (v.name_assigner.map(|n| n.value().into_owned()), v.party_name.value().into_owned())).map_err(der_failure)
}

/// What re-encoding these content octets as a SEQUENCE gives (outer error), then
/// what `EdiPartyName::from_der` decodes from it (inner result).
pub open spec fn edi_party_name_of(content: Seq<u8>) -> Result<Result<(Option<Seq<char>>, Seq<char>), DerFailure>, DerFailure> {
    match sequence_encoding(content) {
        Err(f) => Err(f),
        Ok(der) => Ok(edi_party_name_der_of(der)),
    }
}

/// Decode ediPartyName content octets: re-encoded as a SEQUENCE (its failure is
/// the outer error), then decoded (its failure is the inner error).
pub(crate) fn edi_party_name(content: &[u8]) -> (r: Result<Result<(Option<String>, String), DerFailure>, DerFailure>)
    ensures
        match (r, edi_party_name_of(content@)) {
            (Ok(Ok((a, p))), Ok(Ok((b, q)))) => crate::text::opt_view(a) == b && p@ == q,
            (Ok(Err(e)), Ok(Err(f))) => e == f,
            (Err(e), Err(f)) => e == f,
            _ => false,
        },
{
    match sequence_der(content) {
        Err(f) => Err(f),
        Ok(der) => Ok(edi_party_name_der(der.as_slice())),
    }
}

/// The SHA-256 digest of a byte string.
pub uninterp spec fn sha256_of(bytes: Seq<u8>) -> Seq<u8>;

/// `sha2::Sha256::digest`: the 32-octet SHA-256 digest of `bytes`.
#[verifier::external_body]
pub(crate) fn sha256(bytes: &[u8]) -> (r: [u8; 32])
    ensures
        r@ == sha256_of(bytes@),
{
    sha2::Sha256::digest(bytes).into()
}

/// What `pem_rfc7468::decode_vec` decodes from `bytes`: label and DER.
pub uninterp spec fn pem_of(bytes: Seq<u8>) -> Option<(Seq<char>, Seq<u8>)>;

/// `pem_rfc7468::decode_vec`: one RFC 7468 block filling `bytes` (matching
/// boundaries, valid Base64, nothing after the block), giving its label and
/// decoded octets. Claims only that the result is a fixed function of the input.
#[verifier::external_body]
pub(crate) fn pem_decode(bytes: &[u8]) -> (r: Option<(String, Vec<u8>)>)
    ensures
        match (r, pem_of(bytes@)) {
            (Some((l, d)), Some((m, e))) => l@ == m && d@ == e,
            (None, None) => true,
            _ => false,
        },
{
    pem_rfc7468::decode_vec(bytes).ok().map(|(l, d)| (l.to_string(), d))
}


/// The standard Base64 alphabet: `A`-`Z`, `a`-`z`, `0`-`9`, `+` and `/` for the
/// values 0 to 63.
pub open spec fn base64_digit(n: int) -> char {
    if n < 26 {
        (65 + n) as char
    } else if n < 52 {
        (97 + n - 26) as char
    } else if n < 62 {
        (48 + n - 52) as char
    } else if n == 62 {
        '+'
    } else {
        '/'
    }
}

/// Standard padded Base64 text of these octets: each group of three octets as
/// four digits of six bits, high bits first, and a last group of one or two
/// octets as two or three digits followed by `=` padding to four.
pub open spec fn base64_text(bytes: Seq<u8>) -> Seq<char>
    decreases bytes.len(),
{
    let b0 = bytes[0] as int;
    let b1 = bytes[1] as int;
    let b2 = bytes[2] as int;
    if bytes.len() == 0 {
        Seq::empty()
    } else if bytes.len() == 1 {
        seq![base64_digit(b0 / 4), base64_digit((b0 % 4) * 16), '=', '=']
    } else if bytes.len() == 2 {
        seq![base64_digit(b0 / 4), base64_digit((b0 % 4) * 16 + b1 / 16), base64_digit((b1 % 16) * 4), '=']
    } else {
        seq![
            base64_digit(b0 / 4),
            base64_digit((b0 % 4) * 16 + b1 / 16),
            base64_digit((b1 % 16) * 4 + b2 / 64),
            base64_digit(b2 % 64),
        ] + base64_text(bytes.skip(3))
    }
}

/// `base64ct::Base64::encode_string`: the standard alphabet with padding and no
/// line breaks. It panics on inputs longer than a quarter of the address space,
/// which `requires` leaves out.
#[verifier::external_body]
pub(crate) fn base64_encode(bytes: &[u8]) -> (r: String)
    requires
        bytes@.len() <= usize::MAX / 4,
    ensures
        r@ == base64_text(bytes@),
{
    base64ct::Base64::encode_string(bytes)
}

} // verus!
