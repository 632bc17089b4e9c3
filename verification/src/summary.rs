//! Owned certificate details for UI/FFI and serialization, without raw copies of
//! the certificate, key, signature or extension encodings.
use vstd::prelude::*;
use crate::algorithms::{AlgorithmInfo, KeyDataStatus, ParameterStatus, PssParameters};
use crate::certificate::CertificateInfo;
use crate::extensions::{ExtensionDetails, ExtensionInfo};
use crate::extensions::copies::{copy_details, lemma_same_details_agree, same_details};
use crate::names::{DistinguishedName, NameAttribute};
use crate::rustcrypto;
use crate::text::{encode_hex, hex_lower};
use crate::Validity;

verus! {

/// Display-oriented name data without the complete Name DER.
#[derive(Clone, Debug, PartialEq, Eq)]
#[non_exhaustive]
pub struct NameSummary {
    /// Presentation string, not a normalized identity.
    pub display: String,
    /// Ordered RDN groups with repeated and unknown attributes preserved.
    pub rdns: Vec<Vec<NameAttribute>>,
}

/// Algorithm description without raw parameter bytes; see AlgorithmInfo for full data.
#[derive(Clone, Debug, PartialEq, Eq)]
#[non_exhaustive]
pub struct AlgorithmSummary {
    /// Dotted-decimal algorithm OID.
    pub oid: String,
    /// Recognized common label, or None.
    pub name: Option<String>,
    /// Parameter interpretation state; this is not a validation verdict.
    pub parameter_status: ParameterStatus,
    /// Decoded RSA-PSS parameters, when available.
    pub pss: Option<PssParameters>,
}

/// Public-key description without key/SPKI bytes.
#[derive(Clone, Debug, PartialEq, Eq)]
#[non_exhaustive]
pub struct PublicKeySummary {
    /// Algorithm and parameter description.
    pub algorithm: AlgorithmSummary,
    /// Supported key encoding status, independent of parameter status and trust.
    pub key_data_status: KeyDataStatus,
    /// Named-curve OID, when encoded as such.
    pub curve_oid: Option<String>,
    /// Recognized curve label, when available.
    pub curve_name: Option<String>,
    /// Modulus/nominal curve size, not a security-strength estimate.
    pub key_size_bits: Option<usize>,
}

/// Extension summary without raw extnValue bytes; unsupported values remain explicit.
#[derive(Clone, Debug, PartialEq, Eq)]
#[non_exhaustive]
pub struct ExtensionSummary {
    /// Dotted-decimal extension OID.
    pub oid: String,
    /// Encoded critical flag.
    pub critical: bool,
    /// Whether this OID occurs more than once in the certificate.
    pub duplicate: bool,
    /// Decoded fields, or an explicit unsupported/malformed state.
    pub details: ExtensionDetails,
}

/// Owned certificate details for UI/FFI and optional serialization.
///
/// Schema version 1 uses lowercase unseparated hex for byte strings, signed Unix
/// seconds for times, dotted OIDs, absent values for unknown ones, and tagged
/// enums. Complete DER, signature, key and extension bytes are omitted; use
/// CertificateInfo for those. This summary is not a lossless certificate
/// representation or trust verdict.
#[derive(Clone, Debug, PartialEq, Eq)]
#[non_exhaustive]
pub struct CertificateSummary {
    /// Serialization contract major version, currently 1 (separate from crate SemVer).
    pub schema_version: u32,
    /// One-based X.509 version.
    pub version: u32,
    /// Subject name and attributes.
    pub subject: NameSummary,
    /// Issuer name and attributes.
    pub issuer: NameSummary,
    /// Inclusive validity interval; no system clock is consulted.
    pub validity: Validity,
    /// Raw serial INTEGER content in lowercase hex, retaining sign padding.
    pub serial_number_hex: String,
    /// SHA-256 digest of the retained DER in lowercase hex.
    pub sha256_fingerprint_hex: String,
    /// Signature algorithm description.
    pub signature_algorithm: AlgorithmSummary,
    /// Public-key description.
    pub public_key: PublicKeySummary,
    /// Extensions in encoded order, including unsupported/malformed/duplicate entries.
    pub extensions: Vec<ExtensionSummary>,
}

pub(crate) fn copy_text(o: &Option<String>) -> (r: Option<String>)
    ensures
        r == *o,
{
    match o {
        Some(s) => Some(s.clone()),
        None => None,
    }
}

fn copy_attribute(a: &NameAttribute) -> (r: NameAttribute)
    ensures
        r == *a,
{
    NameAttribute {
        oid: a.oid.clone(),
        label: copy_text(&a.label),
        value: copy_text(&a.value),
        value_tag: a.value_tag,
        value_hex: a.value_hex.clone(),
    }
}

/// The RDN groups hold the same attributes, group by group.
pub open spec fn same_rdns(a: Seq<Vec<NameAttribute>>, b: Seq<Vec<NameAttribute>>) -> bool {
    a.len() == b.len() && forall|i: int| 0 <= i < a.len() ==> (#[trigger] a[i])@ == b[i]@
}

pub(crate) fn copy_rdns(v: &Vec<Vec<NameAttribute>>) -> (r: Vec<Vec<NameAttribute>>)
    ensures
        same_rdns(r@, v@),
{
    let mut out: Vec<Vec<NameAttribute>> = Vec::new();
    let mut i: usize = 0;
    while i < v.len()
        invariant
            i <= v@.len(),
            out@.len() == i,
            forall|k: int| 0 <= k < i ==> (#[trigger] out@[k])@ == v@[k]@,
        decreases v@.len() - i,
    {
        let group = &v[i];
        let mut copy: Vec<NameAttribute> = Vec::new();
        let mut j: usize = 0;
        while j < group.len()
            invariant
                j <= group@.len(),
                copy@.len() == j,
                forall|k: int| 0 <= k < j ==> #[trigger] copy@[k] == group@[k],
            decreases group@.len() - j,
        {
            copy.push(copy_attribute(&group[j]));
            j = j + 1;
        }
        assert(copy@ =~= group@);
        out.push(copy);
        i = i + 1;
    }
    out
}

fn copy_pss(p: &Option<PssParameters>) -> (r: Option<PssParameters>)
    ensures
        r == *p,
{
    match p {
        Some(p) => Some(PssParameters {
            hash_oid: p.hash_oid.clone(),
            mask_gen_oid: p.mask_gen_oid.clone(),
            mask_gen_hash_oid: copy_text(&p.mask_gen_hash_oid),
            salt_length: p.salt_length,
            trailer_field: p.trailer_field,
        }),
        None => None,
    }
}

/// `s` carries the name's display text and RDN groups.
pub open spec fn name_summary_matches(s: NameSummary, name: DistinguishedName) -> bool {
    s.display == name.display && same_rdns(s.rdns@, name.rdns@)
}

/// `s` carries the algorithm's OID, label, parameter status and PSS parameters.
pub open spec fn algorithm_summary_matches(s: AlgorithmSummary, alg: AlgorithmInfo) -> bool {
    s.oid == alg.oid && s.name == alg.name && s.parameter_status == alg.parameter_status && s.pss == alg.pss
}

impl NameSummary {
    /// The display text and RDN groups of a distinguished name, without its DER.
    pub fn from(name: &DistinguishedName) -> (r: Self)
        ensures
            name_summary_matches(r, *name),
    {
        NameSummary { display: name.display.clone(), rdns: copy_rdns(&name.rdns) }
    }
}

impl AlgorithmSummary {
    /// An algorithm's description without its raw parameter bytes.
    pub fn from(alg: &AlgorithmInfo) -> (r: Self)
        ensures
            algorithm_summary_matches(r, *alg),
    {
        AlgorithmSummary {
            oid: alg.oid.clone(),
            name: copy_text(&alg.name),
            parameter_status: alg.parameter_status,
            pss: copy_pss(&alg.pss),
        }
    }
}

/// `s` is the summary of `info`: every retained field copied, the serial and the
/// SHA-256 fingerprint of the DER in lowercase hex, and each extension's details
/// with the same content.
pub open spec fn summary_matches(s: CertificateSummary, info: CertificateInfo) -> bool {
    &&& s.schema_version == 1
    &&& s.version == info.version
    &&& name_summary_matches(s.subject, info.subject)
    &&& name_summary_matches(s.issuer, info.issuer)
    &&& s.validity == info.validity
    &&& s.serial_number_hex@ == hex_lower(info.serial_number@)
    &&& s.sha256_fingerprint_hex@ == hex_lower(rustcrypto::sha256_of(info.der@))
    &&& algorithm_summary_matches(s.signature_algorithm, info.signature_algorithm)
    &&& algorithm_summary_matches(s.public_key.algorithm, info.public_key.algorithm)
    &&& s.public_key.key_data_status == info.public_key.key_data_status
    &&& s.public_key.curve_oid == info.public_key.curve_oid
    &&& s.public_key.curve_name == info.public_key.curve_name
    &&& s.public_key.key_size_bits == info.public_key.key_size_bits
    &&& s.extensions@.len() == info.extensions@.len()
    &&& forall|i: int| 0 <= i < info.extensions@.len() ==> {
        &&& (#[trigger] s.extensions@[i]).oid == info.extensions@[i].oid
        &&& s.extensions@[i].critical == info.extensions@[i].critical
        &&& s.extensions@[i].duplicate == info.extensions@[i].duplicate
        &&& same_details(s.extensions@[i].details, info.extensions@[i].details)
    }
}

fn summarize_extensions(exts: &Vec<ExtensionInfo>) -> (r: Vec<ExtensionSummary>)
    ensures
        r@.len() == exts@.len(),
        forall|i: int| 0 <= i < exts@.len() ==> {
            &&& (#[trigger] r@[i]).oid == exts@[i].oid
            &&& r@[i].critical == exts@[i].critical
            &&& r@[i].duplicate == exts@[i].duplicate
            &&& same_details(r@[i].details, exts@[i].details)
        },
{
    let mut out: Vec<ExtensionSummary> = Vec::new();
    let mut i: usize = 0;
    while i < exts.len()
        invariant
            i <= exts@.len(),
            out@.len() == i,
            forall|k: int| 0 <= k < i ==> {
                &&& (#[trigger] out@[k]).oid == exts@[k].oid
                &&& out@[k].critical == exts@[k].critical
                &&& out@[k].duplicate == exts@[k].duplicate
                &&& same_details(out@[k].details, exts@[k].details)
            },
        decreases exts@.len() - i,
    {
        let e = &exts[i];
        out.push(ExtensionSummary { oid: e.oid.clone(), critical: e.critical, duplicate: e.duplicate, details: copy_details(&e.details) });
        i = i + 1;
    }
    out
}

fn copy_size(o: &Option<usize>) -> (r: Option<usize>)
    ensures
        r == *o,
{
    match o {
        Some(n) => Some(*n),
        None => None,
    }
}

impl CertificateInfo {
    /// Copy application-facing fields into an owned summary and compute SHA-256.
    /// Does not perform I/O or validation. The returned value outlives self and
    /// input. Derived fields are copied, not re-parsed from DER; nothing is cached.
    pub fn summary(&self) -> (r: CertificateSummary)
        ensures
            summary_matches(r, *self),
    {
        let fingerprint = self.sha256_fingerprint();
        CertificateSummary {
            schema_version: 1,
            version: self.version,
            subject: NameSummary::from(&self.subject),
            issuer: NameSummary::from(&self.issuer),
            validity: self.validity,
            serial_number_hex: encode_hex(self.serial_number.as_slice()),
            sha256_fingerprint_hex: encode_hex(&fingerprint),
            signature_algorithm: AlgorithmSummary::from(&self.signature_algorithm),
            public_key: PublicKeySummary {
                algorithm: AlgorithmSummary::from(&self.public_key.algorithm),
                key_data_status: self.public_key.key_data_status,
                curve_oid: copy_text(&self.public_key.curve_oid),
                curve_name: copy_text(&self.public_key.curve_name),
                key_size_bits: copy_size(&self.public_key.key_size_bits),
            },
            extensions: summarize_extensions(&self.extensions),
        }
    }
}

/// Two summaries of one certificate agree field by field: equal version, validity,
/// hex text, algorithms and key description, the same name groups, and the same
/// extensions with the same details in the same order.
pub proof fn law_summaries_of_one_certificate_agree(info: CertificateInfo, a: CertificateSummary, b: CertificateSummary)
    requires
        summary_matches(a, info),
        summary_matches(b, info),
    ensures
        a.schema_version == b.schema_version,
        a.version == b.version,
        a.validity == b.validity,
        a.serial_number_hex@ == b.serial_number_hex@,
        a.sha256_fingerprint_hex@ == b.sha256_fingerprint_hex@,
        a.subject.display == b.subject.display && same_rdns(a.subject.rdns@, b.subject.rdns@),
        a.issuer.display == b.issuer.display && same_rdns(a.issuer.rdns@, b.issuer.rdns@),
        a.signature_algorithm == b.signature_algorithm,
        a.public_key == b.public_key,
        a.extensions@.len() == b.extensions@.len(),
        forall|i: int| 0 <= i < a.extensions@.len() ==> {
            &&& (#[trigger] a.extensions@[i]).oid == b.extensions@[i].oid
            &&& a.extensions@[i].critical == b.extensions@[i].critical
            &&& a.extensions@[i].duplicate == b.extensions@[i].duplicate
            &&& same_details(a.extensions@[i].details, b.extensions@[i].details)
        },
{
    assert forall|i: int| 0 <= i < a.subject.rdns@.len() implies (#[trigger] a.subject.rdns@[i])@ == b.subject.rdns@[i]@ by {
        assert(a.subject.rdns@[i]@ == info.subject.rdns@[i]@);
    }
    assert forall|i: int| 0 <= i < a.issuer.rdns@.len() implies (#[trigger] a.issuer.rdns@[i])@ == b.issuer.rdns@[i]@ by {
        assert(a.issuer.rdns@[i]@ == info.issuer.rdns@[i]@);
    }
    assert forall|i: int| 0 <= i < a.extensions@.len() implies same_details(
        (#[trigger] a.extensions@[i]).details, b.extensions@[i].details) by {
        lemma_same_details_agree(a.extensions@[i].details, b.extensions@[i].details, info.extensions@[i].details);
    }
}

} // verus!
