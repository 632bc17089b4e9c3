//! Owned copies of decoded extension details that keep every field: equal text
//! and flags, and lists with the same elements in the same order.
use vstd::prelude::*;
use crate::extensions::{ExtensionDetails, GeneralName, KeyPurpose};
use crate::extensions::additional::{DirectoryAttribute, PolicyMapping};
use crate::extensions::constraints::{ConstraintName, GeneralSubtree};
use crate::extensions::device::{CertificateTemplate, FidoTransports};
use crate::extensions::locations::{AccessDescription, AuthorityKeyIdentifier, DistributionPoint, DistributionPointName};
use crate::extensions::policies::{CertificatePolicy, PolicyQualifier, PolicyQualifierDetails};
use crate::extensions::transparency::{SctEntry, SignedCertificateTimestamp};
use crate::names::NameAttribute;
use crate::summary::{copy_rdns, copy_text, same_rdns};
use crate::decoding::IntegerValue;

verus! {

/// The same GeneralName: a directory name with the same RDN groups, any other
/// choice equal.
pub open spec fn same_general_name(a: GeneralName, b: GeneralName) -> bool {
    match (a, b) {
        (GeneralName::Directory(x), GeneralName::Directory(y)) => same_rdns(x@, y@),
        _ => a == b,
    }
}

/// The same GeneralNames in the same order.
pub open spec fn same_general_names(a: Seq<GeneralName>, b: Seq<GeneralName>) -> bool {
    a.len() == b.len() && forall|i: int| 0 <= i < a.len() ==> same_general_name(#[trigger] a[i], b[i])
}

/// Both absent, or both present with the same GeneralNames.
pub open spec fn same_optional_names(a: Option<Vec<GeneralName>>, b: Option<Vec<GeneralName>>) -> bool {
    match (a, b) {
        (Some(x), Some(y)) => same_general_names(x@, y@),
        (None, None) => true,
        _ => false,
    }
}

/// The same access method and location.
pub open spec fn same_access(a: AccessDescription, b: AccessDescription) -> bool {
    a.method_oid == b.method_oid && a.method_name == b.method_name && same_general_name(a.location, b.location)
}

/// The same access descriptions in the same order.
pub open spec fn same_accesses(a: Seq<AccessDescription>, b: Seq<AccessDescription>) -> bool {
    a.len() == b.len() && forall|i: int| 0 <= i < a.len() ==> same_access(#[trigger] a[i], b[i])
}

/// The same distribution-point name, or both absent.
pub open spec fn same_point_name(a: Option<DistributionPointName>, b: Option<DistributionPointName>) -> bool {
    match (a, b) {
        (Some(DistributionPointName::FullName(x)), Some(DistributionPointName::FullName(y))) => same_general_names(x@, y@),
        (Some(DistributionPointName::RelativeName(x)), Some(DistributionPointName::RelativeName(y))) => x@ == y@,
        (None, None) => true,
        _ => false,
    }
}

/// The same distribution point.
pub open spec fn same_point(a: DistributionPoint, b: DistributionPoint) -> bool {
    same_point_name(a.name, b.name) && a.reason_flags == b.reason_flags && same_optional_names(a.crl_issuer, b.crl_issuer)
}

/// The same distribution points in the same order.
pub open spec fn same_points(a: Seq<DistributionPoint>, b: Seq<DistributionPoint>) -> bool {
    a.len() == b.len() && forall|i: int| 0 <= i < a.len() ==> same_point(#[trigger] a[i], b[i])
}

/// The same policy with the same qualifiers in the same order.
pub open spec fn same_policy(a: CertificatePolicy, b: CertificatePolicy) -> bool {
    a.oid == b.oid && a.name == b.name && a.qualifiers@ == b.qualifiers@
}

/// The same policies in the same order.
pub open spec fn same_policies(a: Seq<CertificatePolicy>, b: Seq<CertificatePolicy>) -> bool {
    a.len() == b.len() && forall|i: int| 0 <= i < a.len() ==> same_policy(#[trigger] a[i], b[i])
}

/// The same subtree: equal distances and the same base.
pub open spec fn same_subtree(a: GeneralSubtree, b: GeneralSubtree) -> bool {
    &&& a.minimum == b.minimum
    &&& a.maximum == b.maximum
    &&& match (a.base, b.base) {
        (ConstraintName::Name(x), ConstraintName::Name(y)) => same_general_name(x, y),
        _ => a.base == b.base,
    }
}

/// Both absent, or both present with the same subtrees in the same order.
pub open spec fn same_subtrees(a: Option<Vec<GeneralSubtree>>, b: Option<Vec<GeneralSubtree>>) -> bool {
    match (a, b) {
        (Some(x), Some(y)) => x@.len() == y@.len()
            && forall|i: int| 0 <= i < x@.len() ==> same_subtree(#[trigger] x@[i], y@[i]),
        (None, None) => true,
        _ => false,
    }
}

/// The same attribute with the same values in the same order.
pub open spec fn same_attribute(a: DirectoryAttribute, b: DirectoryAttribute) -> bool {
    a.oid == b.oid && a.name == b.name && a.values_der_hex@ == b.values_der_hex@
}

/// The same transports and bits.
pub open spec fn same_transports(a: FidoTransports, b: FidoTransports) -> bool {
    &&& a.bluetooth_classic == b.bluetooth_classic
    &&& a.bluetooth_low_energy == b.bluetooth_low_energy
    &&& a.usb == b.usb
    &&& a.nfc == b.nfc
    &&& a.internal == b.internal
    &&& a.unknown_bits@ == b.unknown_bits@
    &&& a.bits_hex == b.bits_hex
    &&& a.unused_bits == b.unused_bits
}

/// The same decoded details: the same variant with the same content, lists
/// compared element by element in order.
pub open spec fn same_details(a: ExtensionDetails, b: ExtensionDetails) -> bool {
    match (a, b) {
        (ExtensionDetails::SubjectAlternativeName(x), ExtensionDetails::SubjectAlternativeName(y)) => same_general_names(x@, y@),
        (ExtensionDetails::IssuerAlternativeName(x), ExtensionDetails::IssuerAlternativeName(y)) => same_general_names(x@, y@),
        (ExtensionDetails::ExtendedKeyUsage(x), ExtensionDetails::ExtendedKeyUsage(y)) => x@ == y@,
        (ExtensionDetails::AuthorityKeyIdentifier(x), ExtensionDetails::AuthorityKeyIdentifier(y)) =>
            x.key_identifier_hex == y.key_identifier_hex && same_optional_names(x.authority_cert_issuer, y.authority_cert_issuer)
                && x.authority_cert_serial_hex == y.authority_cert_serial_hex,
        (ExtensionDetails::AuthorityInfoAccess(x), ExtensionDetails::AuthorityInfoAccess(y)) => same_accesses(x@, y@),
        (ExtensionDetails::SubjectInfoAccess(x), ExtensionDetails::SubjectInfoAccess(y)) => same_accesses(x@, y@),
        (ExtensionDetails::CrlDistributionPoints(x), ExtensionDetails::CrlDistributionPoints(y)) => same_points(x@, y@),
        (ExtensionDetails::FreshestCrl(x), ExtensionDetails::FreshestCrl(y)) => same_points(x@, y@),
        (ExtensionDetails::CertificatePolicies(x), ExtensionDetails::CertificatePolicies(y)) => same_policies(x@, y@),
        (ExtensionDetails::NameConstraints(x), ExtensionDetails::NameConstraints(y)) =>
            same_subtrees(x.permitted_subtrees, y.permitted_subtrees) && same_subtrees(x.excluded_subtrees, y.excluded_subtrees),
        (ExtensionDetails::PolicyMappings(x), ExtensionDetails::PolicyMappings(y)) => x@ == y@,
        (ExtensionDetails::SubjectDirectoryAttributes(x), ExtensionDetails::SubjectDirectoryAttributes(y)) =>
            x@.len() == y@.len() && forall|i: int| 0 <= i < x@.len() ==> same_attribute(#[trigger] x@[i], y@[i]),
        (ExtensionDetails::TlsFeatures(x), ExtensionDetails::TlsFeatures(y)) => x@ == y@,
        (ExtensionDetails::SignedCertificateTimestamps(x), ExtensionDetails::SignedCertificateTimestamps(y)) => x@ == y@,
        (ExtensionDetails::FidoTransports(x), ExtensionDetails::FidoTransports(y)) => same_transports(x, y),
        _ => a == b,
    }
}

fn copy_general_name(g: &GeneralName) -> (r: GeneralName)
    ensures
        same_general_name(r, *g),
{
    match g {
        GeneralName::Dns(s) => GeneralName::Dns(s.clone()),
        GeneralName::Email(s) => GeneralName::Email(s.clone()),
        GeneralName::Uri(s) => GeneralName::Uri(s.clone()),
        GeneralName::Ip(s) => GeneralName::Ip(s.clone()),
        GeneralName::Directory(v) => GeneralName::Directory(copy_rdns(v)),
        GeneralName::RegisteredId(s) => GeneralName::RegisteredId(s.clone()),
        GeneralName::OtherName { oid, name, value_der_hex } => GeneralName::OtherName {
            oid: oid.clone(),
            name: copy_text(name),
            value_der_hex: value_der_hex.clone(),
        },
        GeneralName::X400Address { constructed, content_hex } => GeneralName::X400Address {
            constructed: *constructed,
            content_hex: content_hex.clone(),
        },
        GeneralName::EdiPartyName { constructed, content_hex } => GeneralName::EdiPartyName {
            constructed: *constructed,
            content_hex: content_hex.clone(),
        },
        GeneralName::Unsupported(t) => GeneralName::Unsupported(*t),
        GeneralName::Malformed(t) => GeneralName::Malformed(*t),
    }
}

fn copy_general_names(v: &Vec<GeneralName>) -> (r: Vec<GeneralName>)
    ensures
        same_general_names(r@, v@),
{
    let mut out: Vec<GeneralName> = Vec::new();
    let mut i: usize = 0;
    while i < v.len()
        invariant
            i <= v@.len(),
            out@.len() == i,
            forall|k: int| 0 <= k < i ==> same_general_name(#[trigger] out@[k], v@[k]),
        decreases v@.len() - i,
    {
        out.push(copy_general_name(&v[i]));
        i = i + 1;
    }
    out
}

fn copy_optional_names(o: &Option<Vec<GeneralName>>) -> (r: Option<Vec<GeneralName>>)
    ensures
        same_optional_names(r, *o),
{
    match o {
        Some(v) => Some(copy_general_names(v)),
        None => None,
    }
}

fn copy_purposes(v: &Vec<KeyPurpose>) -> (r: Vec<KeyPurpose>)
    ensures
        r@ == v@,
{
    let mut out: Vec<KeyPurpose> = Vec::new();
    let mut i: usize = 0;
    while i < v.len()
        invariant
            i <= v@.len(),
            out@.len() == i,
            forall|k: int| 0 <= k < i ==> #[trigger] out@[k] == v@[k],
        decreases v@.len() - i,
    {
        out.push(KeyPurpose { oid: v[i].oid.clone(), name: copy_text(&v[i].name) });
        i = i + 1;
    }
    assert(out@ =~= v@);
    out
}

fn copy_accesses(v: &Vec<AccessDescription>) -> (r: Vec<AccessDescription>)
    ensures
        same_accesses(r@, v@),
{
    let mut out: Vec<AccessDescription> = Vec::new();
    let mut i: usize = 0;
    while i < v.len()
        invariant
            i <= v@.len(),
            out@.len() == i,
            forall|k: int| 0 <= k < i ==> same_access(#[trigger] out@[k], v@[k]),
        decreases v@.len() - i,
    {
        let a = &v[i];
        out.push(AccessDescription {
            method_oid: a.method_oid.clone(),
            method_name: copy_text(&a.method_name),
            location: copy_general_name(&a.location),
        });
        i = i + 1;
    }
    out
}

fn copy_attributes(v: &Vec<NameAttribute>) -> (r: Vec<NameAttribute>)
    ensures
        r@ == v@,
{
    let mut out: Vec<NameAttribute> = Vec::new();
    let mut i: usize = 0;
    while i < v.len()
        invariant
            i <= v@.len(),
            out@.len() == i,
            forall|k: int| 0 <= k < i ==> #[trigger] out@[k] == v@[k],
        decreases v@.len() - i,
    {
        let a = &v[i];
        out.push(NameAttribute {
            oid: a.oid.clone(),
            label: copy_text(&a.label),
            value: copy_text(&a.value),
            value_tag: a.value_tag,
            value_hex: a.value_hex.clone(),
        });
        i = i + 1;
    }
    assert(out@ =~= v@);
    out
}

fn copy_point(p: &DistributionPoint) -> (r: DistributionPoint)
    ensures
        same_point(r, *p),
{
    let name = match &p.name {
        Some(DistributionPointName::FullName(v)) => Some(DistributionPointName::FullName(copy_general_names(v))),
        Some(DistributionPointName::RelativeName(v)) => Some(DistributionPointName::RelativeName(copy_attributes(v))),
        None => None,
    };
    let reason_flags = match p.reason_flags {
        Some(f) => Some(f),
        None => None,
    };
    DistributionPoint { name, reason_flags, crl_issuer: copy_optional_names(&p.crl_issuer) }
}

fn copy_points(v: &Vec<DistributionPoint>) -> (r: Vec<DistributionPoint>)
    ensures
        same_points(r@, v@),
{
    let mut out: Vec<DistributionPoint> = Vec::new();
    let mut i: usize = 0;
    while i < v.len()
        invariant
            i <= v@.len(),
            out@.len() == i,
            forall|k: int| 0 <= k < i ==> same_point(#[trigger] out@[k], v@[k]),
        decreases v@.len() - i,
    {
        out.push(copy_point(&v[i]));
        i = i + 1;
    }
    out
}

fn copy_qualifiers(v: &Vec<PolicyQualifier>) -> (r: Vec<PolicyQualifier>)
    ensures
        r@ == v@,
{
    let mut out: Vec<PolicyQualifier> = Vec::new();
    let mut i: usize = 0;
    while i < v.len()
        invariant
            i <= v@.len(),
            out@.len() == i,
            forall|k: int| 0 <= k < i ==> #[trigger] out@[k] == v@[k],
        decreases v@.len() - i,
    {
        let q = &v[i];
        let details = match &q.details {
            PolicyQualifierDetails::CpsUri(s) => PolicyQualifierDetails::CpsUri(s.clone()),
            PolicyQualifierDetails::Unparsed => PolicyQualifierDetails::Unparsed,
            PolicyQualifierDetails::Malformed => PolicyQualifierDetails::Malformed,
        };
        out.push(PolicyQualifier { oid: q.oid.clone(), value_der_hex: q.value_der_hex.clone(), details });
        i = i + 1;
    }
    assert(out@ =~= v@);
    out
}

fn copy_policies(v: &Vec<CertificatePolicy>) -> (r: Vec<CertificatePolicy>)
    ensures
        same_policies(r@, v@),
{
    let mut out: Vec<CertificatePolicy> = Vec::new();
    let mut i: usize = 0;
    while i < v.len()
        invariant
            i <= v@.len(),
            out@.len() == i,
            forall|k: int| 0 <= k < i ==> same_policy(#[trigger] out@[k], v@[k]),
        decreases v@.len() - i,
    {
        let p = &v[i];
        out.push(CertificatePolicy { oid: p.oid.clone(), name: copy_text(&p.name), qualifiers: copy_qualifiers(&p.qualifiers) });
        i = i + 1;
    }
    out
}

fn copy_subtrees(o: &Option<Vec<GeneralSubtree>>) -> (r: Option<Vec<GeneralSubtree>>)
    ensures
        same_subtrees(r, *o),
{
    let v = match o {
        Some(v) => v,
        None => {
            return None;
        },
    };
    let mut out: Vec<GeneralSubtree> = Vec::new();
    let mut i: usize = 0;
    while i < v.len()
        invariant
            i <= v@.len(),
            out@.len() == i,
            forall|k: int| 0 <= k < i ==> same_subtree(#[trigger] out@[k], v@[k]),
        decreases v@.len() - i,
    {
        let t = &v[i];
        let base = match &t.base {
            ConstraintName::Name(g) => ConstraintName::Name(copy_general_name(g)),
            ConstraintName::Ip { address, mask } => ConstraintName::Ip { address: address.clone(), mask: mask.clone() },
            ConstraintName::MalformedIp(s) => ConstraintName::MalformedIp(s.clone()),
        };
        let maximum = match t.maximum {
            Some(m) => Some(m),
            None => None,
        };
        out.push(GeneralSubtree { base, minimum: t.minimum, maximum });
        i = i + 1;
    }
    Some(out)
}

fn copy_mappings(v: &Vec<PolicyMapping>) -> (r: Vec<PolicyMapping>)
    ensures
        r@ == v@,
{
    let mut out: Vec<PolicyMapping> = Vec::new();
    let mut i: usize = 0;
    while i < v.len()
        invariant
            i <= v@.len(),
            out@.len() == i,
            forall|k: int| 0 <= k < i ==> #[trigger] out@[k] == v@[k],
        decreases v@.len() - i,
    {
        let m = &v[i];
        out.push(PolicyMapping {
            issuer_domain_policy: m.issuer_domain_policy.clone(),
            issuer_domain_policy_name: copy_text(&m.issuer_domain_policy_name),
            subject_domain_policy: m.subject_domain_policy.clone(),
            subject_domain_policy_name: copy_text(&m.subject_domain_policy_name),
        });
        i = i + 1;
    }
    assert(out@ =~= v@);
    out
}

fn copy_strings(v: &Vec<String>) -> (r: Vec<String>)
    ensures
        r@ == v@,
{
    let mut out: Vec<String> = Vec::new();
    let mut i: usize = 0;
    while i < v.len()
        invariant
            i <= v@.len(),
            out@.len() == i,
            forall|k: int| 0 <= k < i ==> #[trigger] out@[k] == v@[k],
        decreases v@.len() - i,
    {
        out.push(v[i].clone());
        i = i + 1;
    }
    assert(out@ =~= v@);
    out
}

fn copy_directory_attributes(v: &Vec<DirectoryAttribute>) -> (r: Vec<DirectoryAttribute>)
    ensures
        r@.len() == v@.len(),
        forall|i: int| 0 <= i < v@.len() ==> same_attribute(#[trigger] r@[i], v@[i]),
{
    let mut out: Vec<DirectoryAttribute> = Vec::new();
    let mut i: usize = 0;
    while i < v.len()
        invariant
            i <= v@.len(),
            out@.len() == i,
            forall|k: int| 0 <= k < i ==> same_attribute(#[trigger] out@[k], v@[k]),
        decreases v@.len() - i,
    {
        let a = &v[i];
        out.push(DirectoryAttribute { oid: a.oid.clone(), name: copy_text(&a.name), values_der_hex: copy_strings(&a.values_der_hex) });
        i = i + 1;
    }
    out
}

fn copy_numbers<T: Copy>(v: &Vec<T>) -> (r: Vec<T>)
    ensures
        r@ == v@,
{
    let mut out: Vec<T> = Vec::new();
    let mut i: usize = 0;
    while i < v.len()
        invariant
            i <= v@.len(),
            out@.len() == i,
            forall|k: int| 0 <= k < i ==> #[trigger] out@[k] == v@[k],
        decreases v@.len() - i,
    {
        out.push(v[i]);
        i = i + 1;
    }
    assert(out@ =~= v@);
    out
}

fn copy_timestamps(v: &Vec<SctEntry>) -> (r: Vec<SctEntry>)
    ensures
        r@ == v@,
{
    let mut out: Vec<SctEntry> = Vec::new();
    let mut i: usize = 0;
    while i < v.len()
        invariant
            i <= v@.len(),
            out@.len() == i,
            forall|k: int| 0 <= k < i ==> #[trigger] out@[k] == v@[k],
        decreases v@.len() - i,
    {
        let e = match &v[i] {
            SctEntry::V1(t) => SctEntry::V1(SignedCertificateTimestamp {
                log_id_hex: t.log_id_hex.clone(),
                timestamp_unix_ms: t.timestamp_unix_ms,
                extensions_hex: t.extensions_hex.clone(),
                hash_algorithm: t.hash_algorithm,
                signature_algorithm: t.signature_algorithm,
                signature_hex: t.signature_hex.clone(),
            }),
            SctEntry::Unknown { version, encoded_hex } => SctEntry::Unknown { version: *version, encoded_hex: encoded_hex.clone() },
        };
        out.push(e);
        i = i + 1;
    }
    assert(out@ =~= v@);
    out
}

fn copy_integer(o: &Option<IntegerValue>) -> (r: Option<IntegerValue>)
    ensures
        r == *o,
{
    match o {
        Some(n) => Some(IntegerValue { content_hex: n.content_hex.clone(), value: match n.value { Some(x) => Some(x), None => None } }),
        None => None,
    }
}

/// A copy of decoded extension details with the same content.
pub(crate) fn copy_details(d: &ExtensionDetails) -> (r: ExtensionDetails)
    ensures
        same_details(r, *d),
{
    match d {
        ExtensionDetails::SubjectAlternativeName(v) => ExtensionDetails::SubjectAlternativeName(copy_general_names(v)),
        ExtensionDetails::IssuerAlternativeName(v) => ExtensionDetails::IssuerAlternativeName(copy_general_names(v)),
        ExtensionDetails::KeyUsage(k) => ExtensionDetails::KeyUsage(*k),
        ExtensionDetails::ExtendedKeyUsage(v) => ExtensionDetails::ExtendedKeyUsage(copy_purposes(v)),
        ExtensionDetails::BasicConstraints { ca, path_len_constraint } => ExtensionDetails::BasicConstraints {
            ca: *ca,
            path_len_constraint: match path_len_constraint { Some(n) => Some(*n), None => None },
        },
        ExtensionDetails::SubjectKeyIdentifier(s) => ExtensionDetails::SubjectKeyIdentifier(s.clone()),
        ExtensionDetails::AuthorityKeyIdentifier(a) => ExtensionDetails::AuthorityKeyIdentifier(AuthorityKeyIdentifier {
            key_identifier_hex: copy_text(&a.key_identifier_hex),
            authority_cert_issuer: copy_optional_names(&a.authority_cert_issuer),
            authority_cert_serial_hex: copy_text(&a.authority_cert_serial_hex),
        }),
        ExtensionDetails::AuthorityInfoAccess(v) => ExtensionDetails::AuthorityInfoAccess(copy_accesses(v)),
        ExtensionDetails::SubjectInfoAccess(v) => ExtensionDetails::SubjectInfoAccess(copy_accesses(v)),
        ExtensionDetails::CrlDistributionPoints(v) => ExtensionDetails::CrlDistributionPoints(copy_points(v)),
        ExtensionDetails::FreshestCrl(v) => ExtensionDetails::FreshestCrl(copy_points(v)),
        ExtensionDetails::CertificatePolicies(v) => ExtensionDetails::CertificatePolicies(copy_policies(v)),
        ExtensionDetails::NameConstraints(c) => ExtensionDetails::NameConstraints(crate::extensions::constraints::NameConstraints {
            permitted_subtrees: copy_subtrees(&c.permitted_subtrees),
            excluded_subtrees: copy_subtrees(&c.excluded_subtrees),
        }),
        ExtensionDetails::PolicyConstraints(p) => ExtensionDetails::PolicyConstraints(*p),
        ExtensionDetails::PolicyMappings(v) => ExtensionDetails::PolicyMappings(copy_mappings(v)),
        ExtensionDetails::InhibitAnyPolicy(n) => ExtensionDetails::InhibitAnyPolicy(*n),
        ExtensionDetails::PrivateKeyUsagePeriod(p) => ExtensionDetails::PrivateKeyUsagePeriod(*p),
        ExtensionDetails::SubjectDirectoryAttributes(v) => ExtensionDetails::SubjectDirectoryAttributes(copy_directory_attributes(v)),
        ExtensionDetails::TlsFeatures(v) => ExtensionDetails::TlsFeatures(copy_numbers(v)),
        ExtensionDetails::OcspNoCheck => ExtensionDetails::OcspNoCheck,
        ExtensionDetails::CtPoison => ExtensionDetails::CtPoison,
        ExtensionDetails::NetscapeComment(s) => ExtensionDetails::NetscapeComment(s.clone()),
        ExtensionDetails::NetscapeCertificateType(t) => ExtensionDetails::NetscapeCertificateType(*t),
        ExtensionDetails::SignedCertificateTimestamps(v) => ExtensionDetails::SignedCertificateTimestamps(copy_timestamps(v)),
        ExtensionDetails::FidoAaguid(s) => ExtensionDetails::FidoAaguid(s.clone()),
        ExtensionDetails::FidoTransports(t) => ExtensionDetails::FidoTransports(FidoTransports {
            bluetooth_classic: t.bluetooth_classic,
            bluetooth_low_energy: t.bluetooth_low_energy,
            usb: t.usb,
            nfc: t.nfc,
            internal: t.internal,
            unknown_bits: copy_numbers(&t.unknown_bits),
            bits_hex: t.bits_hex.clone(),
            unused_bits: t.unused_bits,
        }),
        ExtensionDetails::MicrosoftTemplateName(s) => ExtensionDetails::MicrosoftTemplateName(s.clone()),
        ExtensionDetails::MicrosoftCertificateTemplate(t) => ExtensionDetails::MicrosoftCertificateTemplate(CertificateTemplate {
            template_oid: t.template_oid.clone(),
            major_version: copy_integer(&t.major_version),
            minor_version: copy_integer(&t.minor_version),
        }),
        ExtensionDetails::Unsupported => ExtensionDetails::Unsupported,
        ExtensionDetails::Malformed => ExtensionDetails::Malformed,
    }
}

proof fn lemma_same_general_name_agree(a: GeneralName, b: GeneralName, x: GeneralName)
    requires
        same_general_name(a, x),
        same_general_name(b, x),
    ensures
        same_general_name(a, b),
{
    if let GeneralName::Directory(y) = x {
        if let (GeneralName::Directory(p), GeneralName::Directory(q)) = (a, b) {
            assert forall|i: int| 0 <= i < p@.len() implies (#[trigger] p@[i])@ == q@[i]@ by {
                assert(p@[i]@ == y@[i]@);
                assert(q@[i]@ == y@[i]@);
            }
        }
    }
}

proof fn lemma_same_general_names_agree(a: Seq<GeneralName>, b: Seq<GeneralName>, x: Seq<GeneralName>)
    requires
        same_general_names(a, x),
        same_general_names(b, x),
    ensures
        same_general_names(a, b),
{
    assert forall|i: int| 0 <= i < a.len() implies same_general_name(#[trigger] a[i], b[i]) by {
        lemma_same_general_name_agree(a[i], b[i], x[i]);
    }
}

proof fn lemma_same_optional_names_agree(a: Option<Vec<GeneralName>>, b: Option<Vec<GeneralName>>, x: Option<Vec<GeneralName>>)
    requires
        same_optional_names(a, x),
        same_optional_names(b, x),
    ensures
        same_optional_names(a, b),
{
    if let (Some(p), Some(q), Some(y)) = (a, b, x) {
        lemma_same_general_names_agree(p@, q@, y@);
    }
}

proof fn lemma_same_points_agree(a: Seq<DistributionPoint>, b: Seq<DistributionPoint>, x: Seq<DistributionPoint>)
    requires
        same_points(a, x),
        same_points(b, x),
    ensures
        same_points(a, b),
{
    assert forall|i: int| 0 <= i < a.len() implies same_point(#[trigger] a[i], b[i]) by {
        assert(same_point(a[i], x[i]));
        assert(same_point(b[i], x[i]));
        lemma_same_optional_names_agree(a[i].crl_issuer, b[i].crl_issuer, x[i].crl_issuer);
        if let (Some(DistributionPointName::FullName(p)), Some(DistributionPointName::FullName(q)), Some(DistributionPointName::FullName(y)))
            = (a[i].name, b[i].name, x[i].name) {
            lemma_same_general_names_agree(p@, q@, y@);
        }
    }
}

/// Two values with the same content as a third have the same content as each
/// other.
pub proof fn lemma_same_details_agree(a: ExtensionDetails, b: ExtensionDetails, x: ExtensionDetails)
    requires
        same_details(a, x),
        same_details(b, x),
    ensures
        same_details(a, b),
{
    match (a, b, x) {
        (ExtensionDetails::SubjectAlternativeName(p), ExtensionDetails::SubjectAlternativeName(q), ExtensionDetails::SubjectAlternativeName(y)) =>
            lemma_same_general_names_agree(p@, q@, y@),
        (ExtensionDetails::IssuerAlternativeName(p), ExtensionDetails::IssuerAlternativeName(q), ExtensionDetails::IssuerAlternativeName(y)) =>
            lemma_same_general_names_agree(p@, q@, y@),
        (ExtensionDetails::AuthorityKeyIdentifier(p), ExtensionDetails::AuthorityKeyIdentifier(q), ExtensionDetails::AuthorityKeyIdentifier(y)) =>
            lemma_same_optional_names_agree(p.authority_cert_issuer, q.authority_cert_issuer, y.authority_cert_issuer),
        (ExtensionDetails::AuthorityInfoAccess(p), ExtensionDetails::AuthorityInfoAccess(q), ExtensionDetails::AuthorityInfoAccess(y)) => {
            assert forall|i: int| 0 <= i < p@.len() implies same_access(#[trigger] p@[i], q@[i]) by {
                assert(same_access(p@[i], y@[i]) && same_access(q@[i], y@[i]));
                lemma_same_general_name_agree(p@[i].location, q@[i].location, y@[i].location);
            }
        },
        (ExtensionDetails::SubjectInfoAccess(p), ExtensionDetails::SubjectInfoAccess(q), ExtensionDetails::SubjectInfoAccess(y)) => {
            assert forall|i: int| 0 <= i < p@.len() implies same_access(#[trigger] p@[i], q@[i]) by {
                assert(same_access(p@[i], y@[i]) && same_access(q@[i], y@[i]));
                lemma_same_general_name_agree(p@[i].location, q@[i].location, y@[i].location);
            }
        },
        (ExtensionDetails::CrlDistributionPoints(p), ExtensionDetails::CrlDistributionPoints(q), ExtensionDetails::CrlDistributionPoints(y)) =>
            lemma_same_points_agree(p@, q@, y@),
        (ExtensionDetails::FreshestCrl(p), ExtensionDetails::FreshestCrl(q), ExtensionDetails::FreshestCrl(y)) =>
            lemma_same_points_agree(p@, q@, y@),
        (ExtensionDetails::NameConstraints(p), ExtensionDetails::NameConstraints(q), ExtensionDetails::NameConstraints(y)) => {
            if let (Some(pp), Some(qq), Some(yy)) = (p.permitted_subtrees, q.permitted_subtrees, y.permitted_subtrees) {
                assert forall|i: int| 0 <= i < pp@.len() implies same_subtree(#[trigger] pp@[i], qq@[i]) by {
                    assert(same_subtree(pp@[i], yy@[i]) && same_subtree(qq@[i], yy@[i]));
                    if let (ConstraintName::Name(g), ConstraintName::Name(h), ConstraintName::Name(k)) = (pp@[i].base, qq@[i].base, yy@[i].base) {
                        lemma_same_general_name_agree(g, h, k);
                    }
                }
            }
            if let (Some(pp), Some(qq), Some(yy)) = (p.excluded_subtrees, q.excluded_subtrees, y.excluded_subtrees) {
                assert forall|i: int| 0 <= i < pp@.len() implies same_subtree(#[trigger] pp@[i], qq@[i]) by {
                    assert(same_subtree(pp@[i], yy@[i]) && same_subtree(qq@[i], yy@[i]));
                    if let (ConstraintName::Name(g), ConstraintName::Name(h), ConstraintName::Name(k)) = (pp@[i].base, qq@[i].base, yy@[i].base) {
                        lemma_same_general_name_agree(g, h, k);
                    }
                }
            }
        },
        (ExtensionDetails::SubjectDirectoryAttributes(p), ExtensionDetails::SubjectDirectoryAttributes(q), ExtensionDetails::SubjectDirectoryAttributes(y)) => {
            assert forall|i: int| 0 <= i < p@.len() implies same_attribute(#[trigger] p@[i], q@[i]) by {
                assert(same_attribute(p@[i], y@[i]) && same_attribute(q@[i], y@[i]));
            }
        },
        (ExtensionDetails::CertificatePolicies(p), ExtensionDetails::CertificatePolicies(q), ExtensionDetails::CertificatePolicies(y)) => {
            assert forall|i: int| 0 <= i < p@.len() implies same_policy(#[trigger] p@[i], q@[i]) by {
                assert(same_policy(p@[i], y@[i]) && same_policy(q@[i], y@[i]));
            }
        },
        _ => {},
    }
}

} // verus!
