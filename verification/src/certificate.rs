//! Whole-certificate inspection: exactly one bounded DER or PEM certificate in,
//! owned fields out.
use vstd::prelude::*;
use crate::algorithms::{self, algorithm_matches, ec_oid, key_details_of, opt_int, parameters_encoded, AlgorithmInfo, KeyDataStatus};
use crate::backend::{self, CertificateFrame, RawAlgorithm, RawExtension, RawPublicKey};
use crate::extensions::{decode_with_names, details_matches, ExtensionDetails, ExtensionInfo};
use crate::names::{inspect_name_der, name_matches, DistinguishedName};
use crate::oids::{default_label, OidNames};
use crate::rustcrypto;
use crate::text::{opt_view, owned, str_eq};
use std::collections::HashMap;
use crate::{check_limit, limit_outcome, Error, ParseOptions, Validity};

verus! {

/// Owned public-key algorithm and encoding, without performing key validation.
#[derive(Clone, Debug, PartialEq, Eq)]
#[non_exhaustive]
pub struct PublicKeyInfo {
    /// Algorithm name, OID and parameter inspection.
    pub algorithm: AlgorithmInfo,
    /// Whether supported key encoding was decoded; no mathematical validation is performed.
    pub key_data_status: KeyDataStatus,
    /// Named-curve label from the caller's OID table, when known.
    pub curve_name: Option<String>,
    /// Named-curve parameter OID when encoded as an OID; otherwise absent.
    pub curve_oid: Option<String>,
    /// RSA modulus bit length or nominal size of a recognized EC/EdDSA/Montgomery
    /// curve. None for unknown algorithms/curves or undecodable key data. This does
    /// not validate the key and is never replaced with the encoded bit-string length.
    pub key_size_bits: Option<usize>,
    /// Number of significant bits in the encoded subjectPublicKey BIT STRING.
    /// Distinct from a curve size, modulus size or security-strength estimate.
    pub encoded_key_bits: usize,
    /// Complete SubjectPublicKeyInfo DER, including algorithm parameters.
    pub spki_der: Vec<u8>,
    /// SubjectPublicKey BIT STRING bytes without its unused-bit count prefix.
    pub key_bytes: Vec<u8>,
}

/// Owned certificate inspection result; no input lifetime or device state.
///
/// Fields describe parsed data, not a trusted identity. The original DER remains
/// available for consumers that need richer policy/extension processing.
#[derive(Clone, Debug, PartialEq, Eq)]
#[non_exhaustive]
pub struct CertificateInfo {
    /// Outer signature algorithm with decoded parameters where supported.
    pub signature_algorithm: AlgorithmInfo,
    /// Complete certificate DER, with no trailing object metadata or other certificate.
    pub der: Vec<u8>,
    /// One-based X.509 version (1, 2 or 3 for standard versions).
    pub version: u32,
    /// Subject distinguished name.
    pub subject: DistinguishedName,
    /// Issuer distinguished name; not evidence of a verified issuer relationship.
    pub issuer: DistinguishedName,
    /// Encoded validity period; evaluating it requires a caller timestamp.
    pub validity: Validity,
    /// Original serial INTEGER content bytes, retaining any leading sign-padding byte.
    pub serial_number: Vec<u8>,
    /// Signature BIT STRING bytes without its unused-bit count prefix.
    pub signature_value: Vec<u8>,
    /// Number of unused bits in the final signature byte.
    pub signature_unused_bits: u8,
    /// Encoded public-key information and any recognized key size.
    pub public_key: PublicKeyInfo,
    /// Extensions in encoded order, with common decoded values; no policy is enforced.
    pub extensions: Vec<ExtensionInfo>,
}

/// The named-curve OID of an EC key: its parameters, when they are a universal
/// OBJECT IDENTIFIER.
pub open spec fn curve_oid_of(alg: RawAlgorithm) -> Option<Seq<char>> {
    if alg.oid@ == ec_oid() {
        match alg.parameters {
            Some(p) => if p.value.class == 0 && p.value.tag == 6 {
                Some(backend::oid_text_of(p.value.data@))
            } else {
                None
            },
            None => None,
        }
    } else {
        None
    }
}

/// A SubjectPublicKeyInfo that inspection accepts: it parses completely, its
/// parameters re-encode, and its bit length fits.
pub open spec fn public_key_ok(spki: Option<RawPublicKey>) -> bool {
    match spki {
        Some(k) => k.remaining == 0 && parameters_encoded(k.algorithm) && k.key@.len() * 8 <= usize::MAX
            && k.key@.len() * 8 >= k.unused_bits,
        None => false,
    }
}

/// `k` is the owned form of the parsed key `raw` whose encoding is `spki_der`.
pub open spec fn public_key_matches(k: PublicKeyInfo, spki_der: Seq<u8>, raw: RawPublicKey, names: OidNames) -> bool {
    let curve = curve_oid_of(raw.algorithm);
    &&& algorithm_matches(k.algorithm, raw.algorithm, false, names)
    &&& opt_view(k.curve_oid) == curve
    &&& opt_view(k.curve_name) == match curve { Some(c) => names.label(c), None => None }
    &&& (opt_int(k.key_size_bits), k.key_data_status) == key_details_of(raw.algorithm.oid@, curve, raw.key@, raw.unused_bits)
    &&& k.encoded_key_bits == raw.key@.len() * 8 - raw.unused_bits
    &&& k.spki_der@ == spki_der
    &&& k.key_bytes@ == raw.key@
}

/// A Name encoding that parses completely.
pub open spec fn name_parses(der: Seq<u8>) -> bool {
    match backend::distinguished_name_of(der) {
        Some(n) => n.remaining == 0,
        None => false,
    }
}

/// The parsed certificate's parts are all inspectable: key, both algorithm
/// identifiers' parameters, version number and both names.
pub open spec fn certificate_ok(bytes: Seq<u8>, f: CertificateFrame) -> bool {
    &&& public_key_ok(backend::public_key_info_of(f.spki_der@))
    &&& parameters_encoded(backend::certificate_signature_algorithm_of(bytes).unwrap())
    &&& f.version < u32::MAX
    &&& name_parses(f.subject_der@)
    &&& name_parses(f.issuer_der@)
}

/// Two signature AlgorithmIdentifiers agree: the same OID text, parameters on
/// both or neither, and equal parameter class, constructed flag, tag and content.
pub open spec fn same_algorithm(a: RawAlgorithm, b: RawAlgorithm) -> bool {
    &&& a.oid@ == b.oid@
    &&& match (a.parameters, b.parameters) {
        (None, None) => true,
        (Some(p), Some(q)) => {
            &&& p.value.class == q.value.class
            &&& p.value.constructed == q.value.constructed
            &&& p.value.tag == q.value.tag
            &&& p.value.data@ == q.value.data@
        },
        _ => false,
    }
}

/// The error `parse_der` reports for `bytes`, or None when it succeeds: budget
/// errors first, then parse failure, trailing data, disagreeing signature
/// algorithms, and uninspectable parts.
pub open spec fn parse_der_error(bytes: Seq<u8>, options: ParseOptions) -> Option<Error> {
    match limit_outcome(bytes.len(), options) {
        Err(e) => Some(e),
        Ok(_) => match backend::certificate_frame_of(bytes) {
            None => Some(Error::InvalidCertificate),
            Some(f) => if f.remaining != 0 {
                Some(Error::TrailingData)
            } else if !same_algorithm(backend::certificate_signature_algorithm_of(bytes).unwrap(), f.inner_algorithm) {
                Some(Error::InconsistentSignatureAlgorithm)
            } else if !certificate_ok(bytes, f) {
                Some(Error::InvalidCertificate)
            } else {
                None
            },
        },
    }
}

/// Any bytes appended to `bytes` within the budget are reported as trailing data.
pub open spec fn appended_bytes_are_trailing_data(bytes: Seq<u8>, options: ParseOptions) -> bool {
    forall|s: Seq<u8>| #![trigger parse_der_error(bytes + s, options)]
        s.len() > 0 && bytes.len() + s.len() <= options.max_input_bytes
            ==> parse_der_error(bytes + s, options) == Some(Error::TrailingData)
}

/// No strict prefix of `bytes` parses.
pub open spec fn strict_prefixes_fail(bytes: Seq<u8>, options: ParseOptions) -> bool {
    forall|n: int| #![trigger parse_der_error(bytes.take(n), options)]
        0 <= n < bytes.len() ==> parse_der_error(bytes.take(n), options) is Some
}

/// Another extension in the list has the same OID as extension `i`.
pub open spec fn oid_repeated(raw: Seq<RawExtension>, i: int) -> bool {
    exists|j: int| 0 <= j < raw.len() && j != i && #[trigger] raw[j].oid@ == raw[i].oid@
}

/// Every owned extension is the parsed one at the same position, decoded.
pub open spec fn extensions_match(v: Seq<ExtensionInfo>, raw: Seq<RawExtension>, names: OidNames) -> bool {
    v.len() == raw.len() && forall|i: int| 0 <= i < raw.len() ==> {
        &&& (#[trigger] v[i]).oid@ == raw[i].oid@
        &&& v[i].critical == raw[i].critical
        &&& v[i].duplicate == oid_repeated(raw, i)
        &&& v[i].value_der@ == raw[i].value@
        &&& details_matches(raw[i].oid@, raw[i].value@, names, v[i].details)
    }
}

/// `info` is the owned inspection of the certificate `bytes`.
pub open spec fn certificate_matches(info: CertificateInfo, bytes: Seq<u8>, names: OidNames) -> bool {
    let f = backend::certificate_frame_of(bytes).unwrap();
    &&& algorithm_matches(info.signature_algorithm, backend::certificate_signature_algorithm_of(bytes).unwrap(), true, names)
    &&& info.der@ == bytes
    &&& info.version == f.version + 1
    &&& name_matches(info.subject, backend::distinguished_name_of(f.subject_der@).unwrap(), f.subject_der@, names)
    &&& name_matches(info.issuer, backend::distinguished_name_of(f.issuer_der@).unwrap(), f.issuer_der@, names)
    &&& info.validity == (Validity { not_before_unix: f.not_before, not_after_unix: f.not_after })
    &&& info.serial_number@ == f.serial@
    &&& info.signature_value@ == f.signature@
    &&& info.signature_unused_bits == f.signature_unused_bits
    &&& public_key_matches(info.public_key, f.spki_der@, backend::public_key_info_of(f.spki_der@).unwrap(), names)
    &&& extensions_match(info.extensions@, backend::certificate_extensions_of(bytes).unwrap()@, names)
}

/// The result of `parse_der_with_names`: the error of `parse_der_error`, or the
/// owned inspection.
pub open spec fn parsed_der(r: Result<CertificateInfo, Error>, bytes: Seq<u8>, options: ParseOptions, names: OidNames) -> bool {
    match r {
        Ok(info) => parse_der_error(bytes, options) is None && certificate_matches(info, bytes, names),
        Err(e) => parse_der_error(bytes, options) == Some(e),
    }
}

/// FNV-1a over octets; it buckets extension OIDs so that repeated OIDs are found
/// without comparing every pair.
pub open spec fn fnv1a(b: Seq<u8>) -> u64
    decreases b.len(),
{
    if b.len() == 0 {
        0xcbf29ce484222325u64
    } else {
        (fnv1a(b.drop_last()) ^ (b.last() as u64)).wrapping_mul(0x100000001b3u64)
    }
}

/// The bucket key of OID text: FNV-1a of its UTF-8 octets.
pub open spec fn oid_key(oid: Seq<char>) -> u64 {
    fnv1a(vstd::utf8::encode_utf8(oid))
}

fn bucket_key(s: &str) -> (r: u64)
    ensures
        r == oid_key(s@),
{
    let b = s.as_bytes();
    let mut h: u64 = 0xcbf29ce484222325u64;
    let mut i: usize = 0;
    assert(b@.take(0) =~= Seq::<u8>::empty());
    while i < b.len()
        invariant
            i <= b@.len(),
            h == fnv1a(b@.take(i as int)),
        decreases b@.len() - i,
    {
        assert(b@.take(i + 1).drop_last() =~= b@.take(i as int));
        h = (h ^ b[i] as u64).wrapping_mul(0x100000001b3u64);
        i = i + 1;
    }
    assert(b@.take(b@.len() as int) =~= b@);
    h
}

/// For every extension, whether another extension has the same OID. OIDs are
/// bucketed by `oid_key`; only OIDs in the same bucket are compared.
fn duplicate_flags(exts: &Vec<RawExtension>) -> (r: Vec<bool>)
    ensures
        r@.len() == exts@.len(),
        forall|i: int| 0 <= i < exts@.len() ==> #[trigger] r@[i] == oid_repeated(exts@, i),
{
    broadcast use vstd::std_specs::hash::group_hash_axioms;

    let n = exts.len();
    let mut keys: Vec<u64> = Vec::new();
    let mut i: usize = 0;
    while i < n
        invariant
            n == exts@.len(),
            i <= n,
            keys@.len() == i,
            forall|j: int| 0 <= j < i ==> #[trigger] keys@[j] == oid_key(exts@[j].oid@),
        decreases n - i,
    {
        keys.push(bucket_key(exts[i].oid.as_str()));
        i = i + 1;
    }
    let mut buckets: HashMap<u64, Vec<usize>> = HashMap::new();
    i = 0;
    while i < n
        invariant
            n == exts@.len(),
            i <= n,
            keys@.len() == n,
            forall|k: u64| #[trigger] buckets@.contains_key(k) ==> forall|t: int|
                0 <= t < buckets@[k]@.len() ==> (#[trigger] buckets@[k]@[t]) < i && keys@[buckets@[k]@[t] as int] == k,
            forall|j: int| 0 <= j < i ==> buckets@.contains_key(#[trigger] keys@[j]) && buckets@[keys@[j]]@.contains(j as usize),
        decreases n - i,
    {
        let k = keys[i];
        let ghost before = buckets@;
        let mut bucket = match buckets.remove(&k) {
            Some(b) => b,
            None => Vec::new(),
        };
        let ghost old_bucket = bucket@;
        bucket.push(i);
        buckets.insert(k, bucket);
        proof {
            assert forall|j: int| 0 <= j < i + 1 implies buckets@.contains_key(#[trigger] keys@[j])
                && buckets@[keys@[j]]@.contains(j as usize) by {
                if j < i && keys@[j] == k {
                    let w = choose|w: int| 0 <= w < before[k]@.len() && before[k]@[w] == j as usize;
                    assert(buckets@[k]@[w] == j as usize);
                } else if j == i {
                    assert(buckets@[k]@[old_bucket.len() as int] == i);
                }
            }
        }
        i = i + 1;
    }
    let mut flags: Vec<bool> = Vec::new();
    i = 0;
    while i < n
        invariant
            n == exts@.len(),
            i <= n,
            keys@.len() == n,
            forall|j: int| 0 <= j < n ==> #[trigger] keys@[j] == oid_key(exts@[j].oid@),
            forall|k: u64| #[trigger] buckets@.contains_key(k) ==> forall|t: int|
                0 <= t < buckets@[k]@.len() ==> (#[trigger] buckets@[k]@[t]) < n && keys@[buckets@[k]@[t] as int] == k,
            forall|j: int| 0 <= j < n ==> buckets@.contains_key(#[trigger] keys@[j]) && buckets@[keys@[j]]@.contains(j as usize),
            flags@.len() == i,
            forall|j: int| 0 <= j < i ==> #[trigger] flags@[j] == oid_repeated(exts@, j),
        decreases n - i,
    {
        let bucket = match buckets.get(&keys[i]) {
            Some(b) => b,
            None => {
                assert(buckets@.contains_key(keys@[i as int]));
                return flags;
            },
        };
        let mut found = false;
        let mut t: usize = 0;
        while t < bucket.len()
            invariant
                n == exts@.len(),
                i < n,
                t <= bucket@.len(),
                forall|u: int| 0 <= u < bucket@.len() ==> (#[trigger] bucket@[u]) < n,
                found ==> oid_repeated(exts@, i as int),
                !found ==> forall|u: int| 0 <= u < t ==>
                    !((#[trigger] bucket@[u]) != i && exts@[bucket@[u] as int].oid@ == exts@[i as int].oid@),
            decreases bucket@.len() - t,
        {
            let j = bucket[t];
            if j != i && str_eq(exts[j].oid.as_str(), exts[i].oid.as_str()) {
                found = true;
            }
            t = t + 1;
        }
        proof {
            if !found && oid_repeated(exts@, i as int) {
                let j = choose|j: int| 0 <= j < exts@.len() && j != i && #[trigger] exts@[j].oid@ == exts@[i as int].oid@;
                assert(keys@[j] == keys@[i as int]);
                let w = choose|w: int| 0 <= w < bucket@.len() && bucket@[w] == j as usize;
                assert(bucket@[w] != i && exts@[bucket@[w] as int].oid@ == exts@[i as int].oid@);
            }
        }
        flags.push(found);
        i = i + 1;
    }
    flags
}

fn inspect_extensions(exts: &Vec<RawExtension>, names: &OidNames) -> (r: Vec<ExtensionInfo>)
    ensures
        extensions_match(r@, exts@, *names),
{
    let duplicates = duplicate_flags(exts);
    let mut out: Vec<ExtensionInfo> = Vec::new();
    let mut i: usize = 0;
    while i < exts.len()
        invariant
            i <= exts@.len(),
            duplicates@.len() == exts@.len(),
            forall|j: int| 0 <= j < exts@.len() ==> #[trigger] duplicates@[j] == oid_repeated(exts@, j),
            out@.len() == i,
            forall|k: int| 0 <= k < i ==> {
                &&& (#[trigger] out@[k]).oid@ == exts@[k].oid@
                &&& out@[k].critical == exts@[k].critical
                &&& out@[k].duplicate == oid_repeated(exts@, k)
                &&& out@[k].value_der@ == exts@[k].value@
                &&& details_matches(exts@[k].oid@, exts@[k].value@, *names, out@[k].details)
            },
        decreases exts@.len() - i,
    {
        let e = &exts[i];
        out.push(ExtensionInfo {
            oid: e.oid.clone(),
            critical: e.critical,
            duplicate: duplicates[i],
            value_der: e.value.clone(),
            details: decode_with_names(e.oid.as_str(), e.value.as_slice(), names),
        });
        i = i + 1;
    }
    out
}

fn curve_oid(alg: &RawAlgorithm) -> (r: Option<String>)
    ensures
        opt_view(r) == curve_oid_of(*alg),
{
    if !str_eq(alg.oid.as_str(), "1.2.840.10045.2.1") {
        return None;
    }
    match &alg.parameters {
        Some(p) => if p.value.class == 0 && p.value.tag == 6 {
            Some(backend::oid_text(p.value.data.as_slice()))
        } else {
            None
        },
        None => None,
    }
}

fn option_str(o: &Option<String>) -> (r: Option<&str>)
    ensures
        match (r, *o) {
            (Some(a), Some(b)) => a@ == b@,
            (None, None) => true,
            _ => false,
        },
{
    match o {
        Some(s) => Some(s.as_str()),
        None => None,
    }
}

/// Inspect exactly one DER certificate with the caller's OID labels, copying its
/// fields into an owned result.
///
/// # Errors
/// Returns InvalidOptions for a zero budget, LimitExceeded before parsing an
/// oversized input, InvalidCertificate for decoding failures, TrailingData if any
/// bytes follow the certificate, or InconsistentSignatureAlgorithm on disagreement.
/// Syntactic parsing does not verify signatures, key points, extensions or trust.
pub fn parse_der_with_names(bytes: &[u8], options: ParseOptions, names: &OidNames) -> (r: Result<CertificateInfo, Error>)
    ensures
        parsed_der(r, bytes@, options, *names),
        r is Ok ==> appended_bytes_are_trailing_data(bytes@, options),
        r is Ok ==> strict_prefixes_fail(bytes@, options),
{
    match check_limit(bytes, options) {
        Ok(_) => {},
        Err(e) => {
            return Err(e);
        },
    }
    let f = match backend::certificate_frame(bytes) {
        Some(f) => f,
        None => {
            return Err(Error::InvalidCertificate);
        },
    };
    if f.remaining != 0 {
        return Err(Error::TrailingData);
    }
    let signature_raw = match backend::certificate_signature_algorithm(bytes) {
        Some(a) => a,
        None => {
            return Err(Error::InvalidCertificate);
        },
    };
    if !algorithms_agree(&signature_raw, &f.inner_algorithm) {
        return Err(Error::InconsistentSignatureAlgorithm);
    }
    let spki = match backend::public_key_info(f.spki_der.as_slice()) {
        Some(k) => k,
        None => {
            return Err(Error::InvalidCertificate);
        },
    };
    if spki.remaining != 0 {
        return Err(Error::InvalidCertificate);
    }
    let encoded_key_bits = match spki.key.len().checked_mul(8) {
        Some(bits) => match bits.checked_sub(spki.unused_bits as usize) {
            Some(b) => b,
            None => {
                return Err(Error::InvalidCertificate);
            },
        },
        None => {
            return Err(Error::InvalidCertificate);
        },
    };
    let curve = curve_oid(&spki.algorithm);
    let (key_size_bits, key_data_status) = algorithms::key_details(
        spki.algorithm.oid.as_str(),
        option_str(&curve),
        spki.key.as_slice(),
        spki.unused_bits,
    );
    let signature_algorithm = match algorithms::inspect(&signature_raw, true, names) {
        Ok(a) => a,
        Err(e) => {
            return Err(e);
        },
    };
    let version = match f.version.checked_add(1) {
        Some(v) => v,
        None => {
            return Err(Error::InvalidCertificate);
        },
    };
    let subject = match inspect_name_der(f.subject_der.as_slice(), names) {
        Some(n) => n,
        None => {
            return Err(Error::InvalidCertificate);
        },
    };
    let issuer = match inspect_name_der(f.issuer_der.as_slice(), names) {
        Some(n) => n,
        None => {
            return Err(Error::InvalidCertificate);
        },
    };
    let algorithm = match algorithms::inspect(&spki.algorithm, false, names) {
        Ok(a) => a,
        Err(e) => {
            return Err(e);
        },
    };
    let exts = match backend::certificate_extensions(bytes) {
        Some(x) => x,
        None => {
            return Err(Error::InvalidCertificate);
        },
    };
    let curve_name = match &curve {
        Some(c) => names.get(c.as_str()),
        None => None,
    };
    let public_key = PublicKeyInfo {
        algorithm,
        key_data_status,
        curve_name,
        curve_oid: curve,
        key_size_bits,
        encoded_key_bits,
        spki_der: f.spki_der.clone(),
        key_bytes: spki.key.clone(),
    };
    proof {
        assert forall|s: Seq<u8>| s.len() > 0 && bytes@.len() + s.len() <= options.max_input_bytes
            implies #[trigger] parse_der_error(bytes@ + s, options) == Some(Error::TrailingData) by {
            assert(backend::certificate_frame_of(bytes@ + s) is Some);
            assert((bytes@ + s).len() == bytes@.len() + s.len());
        }
        assert forall|n: int| 0 <= n < bytes@.len() implies #[trigger] parse_der_error(bytes@.take(n), options) is Some by {
            assert(backend::certificate_frame_of(bytes@.take(n)) is None);
        }
    }
    Ok(CertificateInfo {
        signature_algorithm,
        der: vstd::slice::slice_to_vec(bytes),
        version,
        subject,
        issuer,
        validity: Validity { not_before_unix: f.not_before, not_after_unix: f.not_after },
        serial_number: f.serial.clone(),
        signature_value: f.signature.clone(),
        signature_unused_bits: f.signature_unused_bits,
        public_key,
        extensions: inspect_extensions(&exts, names),
    })
}

/// Byte-for-byte equality of two octet strings.
fn same_bytes(a: &[u8], b: &[u8]) -> (r: bool)
    ensures
        r == (a@ == b@),
{
    if a.len() != b.len() {
        return false;
    }
    let mut i: usize = 0;
    while i < a.len()
        invariant
            a@.len() == b@.len(),
            i <= a@.len(),
            forall|k: int| 0 <= k < i ==> a@[k] == b@[k],
        decreases a@.len() - i,
    {
        if a[i] != b[i] {
            return false;
        }
        i = i + 1;
    }
    assert(a@ =~= b@);
    true
}

/// Whether the outer and TBS signature AlgorithmIdentifiers agree.
fn algorithms_agree(a: &RawAlgorithm, b: &RawAlgorithm) -> (r: bool)
    ensures
        r == same_algorithm(*a, *b),
{
    if !str_eq(a.oid.as_str(), b.oid.as_str()) {
        return false;
    }
    match (&a.parameters, &b.parameters) {
        (None, None) => true,
        (Some(p), Some(q)) => p.value.class == q.value.class && p.value.constructed == q.value.constructed
            && p.value.tag == q.value.tag && same_bytes(p.value.data.as_slice(), q.value.data.as_slice()),
        _ => false,
    }
}

/// Inspect exactly one DER certificate with the default OID labels.
///
/// # Errors
/// As `parse_der_with_names`.
pub fn parse_der(bytes: &[u8], options: ParseOptions) -> (r: Result<CertificateInfo, Error>)
    ensures
        exists|names: OidNames| #![trigger parsed_der(r, bytes@, options, names)]
            parsed_der(r, bytes@, options, names)
            && forall|o: Seq<char>| #[trigger] names.label(o) == names.base_label(o)
            && forall|o: Seq<char>| #[trigger] names.label(o) == default_label(o),
        r is Ok ==> appended_bytes_are_trailing_data(bytes@, options),
        r is Ok ==> strict_prefixes_fail(bytes@, options),
{
    let names = OidNames::default();
    parse_der_with_names(bytes, options, &names)
}

/// RFC 5280 whitespace that surrounds a PEM block: space, tab, LF, FF and CR.
pub open spec fn ascii_whitespace(b: u8) -> bool {
    b == 32 || b == 9 || b == 10 || b == 12 || b == 13
}

/// Number of leading ASCII whitespace octets.
pub open spec fn leading_whitespace(b: Seq<u8>) -> int
    decreases b.len(),
{
    if b.len() == 0 {
        0
    } else if ascii_whitespace(b[0]) {
        1 + leading_whitespace(b.drop_first())
    } else {
        0
    }
}

/// Number of trailing ASCII whitespace octets.
pub open spec fn trailing_whitespace(b: Seq<u8>) -> int
    decreases b.len(),
{
    if b.len() == 0 {
        0
    } else if ascii_whitespace(b.last()) {
        1 + trailing_whitespace(b.drop_last())
    } else {
        0
    }
}

/// The octets with leading and trailing ASCII whitespace removed.
pub open spec fn trim_ascii_of(b: Seq<u8>) -> Seq<u8> {
    if leading_whitespace(b) >= b.len() {
        Seq::empty()
    } else {
        b.subrange(leading_whitespace(b), b.len() - trailing_whitespace(b))
    }
}

proof fn lemma_leading(b: Seq<u8>, i: int)
    requires
        0 <= i <= b.len(),
        forall|k: int| 0 <= k < i ==> ascii_whitespace(#[trigger] b[k]),
        i == b.len() || !ascii_whitespace(b[i]),
    ensures
        leading_whitespace(b) == i,
    decreases i,
{
    if i > 0 {
        assert forall|k: int| 0 <= k < i - 1 implies ascii_whitespace(#[trigger] b.drop_first()[k]) by {
            assert(b.drop_first()[k] == b[k + 1]);
        }
        lemma_leading(b.drop_first(), i - 1);
    }
}

proof fn lemma_trailing(b: Seq<u8>, j: int)
    requires
        0 <= j <= b.len(),
        forall|k: int| j <= k < b.len() ==> ascii_whitespace(#[trigger] b[k]),
        j == 0 || !ascii_whitespace(b[j - 1]),
    ensures
        trailing_whitespace(b) == b.len() - j,
    decreases b.len() - j,
{
    if j < b.len() {
        assert forall|k: int| j <= k < b.drop_last().len() implies ascii_whitespace(#[trigger] b.drop_last()[k]) by {
            assert(b.drop_last()[k] == b[k]);
        }
        lemma_trailing(b.drop_last(), j);
    }
}

fn is_ascii_whitespace(b: u8) -> (r: bool)
    ensures
        r == ascii_whitespace(b),
{
    b == 32 || b == 9 || b == 10 || b == 12 || b == 13
}

/// The octets without surrounding ASCII whitespace.
pub fn trim_ascii(bytes: &[u8]) -> (r: &[u8])
    ensures
        r@ == trim_ascii_of(bytes@),
{
    let mut start: usize = 0;
    while start < bytes.len() && is_ascii_whitespace(bytes[start])
        invariant
            start <= bytes@.len(),
            forall|k: int| 0 <= k < start ==> ascii_whitespace(#[trigger] bytes@[k]),
        decreases bytes@.len() - start,
    {
        start = start + 1;
    }
    proof {
        lemma_leading(bytes@, start as int);
    }
    if start == bytes.len() {
        let (empty, _) = bytes.split_at(0);
        assert(empty@ =~= Seq::<u8>::empty());
        return empty;
    }
    let mut end: usize = bytes.len();
    while end > start + 1 && is_ascii_whitespace(bytes[end - 1])
        invariant
            start < end <= bytes@.len(),
            !ascii_whitespace(bytes@[start as int]),
            forall|k: int| end <= k < bytes@.len() ==> ascii_whitespace(#[trigger] bytes@[k]),
        decreases end,
    {
        end = end - 1;
    }
    proof {
        lemma_trailing(bytes@, end as int);
    }
    let (head, _) = bytes.split_at(end);
    let (_, body) = head.split_at(start);
    assert(body@ =~= bytes@.subrange(start as int, end as int));
    body
}

/// The armor that opens a PEM block: `-----BEGIN ` in ASCII.
pub open spec fn pem_opening() -> Seq<u8> {
    seq![45u8, 45u8, 45u8, 45u8, 45u8, 66u8, 69u8, 71u8, 73u8, 78u8, 32u8]
}

/// Input is taken for PEM when, once its surrounding ASCII whitespace is set
/// aside, it opens with `-----BEGIN `.
pub fn looks_like_pem(input: &[u8]) -> (r: bool)
    ensures
        r == (trim_ascii_of(input@).len() >= 11 && trim_ascii_of(input@).subrange(0, 11) == pem_opening()),
{
    let t = trim_ascii(input);
    if t.len() < 11 {
        return false;
    }
    let opening: [u8; 11] = [45, 45, 45, 45, 45, 66, 69, 71, 73, 78, 32];
    let mut i: usize = 0;
    while i < 11
        invariant
            t@ == trim_ascii_of(input@),
            t@.len() >= 11,
            opening@ == pem_opening(),
            i <= 11,
            forall|k: int| 0 <= k < i ==> t@[k] == pem_opening()[k],
        decreases 11 - i,
    {
        if t[i] != opening[i] {
            assert(t@.subrange(0, 11)[i as int] != pem_opening()[i as int]);
            return false;
        }
        i = i + 1;
    }
    assert(t@.subrange(0, 11) =~= pem_opening());
    true
}

/// The error `parse_pem` reports for `bytes`, or None when it succeeds: budget
/// errors, then PEM failures, then the decoded DER's errors.
pub open spec fn parse_pem_error(bytes: Seq<u8>, options: ParseOptions) -> Option<Error> {
    match limit_outcome(bytes.len(), options) {
        Err(e) => Some(e),
        Ok(_) => match rustcrypto::pem_of(trim_ascii_of(bytes)) {
            None => Some(Error::InvalidPem),
            Some((label, der)) => if label != "CERTIFICATE"@ {
                Some(Error::UnexpectedPemLabel)
            } else {
                parse_der_error(der, options)
            },
        },
    }
}

/// The DER a valid PEM input decodes to.
pub open spec fn pem_der(bytes: Seq<u8>) -> Seq<u8> {
    rustcrypto::pem_of(trim_ascii_of(bytes)).unwrap().1
}

/// The result of `parse_pem_with_names`: the error of `parse_pem_error`, or the
/// owned inspection of the decoded DER.
pub open spec fn parsed_pem(r: Result<CertificateInfo, Error>, bytes: Seq<u8>, options: ParseOptions, names: OidNames) -> bool {
    match r {
        Ok(info) => parse_pem_error(bytes, options) is None && certificate_matches(info, pem_der(bytes), names),
        Err(e) => parse_pem_error(bytes, options) == Some(e),
    }
}

/// Inspect one CERTIFICATE PEM block with the caller's OID labels, permitting only
/// surrounding ASCII whitespace. Input is bounded before Base64 decoding; bundles,
/// other labels and text around the block are rejected. The decoded DER is checked
/// as `parse_der_with_names` checks it. No file or system I/O occurs.
///
/// # Errors
/// InvalidOptions/LimitExceeded for budgets, InvalidPem for invalid armor or extra
/// data, UnexpectedPemLabel for another block type, or an error of the decoded DER.
pub fn parse_pem_with_names(bytes: &[u8], options: ParseOptions, names: &OidNames) -> (r: Result<CertificateInfo, Error>)
    ensures
        parsed_pem(r, bytes@, options, *names),
{
    match check_limit(bytes, options) {
        Ok(_) => {},
        Err(e) => {
            return Err(e);
        },
    }
    let trimmed = trim_ascii(bytes);
    let (label, der) = match rustcrypto::pem_decode(trimmed) {
        Some(v) => v,
        None => {
            return Err(Error::InvalidPem);
        },
    };
    if !str_eq(label.as_str(), "CERTIFICATE") {
        return Err(Error::UnexpectedPemLabel);
    }
    parse_der_with_names(der.as_slice(), options, names)
}

/// Inspect one CERTIFICATE PEM block with the default OID labels.
///
/// # Errors
/// As `parse_pem_with_names`.
pub fn parse_pem(bytes: &[u8], options: ParseOptions) -> (r: Result<CertificateInfo, Error>)
    ensures
        exists|names: OidNames| #![trigger parsed_pem(r, bytes@, options, names)]
            parsed_pem(r, bytes@, options, names)
            && forall|o: Seq<char>| #[trigger] names.label(o) == names.base_label(o)
            && forall|o: Seq<char>| #[trigger] names.label(o) == default_label(o),
{
    let names = OidNames::default();
    parse_pem_with_names(bytes, options, &names)
}

impl CertificateInfo {
    /// SHA-256 digest of the retained certificate DER; no trust decision is implied.
    /// This recomputes the digest from the current bytes, without caching.
    pub fn sha256_fingerprint(&self) -> (r: [u8; 32])
        ensures
            r@ == rustcrypto::sha256_of(self.der@),
    {
        rustcrypto::sha256(self.der.as_slice())
    }
}

/// Every occurrence of a repeated extension OID is marked, with no first- or
/// last-wins choice.
pub proof fn law_every_duplicate_occurrence_is_marked(v: Seq<ExtensionInfo>, raw: Seq<RawExtension>, names: OidNames, i: int, j: int)
    requires
        extensions_match(v, raw, names),
        0 <= i < raw.len(),
        0 <= j < raw.len(),
        i != j,
        raw[i].oid@ == raw[j].oid@,
    ensures
        v[i].duplicate,
        v[j].duplicate,
{
    assert(raw[j].oid@ == raw[i].oid@);
}

/// An extension OID that occurs once is not marked as a duplicate.
pub proof fn law_single_occurrence_is_not_marked(v: Seq<ExtensionInfo>, raw: Seq<RawExtension>, names: OidNames, i: int)
    requires
        extensions_match(v, raw, names),
        0 <= i < raw.len(),
        forall|j: int| 0 <= j < raw.len() && j != i ==> #[trigger] raw[j].oid@ != raw[i].oid@,
    ensures
        !v[i].duplicate,
{
}

/// A PEM input whose block decodes with the CERTIFICATE label is inspected exactly
/// as its decoded DER is, under the same budget and labels.
pub proof fn law_pem_inspects_its_der(r: Result<CertificateInfo, Error>, bytes: Seq<u8>, options: ParseOptions, names: OidNames)
    requires
        limit_outcome(bytes.len(), options) is Ok,
        rustcrypto::pem_of(trim_ascii_of(bytes)) matches Some((label, _)) && label == "CERTIFICATE"@,
    ensures
        parsed_pem(r, bytes, options, names) <==> parsed_der(r, pem_der(bytes), options, names),
{
}

/// Inspecting the retained DER of an inspection again succeeds and describes the
/// same certificate: the new result matches the same octets under the same labels,
/// with the same version, validity, serial and signature.
pub proof fn law_retained_der_inspects_again(
    info: CertificateInfo,
    bytes: Seq<u8>,
    options: ParseOptions,
    names: OidNames,
    again: Result<CertificateInfo, Error>,
)
    requires
        parsed_der(Ok(info), bytes, options, names),
        parsed_der(again, info.der@, options, names),
    ensures
        again is Ok,
        certificate_matches(again.unwrap(), bytes, names),
        again.unwrap().der@ == info.der@,
        again.unwrap().version == info.version,
        again.unwrap().validity == info.validity,
        again.unwrap().serial_number@ == info.serial_number@,
        again.unwrap().signature_value@ == info.signature_value@,
        again.unwrap().signature_unused_bits == info.signature_unused_bits,
        again.unwrap().subject.display@ == info.subject.display@ && again.unwrap().subject.der@ == info.subject.der@,
        again.unwrap().issuer.display@ == info.issuer.display@ && again.unwrap().issuer.der@ == info.issuer.der@,
        again.unwrap().extensions@.len() == info.extensions@.len(),
        forall|i: int| 0 <= i < info.extensions@.len() ==> {
            &&& (#[trigger] again.unwrap().extensions@[i]).oid@ == info.extensions@[i].oid@
            &&& again.unwrap().extensions@[i].critical == info.extensions@[i].critical
            &&& again.unwrap().extensions@[i].duplicate == info.extensions@[i].duplicate
            &&& again.unwrap().extensions@[i].value_der@ == info.extensions@[i].value_der@
            &&& (again.unwrap().extensions@[i].details == ExtensionDetails::Malformed
                <==> info.extensions@[i].details == ExtensionDetails::Malformed)
        },
{
    let other = again.unwrap();
    let raw = backend::certificate_extensions_of(bytes).unwrap()@;
    assert forall|i: int| 0 <= i < info.extensions@.len() implies
        ((#[trigger] other.extensions@[i]).details == ExtensionDetails::Malformed
            <==> info.extensions@[i].details == ExtensionDetails::Malformed) by {
        crate::extensions::law_labels_never_change_which_values_decode(
            raw[i].oid@, raw[i].value@, names, names, other.extensions@[i].details, info.extensions@[i].details);
    }
}

} // verus!
