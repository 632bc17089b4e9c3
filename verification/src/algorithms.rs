//! Algorithm identifiers, RSA-PSS parameters and nominal key sizes.
use vstd::prelude::*;
use crate::backend::RawAlgorithm;
use crate::oids::OidNames;
use crate::rustcrypto;
use crate::text::{opt_bytes, opt_view, owned, str_eq};
use crate::Error;

verus! {

/// Parameter inspection state, separate from algorithm recognition and trust.
#[derive(Clone, Copy, Debug, PartialEq, Eq, Structural)]
#[non_exhaustive]
pub enum ParameterStatus {
    /// No parameters were encoded; does not imply they may legally be absent.
    Absent,
    /// Parameters were decoded within the documented supported representation.
    Decoded,
    /// Encoded parameters are retained but not interpreted by this library.
    Unparsed,
    /// Parameters violate a checked encoding rule or exceed the decoder's representation.
    /// For PSS, pkcs1 currently supports salt lengths up to 255 and trailer field 1.
    DecodeError,
}

/// Decoded RSA-PSS parameters, including RFC 8017 defaults.
/// No assertion is made that the parameters are secure or usable with a given key.
#[derive(Clone, Debug, PartialEq, Eq)]
#[non_exhaustive]
pub struct PssParameters {
    /// Dotted-decimal message hash OID (SHA-1 when defaulted).
    pub hash_oid: String,
    /// Dotted-decimal mask-generation algorithm OID (MGF1 when defaulted).
    pub mask_gen_oid: String,
    /// MGF1 hash OID, if the mask-generation algorithm is MGF1 and includes it.
    pub mask_gen_hash_oid: Option<String>,
    /// Salt length in octets, including the default of 20.
    pub salt_length: u32,
    /// Trailer field, currently 1; other values produce DecodeError.
    pub trailer_field: u32,
}

/// Algorithm information with an optional common label and preserved parameters.
#[derive(Clone, Debug, PartialEq, Eq)]
#[non_exhaustive]
pub struct AlgorithmInfo {
    /// Dotted-decimal algorithm OID; always retained even if unrecognized.
    pub oid: String,
    /// Common algorithm label. Recognition does not imply validity or support for use.
    pub name: Option<String>,
    /// DER encoding of parameters, when present. Original certificate DER is retained too.
    pub parameters_der: Option<Vec<u8>>,
    /// Whether the parameters were absent, decoded, unparsed or failed decoding.
    pub parameter_status: ParameterStatus,
    /// Decoded RSA-PSS parameters, when available.
    pub pss: Option<PssParameters>,
}

/// Inspection state for public-key bytes, separate from algorithm parameters.
#[derive(Clone, Copy, Debug, PartialEq, Eq, Structural)]
#[non_exhaustive]
pub enum KeyDataStatus {
    /// The algorithm or curve has no supported key representation here.
    Unparsed,
    /// Supported encoding/length was decoded; mathematical key validity is not checked.
    Decoded,
    /// A supported key encoding has invalid structure, length or unused bits.
    DecodeError,
}

/// rsaEncryption.
pub open spec fn rsa_oid() -> Seq<char> { "1.2.840.113549.1.1.1"@ }
/// RSASSA-PSS.
pub open spec fn rsa_pss_oid() -> Seq<char> { "1.2.840.113549.1.1.10"@ }
/// id-ecPublicKey.
pub open spec fn ec_oid() -> Seq<char> { "1.2.840.10045.2.1"@ }
/// Ed25519.
pub open spec fn ed25519_oid() -> Seq<char> { "1.3.101.112"@ }
/// Ed448.
pub open spec fn ed448_oid() -> Seq<char> { "1.3.101.113"@ }
/// X25519.
pub open spec fn x25519_oid() -> Seq<char> { "1.3.101.110"@ }
/// X448.
pub open spec fn x448_oid() -> Seq<char> { "1.3.101.111"@ }
/// MGF1.
pub open spec fn mgf1_oid() -> Seq<char> { "1.2.840.113549.1.1.8"@ }

/// Every parameter was re-encoded, so the algorithm can be inspected.
pub open spec fn parameters_encoded(alg: RawAlgorithm) -> bool {
    alg.parameters matches Some(p) ==> p.der is Some
}

/// The parameter status `inspect` reports.
pub open spec fn parameter_status_of(alg: RawAlgorithm, signature: bool) -> ParameterStatus {
    let oid = alg.oid@;
    if oid == ec_oid() {
        match alg.parameters {
            Some(p) => if p.value.class == 0 && p.value.tag == 6 { ParameterStatus::Decoded } else { ParameterStatus::Unparsed },
            None => ParameterStatus::DecodeError,
        }
    } else if oid == rsa_pss_oid() {
        match alg.parameters {
            Some(p) => if rustcrypto::rsa_pss_parameters_of(p.der.unwrap()@) is Some {
                ParameterStatus::Decoded
            } else {
                ParameterStatus::DecodeError
            },
            None => if signature { ParameterStatus::DecodeError } else { ParameterStatus::Absent },
        }
    } else if (oid == ed25519_oid() || oid == ed448_oid() || oid == x25519_oid() || oid == x448_oid())
        && alg.parameters is Some {
        ParameterStatus::DecodeError
    } else if alg.parameters is Some {
        ParameterStatus::Unparsed
    } else {
        ParameterStatus::Absent
    }
}

/// `info` holds the decoded PSS fields of `raw`, with the MGF1 hash only when the
/// mask-generation algorithm is MGF1.
pub open spec fn pss_matches(info: PssParameters, raw: rustcrypto::RawPssParameters) -> bool {
    &&& info.hash_oid@ == raw.hash_oid@
    &&& info.mask_gen_oid@ == raw.mask_gen_oid@
    &&& opt_view(info.mask_gen_hash_oid) == (if raw.mask_gen_oid@ == mgf1_oid() {
        opt_view(raw.mask_gen_parameters_oid)
    } else {
        None
    })
    &&& info.salt_length == raw.salt_length as u32
    &&& info.trailer_field == raw.trailer_field
}

/// `info` is what `inspect` gives for `alg`.
pub open spec fn algorithm_matches(info: AlgorithmInfo, alg: RawAlgorithm, signature: bool, names: OidNames) -> bool {
    &&& info.oid@ == alg.oid@
    &&& opt_view(info.name) == names.label(alg.oid@)
    &&& opt_bytes(info.parameters_der) == (match alg.parameters { Some(p) => opt_bytes(p.der), None => None })
    &&& info.parameter_status == parameter_status_of(alg, signature)
    &&& match (info.pss, pss_decoded(alg)) {
        (Some(p), Some(raw)) => pss_matches(p, raw),
        (None, None) => true,
        _ => false,
    }
}

/// The PSS parameters `pkcs1` decodes for an RSA-PSS identifier with parameters.
pub open spec fn pss_decoded(alg: RawAlgorithm) -> Option<rustcrypto::RawPssParameters> {
    if alg.oid@ == rsa_pss_oid() && alg.parameters is Some {
        rustcrypto::rsa_pss_parameters_of(alg.parameters.unwrap().der.unwrap()@)
    } else {
        None
    }
}

/// Inspect an AlgorithmIdentifier. `signature` selects the rule that PSS
/// signature parameters may not be absent (PSS key parameters may be).
///
/// # Errors
/// InvalidCertificate when a parameter value could not be re-encoded.
pub fn inspect(alg: &RawAlgorithm, signature: bool, names: &OidNames) -> (r: Result<AlgorithmInfo, Error>)
    ensures
        r is Ok <==> parameters_encoded(*alg),
        r matches Ok(info) ==> algorithm_matches(info, *alg, signature, *names),
        r matches Err(e) ==> e == Error::InvalidCertificate,
{
    let oid = alg.oid.as_str();
    let name = names.get(oid);
    let parameters_der = match &alg.parameters {
        Some(p) => match &p.der {
            Some(d) => Some(d.clone()),
            None => {
                return Err(Error::InvalidCertificate);
            },
        },
        None => None,
    };
    let mut parameter_status = if parameters_der.is_some() {
        ParameterStatus::Unparsed
    } else {
        ParameterStatus::Absent
    };
    let mut pss: Option<PssParameters> = None;
    if str_eq(oid, "1.2.840.113549.1.1.10") {
        match &parameters_der {
            Some(bytes) => match rustcrypto::rsa_pss_parameters(bytes.as_slice()) {
                Some(p) => {
                    let mask_gen_hash_oid = if str_eq(p.mask_gen_oid.as_str(), "1.2.840.113549.1.1.8") {
                        p.mask_gen_parameters_oid.clone()
                    } else {
                        None
                    };
                    parameter_status = ParameterStatus::Decoded;
                    pss = Some(PssParameters {
                        hash_oid: p.hash_oid.clone(),
                        mask_gen_oid: p.mask_gen_oid.clone(),
                        mask_gen_hash_oid,
                        salt_length: p.salt_length as u32,
                        trailer_field: p.trailer_field,
                    });
                },
                None => {
                    parameter_status = ParameterStatus::DecodeError;
                },
            },
            None => {
                if signature {
                    parameter_status = ParameterStatus::DecodeError;
                }
            },
        }
    } else if (str_eq(oid, "1.3.101.112") || str_eq(oid, "1.3.101.113") || str_eq(oid, "1.3.101.110")
        || str_eq(oid, "1.3.101.111")) && parameters_der.is_some() {
        parameter_status = ParameterStatus::DecodeError;
    }
    if str_eq(oid, "1.2.840.10045.2.1") {
        // A universal OBJECT IDENTIFIER is a named curve; explicit parameters stay unparsed.
        parameter_status = match &alg.parameters {
            Some(p) => if p.value.class == 0 && p.value.tag == 6 {
                ParameterStatus::Decoded
            } else {
                ParameterStatus::Unparsed
            },
            None => ParameterStatus::DecodeError,
        };
    }
    proof {
        reveal_strlit("1.2.840.113549.1.1.10");
        reveal_strlit("1.2.840.10045.2.1");
        reveal_strlit("1.3.101.112");
        reveal_strlit("1.3.101.113");
        reveal_strlit("1.3.101.110");
        reveal_strlit("1.3.101.111");
        assert(rsa_pss_oid().len() != ec_oid().len());
        assert(x25519_oid().len() != ec_oid().len());
        assert(x448_oid().len() != ec_oid().len());
        assert(x25519_oid().len() != rsa_pss_oid().len());
        assert(x448_oid().len() != rsa_pss_oid().len());
        assert(ed25519_oid().len() != ec_oid().len());
        assert(ed448_oid().len() != ec_oid().len());
        assert(ed25519_oid().len() != rsa_pss_oid().len());
        assert(ed448_oid().len() != rsa_pss_oid().len());
    }
    Ok(AlgorithmInfo { oid: owned(oid), name, parameters_der, parameter_status, pss })
}

/// Index of the first nonzero octet, or the length when all are zero.
pub open spec fn first_nonzero(m: Seq<u8>) -> int
    decreases m.len(),
{
    if m.len() == 0 {
        0
    } else if m[0] != 0 {
        0
    } else {
        1 + first_nonzero(m.drop_first())
    }
}

/// Number of leading zero bits in an octet.
pub open spec fn leading_zero_bits(b: u8) -> int {
    if b >= 128 { 0 }
    else if b >= 64 { 1 }
    else if b >= 32 { 2 }
    else if b >= 16 { 3 }
    else if b >= 8 { 4 }
    else if b >= 4 { 5 }
    else if b >= 2 { 6 }
    else if b >= 1 { 7 }
    else { 8 }
}

/// Bit length of a big-endian unsigned magnitude; None when it is zero.
pub open spec fn magnitude_bits(m: Seq<u8>) -> Option<int> {
    let f = first_nonzero(m);
    if f >= m.len() {
        None
    } else {
        Some((m.len() - f) * 8 - leading_zero_bits(m[f]))
    }
}

proof fn lemma_first_nonzero(m: Seq<u8>, i: int)
    requires
        0 <= i <= m.len(),
        forall|k: int| 0 <= k < i ==> m[k] == 0,
        i == m.len() || m[i] != 0,
    ensures
        first_nonzero(m) == i,
    decreases i,
{
    if i > 0 {
        lemma_first_nonzero(m.drop_first(), i - 1);
    }
}

fn leading_zeros(b: u8) -> (r: usize)
    ensures
        r == leading_zero_bits(b),
{
    if b >= 128 { 0 }
    else if b >= 64 { 1 }
    else if b >= 32 { 2 }
    else if b >= 16 { 3 }
    else if b >= 8 { 4 }
    else if b >= 4 { 5 }
    else if b >= 2 { 6 }
    else if b >= 1 { 7 }
    else { 8 }
}

/// The RSA modulus size `rsa_bits` reports for an RSAPublicKey encoding.
pub open spec fn rsa_modulus_bits(der: Seq<u8>) -> Option<int> {
    match rustcrypto::rsa_public_key_of(der) {
        Some((modulus, _)) => magnitude_bits(modulus@),
        None => None,
    }
}

/// Bit length of the RSA modulus in an RSAPublicKey encoding, excluding DER
/// sign padding; None when the encoding does not decode or the modulus is zero
/// (or its size would not fit in usize).
pub fn rsa_bits(bytes: &[u8]) -> (r: Option<usize>)
    ensures
        match r {
            Some(n) => rsa_modulus_bits(bytes@) == Some(n as int),
            None => rsa_modulus_bits(bytes@) is None || rsa_modulus_bits(bytes@).unwrap() > usize::MAX,
        },
{
    let (modulus, _) = match rustcrypto::rsa_public_key(bytes) {
        Some(k) => k,
        None => {
            return None;
        },
    };
    let mut first: usize = 0;
    while first < modulus.len() && modulus[first] == 0
        invariant
            first <= modulus@.len(),
            forall|k: int| 0 <= k < first ==> modulus@[k] == 0,
        decreases modulus@.len() - first,
    {
        first = first + 1;
    }
    proof {
        lemma_first_nonzero(modulus@, first as int);
    }
    if first == modulus.len() {
        return None;
    }
    let len = modulus.len() - first;
    let top = 8 - leading_zeros(modulus[first]);
    match (len - 1).checked_mul(8) {
        Some(full) => full.checked_add(top),
        None => None,
    }
}

/// A `usize` lifted to a mathematical integer through an `Option`.
pub open spec fn opt_int(o: Option<usize>) -> Option<int> {
    match o {
        Some(n) => Some(n as int),
        None => None,
    }
}

/// Nominal size of the named curves whose point encodings are checked here:
/// P-192, P-224, P-256, P-384, P-521, secp256k1, SM2 and brainpoolP256r1,
/// P384r1 and P512r1.
pub open spec fn curve_bits(curve: Option<Seq<char>>) -> Option<int> {
    match curve {
        Some(c) => if c == "1.2.840.10045.3.1.1"@ {
            Some(192)
        } else if c == "1.3.132.0.33"@ {
            Some(224)
        } else if c == "1.2.840.10045.3.1.7"@ || c == "1.3.132.0.10"@ || c == "1.2.156.10197.1.301"@
            || c == "1.3.36.3.3.2.8.1.1.7"@ {
            Some(256)
        } else if c == "1.3.132.0.34"@ || c == "1.3.36.3.3.2.8.1.1.11"@ {
            Some(384)
        } else if c == "1.3.36.3.3.2.8.1.1.13"@ {
            Some(512)
        } else if c == "1.3.132.0.35"@ {
            Some(521)
        } else {
            None
        },
        None => None,
    }
}

/// The label of a curve whose size `key_details` knows.
pub open spec fn curve_label(c: Seq<char>) -> Option<Seq<char>> {
    if c == "1.2.840.10045.3.1.1"@ { Some("P-192"@) }
    else if c == "1.3.132.0.33"@ { Some("P-224"@) }
    else if c == "1.2.840.10045.3.1.7"@ { Some("P-256"@) }
    else if c == "1.3.132.0.10"@ { Some("secp256k1"@) }
    else if c == "1.2.156.10197.1.301"@ { Some("SM2"@) }
    else if c == "1.3.36.3.3.2.8.1.1.7"@ { Some("brainpoolP256r1"@) }
    else if c == "1.3.132.0.34"@ { Some("P-384"@) }
    else if c == "1.3.36.3.3.2.8.1.1.11"@ { Some("brainpoolP384r1"@) }
    else if c == "1.3.36.3.3.2.8.1.1.13"@ { Some("brainpoolP512r1"@) }
    else if c == "1.3.132.0.35"@ { Some("P-521"@) }
    else { None }
}

/// The common label of a named curve whose key size is inspected here; None for
/// other curves, whose names the caller's OID table may still supply.
pub fn curve_name(oid: &str) -> (r: Option<&'static str>)
    ensures
        match r { Some(s) => curve_label(oid@) == Some(s@), None => curve_label(oid@) is None },
{
    if str_eq(oid, "1.2.840.10045.3.1.1") { Some("P-192") }
    else if str_eq(oid, "1.3.132.0.33") { Some("P-224") }
    else if str_eq(oid, "1.2.840.10045.3.1.7") { Some("P-256") }
    else if str_eq(oid, "1.3.132.0.10") { Some("secp256k1") }
    else if str_eq(oid, "1.2.156.10197.1.301") { Some("SM2") }
    else if str_eq(oid, "1.3.36.3.3.2.8.1.1.7") { Some("brainpoolP256r1") }
    else if str_eq(oid, "1.3.132.0.34") { Some("P-384") }
    else if str_eq(oid, "1.3.36.3.3.2.8.1.1.11") { Some("brainpoolP384r1") }
    else if str_eq(oid, "1.3.36.3.3.2.8.1.1.13") { Some("brainpoolP512r1") }
    else if str_eq(oid, "1.3.132.0.35") { Some("P-521") }
    else { None }
}

/// A curve has a label here exactly when its key size is inspected.
pub proof fn law_curve_names_cover_sized_curves(c: Seq<char>)
    ensures
        curve_label(c) is Some <==> curve_bits(Some(c)) is Some,
{
    reveal_strlit("1.2.840.10045.3.1.1");
    reveal_strlit("1.3.132.0.33");
    reveal_strlit("1.2.840.10045.3.1.7");
    reveal_strlit("1.3.132.0.10");
    reveal_strlit("1.2.156.10197.1.301");
    reveal_strlit("1.3.36.3.3.2.8.1.1.7");
    reveal_strlit("1.3.132.0.34");
    reveal_strlit("1.3.36.3.3.2.8.1.1.11");
    reveal_strlit("1.3.36.3.3.2.8.1.1.13");
    reveal_strlit("1.3.132.0.35");
}

/// The expected SEC1 point length for a first octet and curve size: compressed
/// (02/03) or uncompressed (04); None for other first octets.
pub open spec fn sec1_length(first: u8, bits: int) -> Option<int> {
    let width = (bits + 7) / 8;
    if first == 2 || first == 3 {
        Some(1 + width)
    } else if first == 4 {
        Some(1 + 2 * width)
    } else {
        None
    }
}

/// Nominal key size and key-data status for an algorithm, curve and key bits.
pub open spec fn key_details_of(oid: Seq<char>, curve: Option<Seq<char>>, bytes: Seq<u8>, unused: u8) -> (Option<int>, KeyDataStatus) {
    let failed = (None, KeyDataStatus::DecodeError);
    if oid == rsa_oid() || oid == rsa_pss_oid() {
        if unused != 0 {
            failed
        } else {
            match rsa_modulus_bits(bytes) {
                Some(n) => if n <= usize::MAX { (Some(n), KeyDataStatus::Decoded) } else { failed },
                None => failed,
            }
        }
    } else if oid == ed25519_oid() {
        if bytes.len() == 32 && unused == 0 { (Some(255), KeyDataStatus::Decoded) } else { failed }
    } else if oid == ed448_oid() {
        if bytes.len() == 57 && unused == 0 { (Some(448), KeyDataStatus::Decoded) } else { failed }
    } else if oid == x25519_oid() {
        if bytes.len() == 32 && unused == 0 { (Some(255), KeyDataStatus::Decoded) } else { failed }
    } else if oid == x448_oid() {
        if bytes.len() == 56 && unused == 0 { (Some(448), KeyDataStatus::Decoded) } else { failed }
    } else if oid == ec_oid() {
        match curve_bits(curve) {
            None => (None, KeyDataStatus::Unparsed),
            Some(bits) => if bytes.len() == 0 {
                failed
            } else {
                match sec1_length(bytes[0], bits) {
                    Some(expected) => if bytes.len() == expected && unused == 0 {
                        (Some(bits), KeyDataStatus::Decoded)
                    } else {
                        failed
                    },
                    None => failed,
                }
            },
        }
    } else {
        (None, KeyDataStatus::Unparsed)
    }
}

fn curve_size(curve: Option<&str>) -> (r: Option<usize>)
    ensures
        opt_int(r) == curve_bits(match curve { Some(c) => Some(c@), None => None }),
{
    match curve {
        Some(c) => if str_eq(c, "1.2.840.10045.3.1.1") {
            Some(192)
        } else if str_eq(c, "1.3.132.0.33") {
            Some(224)
        } else if str_eq(c, "1.2.840.10045.3.1.7") || str_eq(c, "1.3.132.0.10") || str_eq(c, "1.2.156.10197.1.301")
            || str_eq(c, "1.3.36.3.3.2.8.1.1.7") {
            Some(256)
        } else if str_eq(c, "1.3.132.0.34") || str_eq(c, "1.3.36.3.3.2.8.1.1.11") {
            Some(384)
        } else if str_eq(c, "1.3.36.3.3.2.8.1.1.13") {
            Some(512)
        } else if str_eq(c, "1.3.132.0.35") {
            Some(521)
        } else {
            None
        },
        None => None,
    }
}

/// Nominal key size and whether the key bits decode in a supported encoding:
/// RSA/RSA-PSS modulus size; Ed25519 and X25519 (255) and Ed448 and X448 (448)
/// by exact length; SEC1 points of the curves of `curve_bits` by exact length.
/// No curve arithmetic or key validation is performed.
pub fn key_details(oid: &str, curve: Option<&str>, bytes: &[u8], unused: u8) -> (r: (Option<usize>, KeyDataStatus))
    ensures
        (opt_int(r.0), r.1) == key_details_of(oid@, match curve { Some(c) => Some(c@), None => None }, bytes@, unused),
{
    proof {
        reveal_strlit("1.2.840.113549.1.1.1");
        reveal_strlit("1.2.840.113549.1.1.10");
        reveal_strlit("1.2.840.10045.2.1");
        reveal_strlit("1.3.101.112");
        reveal_strlit("1.3.101.113");
    }
    let failed: (Option<usize>, KeyDataStatus) = (None, KeyDataStatus::DecodeError);
    if str_eq(oid, "1.2.840.113549.1.1.1") || str_eq(oid, "1.2.840.113549.1.1.10") {
        if unused != 0 {
            return failed;
        }
        match rsa_bits(bytes) {
            Some(bits) => (Some(bits), KeyDataStatus::Decoded),
            None => failed,
        }
    } else if str_eq(oid, "1.3.101.112") {
        if bytes.len() == 32 && unused == 0 { (Some(255), KeyDataStatus::Decoded) } else { failed }
    } else if str_eq(oid, "1.3.101.113") {
        if bytes.len() == 57 && unused == 0 { (Some(448), KeyDataStatus::Decoded) } else { failed }
    } else if str_eq(oid, "1.3.101.110") {
        if bytes.len() == 32 && unused == 0 { (Some(255), KeyDataStatus::Decoded) } else { failed }
    } else if str_eq(oid, "1.3.101.111") {
        if bytes.len() == 56 && unused == 0 { (Some(448), KeyDataStatus::Decoded) } else { failed }
    } else if str_eq(oid, "1.2.840.10045.2.1") {
        let bits = match curve_size(curve) {
            Some(b) => b,
            None => {
                return (None, KeyDataStatus::Unparsed);
            },
        };
        let width = (bits + 7) / 8;
        if bytes.len() == 0 {
            return failed;
        }
        let expected = if bytes[0] == 2 || bytes[0] == 3 {
            1 + width
        } else if bytes[0] == 4 {
            1 + 2 * width
        } else {
            return failed;
        };
        if bytes.len() == expected && unused == 0 {
            (Some(bits), KeyDataStatus::Decoded)
        } else {
            failed
        }
    } else {
        (None, KeyDataStatus::Unparsed)
    }
}

/// An elliptic-curve key on a named curve has the curve's size: P-192 192 bits,
/// P-224 224, P-256, secp256k1, SM2 and brainpoolP256r1 256, P-384 and
/// brainpoolP384r1 384, brainpoolP512r1 512 and P-521 521. Its SEC1 point decodes
/// exactly when it is 04 followed by two coordinates of the curve's octet width,
/// or 02 or 03 followed by one, with no unused bits; any other point is a decode
/// error.
pub proof fn law_named_curve_points_and_sizes(curve: Seq<char>, bits: int, width: int, bytes: Seq<u8>, unused: u8)
    requires
        (curve == "1.2.840.10045.3.1.1"@ && bits == 192 && width == 24)
        || (curve == "1.3.132.0.33"@ && bits == 224 && width == 28)
        || (curve == "1.2.840.10045.3.1.7"@ && bits == 256 && width == 32)
        || (curve == "1.3.132.0.10"@ && bits == 256 && width == 32)
        || (curve == "1.2.156.10197.1.301"@ && bits == 256 && width == 32)
        || (curve == "1.3.36.3.3.2.8.1.1.7"@ && bits == 256 && width == 32)
        || (curve == "1.3.132.0.34"@ && bits == 384 && width == 48)
        || (curve == "1.3.36.3.3.2.8.1.1.11"@ && bits == 384 && width == 48)
        || (curve == "1.3.36.3.3.2.8.1.1.13"@ && bits == 512 && width == 64)
        || (curve == "1.3.132.0.35"@ && bits == 521 && width == 66),
    ensures
        key_details_of("1.2.840.10045.2.1"@, Some(curve), bytes, unused) == if unused == 0 && bytes.len() > 0 && (
            (bytes[0] == 4 && bytes.len() == 1 + 2 * width) || ((bytes[0] == 2 || bytes[0] == 3) && bytes.len() == 1 + width)) {
            (Some(bits), KeyDataStatus::Decoded)
        } else {
            (None, KeyDataStatus::DecodeError)
        },
{
    reveal_strlit("1.2.840.10045.3.1.1");
    reveal_strlit("1.3.132.0.33");
    reveal_strlit("1.2.840.10045.3.1.7");
    reveal_strlit("1.3.132.0.10");
    reveal_strlit("1.2.156.10197.1.301");
    reveal_strlit("1.3.36.3.3.2.8.1.1.7");
    reveal_strlit("1.3.132.0.34");
    reveal_strlit("1.3.36.3.3.2.8.1.1.11");
    reveal_strlit("1.3.36.3.3.2.8.1.1.13");
    reveal_strlit("1.3.132.0.35");
    reveal_strlit("1.2.840.113549.1.1.1");
    reveal_strlit("1.2.840.113549.1.1.10");
    reveal_strlit("1.2.840.10045.2.1");
    reveal_strlit("1.3.101.112");
    reveal_strlit("1.3.101.113");
    reveal_strlit("1.3.101.110");
    reveal_strlit("1.3.101.111");
    assert("1.2.840.10045.3.1.1"@[18] != "1.2.840.10045.3.1.7"@[18]);
    assert("1.2.840.10045.3.1.1"@[4] != "1.2.156.10197.1.301"@[4]);
    assert("1.3.132.0.33"@[10] != "1.3.132.0.10"@[10]);
    assert("1.3.132.0.33"@[11] != "1.3.132.0.34"@[11]);
    assert("1.3.132.0.33"@[11] != "1.3.132.0.35"@[11]);
    assert("1.2.840.10045.3.1.7"@[4] != "1.2.156.10197.1.301"@[4]);
    assert("1.3.132.0.10"@[10] != "1.3.132.0.34"@[10]);
    assert("1.3.132.0.10"@[10] != "1.3.132.0.35"@[10]);
    assert("1.3.132.0.34"@[11] != "1.3.132.0.35"@[11]);
    assert("1.3.36.3.3.2.8.1.1.11"@[20] != "1.3.36.3.3.2.8.1.1.13"@[20]);
    assert("1.3.101.112"@[10] != "1.3.101.113"@[10]);
    assert("1.3.101.112"@[10] != "1.3.101.110"@[10]);
    assert("1.3.101.112"@[10] != "1.3.101.111"@[10]);
    assert("1.3.101.113"@[10] != "1.3.101.110"@[10]);
    assert("1.3.101.113"@[10] != "1.3.101.111"@[10]);
    assert("1.3.101.110"@[10] != "1.3.101.111"@[10]);
    assert("1.2.840.10045.3.1.1"@ != "1.3.132.0.33"@) by { assert("1.2.840.10045.3.1.1"@.len() == 19); assert("1.3.132.0.33"@.len() == 12); }
    assert("1.2.840.10045.3.1.1"@ != "1.3.132.0.10"@) by { assert("1.2.840.10045.3.1.1"@.len() == 19); assert("1.3.132.0.10"@.len() == 12); }
    assert("1.2.840.10045.3.1.1"@ != "1.3.36.3.3.2.8.1.1.7"@) by { assert("1.2.840.10045.3.1.1"@.len() == 19); assert("1.3.36.3.3.2.8.1.1.7"@.len() == 20); }
    assert("1.2.840.10045.3.1.1"@ != "1.3.132.0.34"@) by { assert("1.2.840.10045.3.1.1"@.len() == 19); assert("1.3.132.0.34"@.len() == 12); }
    assert("1.2.840.10045.3.1.1"@ != "1.3.36.3.3.2.8.1.1.11"@) by { assert("1.2.840.10045.3.1.1"@.len() == 19); assert("1.3.36.3.3.2.8.1.1.11"@.len() == 21); }
    assert("1.2.840.10045.3.1.1"@ != "1.3.36.3.3.2.8.1.1.13"@) by { assert("1.2.840.10045.3.1.1"@.len() == 19); assert("1.3.36.3.3.2.8.1.1.13"@.len() == 21); }
    assert("1.2.840.10045.3.1.1"@ != "1.3.132.0.35"@) by { assert("1.2.840.10045.3.1.1"@.len() == 19); assert("1.3.132.0.35"@.len() == 12); }
    assert("1.3.132.0.33"@ != "1.2.840.10045.3.1.7"@) by { assert("1.3.132.0.33"@.len() == 12); assert("1.2.840.10045.3.1.7"@.len() == 19); }
    assert("1.3.132.0.33"@ != "1.2.156.10197.1.301"@) by { assert("1.3.132.0.33"@.len() == 12); assert("1.2.156.10197.1.301"@.len() == 19); }
    assert("1.3.132.0.33"@ != "1.3.36.3.3.2.8.1.1.7"@) by { assert("1.3.132.0.33"@.len() == 12); assert("1.3.36.3.3.2.8.1.1.7"@.len() == 20); }
    assert("1.3.132.0.33"@ != "1.3.36.3.3.2.8.1.1.11"@) by { assert("1.3.132.0.33"@.len() == 12); assert("1.3.36.3.3.2.8.1.1.11"@.len() == 21); }
    assert("1.3.132.0.33"@ != "1.3.36.3.3.2.8.1.1.13"@) by { assert("1.3.132.0.33"@.len() == 12); assert("1.3.36.3.3.2.8.1.1.13"@.len() == 21); }
    assert("1.2.840.10045.3.1.7"@ != "1.3.132.0.10"@) by { assert("1.2.840.10045.3.1.7"@.len() == 19); assert("1.3.132.0.10"@.len() == 12); }
    assert("1.2.840.10045.3.1.7"@ != "1.3.36.3.3.2.8.1.1.7"@) by { assert("1.2.840.10045.3.1.7"@.len() == 19); assert("1.3.36.3.3.2.8.1.1.7"@.len() == 20); }
    assert("1.2.840.10045.3.1.7"@ != "1.3.132.0.34"@) by { assert("1.2.840.10045.3.1.7"@.len() == 19); assert("1.3.132.0.34"@.len() == 12); }
    assert("1.2.840.10045.3.1.7"@ != "1.3.36.3.3.2.8.1.1.11"@) by { assert("1.2.840.10045.3.1.7"@.len() == 19); assert("1.3.36.3.3.2.8.1.1.11"@.len() == 21); }
    assert("1.2.840.10045.3.1.7"@ != "1.3.36.3.3.2.8.1.1.13"@) by { assert("1.2.840.10045.3.1.7"@.len() == 19); assert("1.3.36.3.3.2.8.1.1.13"@.len() == 21); }
    assert("1.2.840.10045.3.1.7"@ != "1.3.132.0.35"@) by { assert("1.2.840.10045.3.1.7"@.len() == 19); assert("1.3.132.0.35"@.len() == 12); }
    assert("1.3.132.0.10"@ != "1.2.156.10197.1.301"@) by { assert("1.3.132.0.10"@.len() == 12); assert("1.2.156.10197.1.301"@.len() == 19); }
    assert("1.3.132.0.10"@ != "1.3.36.3.3.2.8.1.1.7"@) by { assert("1.3.132.0.10"@.len() == 12); assert("1.3.36.3.3.2.8.1.1.7"@.len() == 20); }
    assert("1.3.132.0.10"@ != "1.3.36.3.3.2.8.1.1.11"@) by { assert("1.3.132.0.10"@.len() == 12); assert("1.3.36.3.3.2.8.1.1.11"@.len() == 21); }
    assert("1.3.132.0.10"@ != "1.3.36.3.3.2.8.1.1.13"@) by { assert("1.3.132.0.10"@.len() == 12); assert("1.3.36.3.3.2.8.1.1.13"@.len() == 21); }
    assert("1.2.156.10197.1.301"@ != "1.3.36.3.3.2.8.1.1.7"@) by { assert("1.2.156.10197.1.301"@.len() == 19); assert("1.3.36.3.3.2.8.1.1.7"@.len() == 20); }
    assert("1.2.156.10197.1.301"@ != "1.3.132.0.34"@) by { assert("1.2.156.10197.1.301"@.len() == 19); assert("1.3.132.0.34"@.len() == 12); }
    assert("1.2.156.10197.1.301"@ != "1.3.36.3.3.2.8.1.1.11"@) by { assert("1.2.156.10197.1.301"@.len() == 19); assert("1.3.36.3.3.2.8.1.1.11"@.len() == 21); }
    assert("1.2.156.10197.1.301"@ != "1.3.36.3.3.2.8.1.1.13"@) by { assert("1.2.156.10197.1.301"@.len() == 19); assert("1.3.36.3.3.2.8.1.1.13"@.len() == 21); }
    assert("1.2.156.10197.1.301"@ != "1.3.132.0.35"@) by { assert("1.2.156.10197.1.301"@.len() == 19); assert("1.3.132.0.35"@.len() == 12); }
    assert("1.3.36.3.3.2.8.1.1.7"@ != "1.3.132.0.34"@) by { assert("1.3.36.3.3.2.8.1.1.7"@.len() == 20); assert("1.3.132.0.34"@.len() == 12); }
    assert("1.3.36.3.3.2.8.1.1.7"@ != "1.3.36.3.3.2.8.1.1.11"@) by { assert("1.3.36.3.3.2.8.1.1.7"@.len() == 20); assert("1.3.36.3.3.2.8.1.1.11"@.len() == 21); }
    assert("1.3.36.3.3.2.8.1.1.7"@ != "1.3.36.3.3.2.8.1.1.13"@) by { assert("1.3.36.3.3.2.8.1.1.7"@.len() == 20); assert("1.3.36.3.3.2.8.1.1.13"@.len() == 21); }
    assert("1.3.36.3.3.2.8.1.1.7"@ != "1.3.132.0.35"@) by { assert("1.3.36.3.3.2.8.1.1.7"@.len() == 20); assert("1.3.132.0.35"@.len() == 12); }
    assert("1.3.132.0.34"@ != "1.3.36.3.3.2.8.1.1.11"@) by { assert("1.3.132.0.34"@.len() == 12); assert("1.3.36.3.3.2.8.1.1.11"@.len() == 21); }
    assert("1.3.132.0.34"@ != "1.3.36.3.3.2.8.1.1.13"@) by { assert("1.3.132.0.34"@.len() == 12); assert("1.3.36.3.3.2.8.1.1.13"@.len() == 21); }
    assert("1.3.36.3.3.2.8.1.1.11"@ != "1.3.132.0.35"@) by { assert("1.3.36.3.3.2.8.1.1.11"@.len() == 21); assert("1.3.132.0.35"@.len() == 12); }
    assert("1.3.36.3.3.2.8.1.1.13"@ != "1.3.132.0.35"@) by { assert("1.3.36.3.3.2.8.1.1.13"@.len() == 21); assert("1.3.132.0.35"@.len() == 12); }
    if curve == "1.2.840.10045.3.1.1"@ {
        assert(curve_bits(Some(curve)) == Some(192int));
        assert(bits == 192);
    } else if curve == "1.3.132.0.33"@ {
        assert(curve_bits(Some(curve)) == Some(224int));
        assert(bits == 224);
    } else if curve == "1.2.840.10045.3.1.7"@ {
        assert(curve_bits(Some(curve)) == Some(256int));
        assert(bits == 256);
    } else if curve == "1.3.132.0.10"@ {
        assert(curve_bits(Some(curve)) == Some(256int));
        assert(bits == 256);
    } else if curve == "1.2.156.10197.1.301"@ {
        assert(curve_bits(Some(curve)) == Some(256int));
        assert(bits == 256);
    } else if curve == "1.3.36.3.3.2.8.1.1.7"@ {
        assert(curve_bits(Some(curve)) == Some(256int));
        assert(bits == 256);
    } else if curve == "1.3.132.0.34"@ {
        assert(curve_bits(Some(curve)) == Some(384int));
        assert(bits == 384);
    } else if curve == "1.3.36.3.3.2.8.1.1.11"@ {
        assert(curve_bits(Some(curve)) == Some(384int));
        assert(bits == 384);
    } else if curve == "1.3.36.3.3.2.8.1.1.13"@ {
        assert(curve_bits(Some(curve)) == Some(512int));
        assert(bits == 512);
    } else if curve == "1.3.132.0.35"@ {
        assert(curve_bits(Some(curve)) == Some(521int));
        assert(bits == 521);
    }
    assert(width == (bits + 7) / 8);
    let e = "1.2.840.10045.2.1"@;
    assert(e == ec_oid());
    assert(e != rsa_oid() && e != rsa_pss_oid() && e != ed25519_oid() && e != ed448_oid() && e != x25519_oid() && e != x448_oid());
    if bytes.len() > 0 {
        assert(sec1_length(bytes[0], bits) == if bytes[0] == 2 || bytes[0] == 3 { Some(1 + width) }
            else if bytes[0] == 4 { Some(1 + 2 * width) } else { None::<int> });
    }
    assert(curve_bits(Some(curve)) == Some(bits));
}

/// RFC 8410 keys are sized by algorithm whatever curve parameter accompanies them:
/// Ed25519 and X25519 keys of 32 octets are 255 bits, Ed448 keys of 57 octets and
/// X448 keys of 56 octets are 448 bits, with no unused bits; any other key is a
/// decode error.
pub proof fn law_rfc8410_key_sizes(curve: Option<Seq<char>>, bytes: Seq<u8>, unused: u8)
    ensures
        key_details_of("1.3.101.112"@, curve, bytes, unused) == if bytes.len() == 32 && unused == 0 {
            (Some(255int), KeyDataStatus::Decoded) } else { (None, KeyDataStatus::DecodeError) },
        key_details_of("1.3.101.110"@, curve, bytes, unused) == if bytes.len() == 32 && unused == 0 {
            (Some(255int), KeyDataStatus::Decoded) } else { (None, KeyDataStatus::DecodeError) },
        key_details_of("1.3.101.113"@, curve, bytes, unused) == if bytes.len() == 57 && unused == 0 {
            (Some(448int), KeyDataStatus::Decoded) } else { (None, KeyDataStatus::DecodeError) },
        key_details_of("1.3.101.111"@, curve, bytes, unused) == if bytes.len() == 56 && unused == 0 {
            (Some(448int), KeyDataStatus::Decoded) } else { (None, KeyDataStatus::DecodeError) },
{
    reveal_strlit("1.2.840.113549.1.1.1");
    reveal_strlit("1.2.840.113549.1.1.10");
    reveal_strlit("1.2.840.10045.2.1");
    reveal_strlit("1.3.101.112");
    reveal_strlit("1.3.101.113");
    reveal_strlit("1.3.101.110");
    reveal_strlit("1.3.101.111");
    assert("1.3.101.112"@[10] != "1.3.101.113"@[10]);
    assert("1.3.101.112"@[10] != "1.3.101.110"@[10]);
    assert("1.3.101.112"@[10] != "1.3.101.111"@[10]);
    assert("1.3.101.113"@[10] != "1.3.101.110"@[10]);
    assert("1.3.101.113"@[10] != "1.3.101.111"@[10]);
    assert("1.3.101.110"@[10] != "1.3.101.111"@[10]);
    assert("1.3.101.111"@ != "1.3.101.110"@) by { assert("1.3.101.111"@.len() == 11); assert("1.3.101.110"@.len() == 11); }
    assert("1.3.101.111"@ != "1.3.101.112"@) by { assert("1.3.101.111"@.len() == 11); assert("1.3.101.112"@.len() == 11); }
    assert("1.3.101.111"@ != "1.3.101.113"@) by { assert("1.3.101.111"@.len() == 11); assert("1.3.101.113"@.len() == 11); }
    assert("1.3.101.111"@ != rsa_oid() && "1.3.101.111"@ != rsa_pss_oid());
}

} // verus!
