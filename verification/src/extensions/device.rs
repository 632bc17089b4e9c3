//! FIDO and Microsoft certificate-template extensions, decoded as fields only;
//! no profile, transport selection or enrollment policy is applied.
use vstd::prelude::*;
use crate::backend::{self, DerValue};
use crate::decoding::{self, der_error, der_issue, reports, DecodeDiagnostic, DecodeIssue, IntegerValue};
use crate::extensions::ExtensionDetails;
use crate::rustcrypto;
use crate::text::{encode_hex, hex_lower, str_eq};

verus! {

/// FIDO U2F transport assertions. Unknown bits are retained; no transport is selected.
#[derive(Clone, Debug, PartialEq, Eq)]
#[non_exhaustive]
pub struct FidoTransports {
    /// Bluetooth Classic bit 0.
    pub bluetooth_classic: bool,
    /// Bluetooth Low Energy bit 1.
    pub bluetooth_low_energy: bool,
    /// USB bit 2.
    pub usb: bool,
    /// NFC bit 3.
    pub nfc: bool,
    /// Internal/USB-internal transport bit 4.
    pub internal: bool,
    /// Other set bit indices, counted from the first octet's most significant bit.
    pub unknown_bits: Vec<usize>,
    /// Complete bit-string content octets excluding unused-bit count, in lowercase hex.
    pub bits_hex: String,
    /// Number of unused bits in the last octet.
    pub unused_bits: u8,
}

/// Microsoft certificate-template fields without enrollment/template policy.
#[derive(Clone, Debug, PartialEq, Eq)]
#[non_exhaustive]
pub struct CertificateTemplate {
    /// Dotted-decimal template OID.
    pub template_oid: String,
    /// Optional major version as encoded; no DWORD range or sign policy is enforced.
    pub major_version: Option<IntegerValue>,
    /// Optional minor version as encoded.
    pub minor_version: Option<IntegerValue>,
}

/// Bit `i` of a BIT STRING, counted from the first octet's most significant bit.
pub open spec fn bit_set(data: Seq<u8>, i: int) -> bool {
    data[i / 8] & (0x80u8 >> ((i % 8) as u8)) != 0
}

/// `t` holds the transports of a decoded BIT STRING: the five named bits, every
/// other set bit in increasing order, and the octets and unused-bit count.
pub open spec fn transports_match(t: FidoTransports, data: Seq<u8>, unused: u8) -> bool {
    let n = data.len() * 8 - unused;
    &&& t.bluetooth_classic == (0 < n && bit_set(data, 0))
    &&& t.bluetooth_low_energy == (1 < n && bit_set(data, 1))
    &&& t.usb == (2 < n && bit_set(data, 2))
    &&& t.nfc == (3 < n && bit_set(data, 3))
    &&& t.internal == (4 < n && bit_set(data, 4))
    &&& forall|k: int| 0 <= k < t.unknown_bits@.len() ==>
        5 <= #[trigger] t.unknown_bits@[k] < n && bit_set(data, t.unknown_bits@[k] as int)
    &&& forall|k: int, l: int| 0 <= k < l < t.unknown_bits@.len() ==> t.unknown_bits@[k] < t.unknown_bits@[l]
    &&& forall|i: int| 5 <= i < n && #[trigger] bit_set(data, i) ==> t.unknown_bits@.contains(i as usize)
    &&& t.bits_hex@ == hex_lower(data)
    &&& t.unused_bits == unused
}

/// The extension OIDs this module decodes.
pub open spec fn device_oid(oid: Seq<char>) -> bool {
    oid == "1.3.6.1.4.1.45724.1.1.4"@ || oid == "1.3.6.1.4.1.45724.2.1.1"@ || oid == "1.3.6.1.4.1.311.20.2"@
        || oid == "1.3.6.1.4.1.311.21.7"@
}

/// The outcome of decoding an optional INTEGER field of a template.
pub open spec fn optional_integer_outcome(fields: Seq<DerValue>, i: int) -> Result<Option<(Seq<char>, Option<i64>)>, (DecodeIssue, Seq<char>)> {
    if i < fields.len() {
        match decoding::integer_outcome(fields[i]) {
            Ok(v) => Ok(Some(v)),
            Err(e) => Err(e),
        }
    } else {
        Ok(None)
    }
}

/// An optional integer field agrees with its outcome.
pub open spec fn integer_field_matches(v: Option<IntegerValue>, o: Option<(Seq<char>, Option<i64>)>) -> bool {
    match (v, o) {
        (Some(x), Some((hex, n))) => x.content_hex@ == hex && x.value == n,
        (None, None) => true,
        _ => false,
    }
}

/// The certificate-template result: one SEQUENCE of one to three fields, an OID
/// and optional major and minor INTEGER versions, decoded in that order.
pub open spec fn template_matches(bytes: Seq<u8>, r: Result<Option<ExtensionDetails>, DecodeDiagnostic>) -> bool {
    match decoding::single_value(bytes) {
        Err((issue, field)) => r matches Err(d) && reports(d, issue, field),
        Ok(v) => match decoding::children_of(v, 16) {
            Err((issue, field)) => r matches Err(d) && reports(d, issue, field),
            Ok(fields) => if fields.len() == 0 || fields.len() > 3 {
                r matches Err(d) && reports(d, DecodeIssue::InvalidEncoding, "template fields"@)
            } else {
                match (optional_integer_outcome(fields, 1), optional_integer_outcome(fields, 2)) {
                    (Err((issue, field)), _) => r matches Err(d) && reports(d, issue, field),
                    (Ok(_), Err((issue, field))) => r matches Err(d) && reports(d, issue, field),
                    (Ok(major), Ok(minor)) => match r {
                        Ok(Some(ExtensionDetails::MicrosoftCertificateTemplate(t))) => {
                            &&& t.template_oid@ == backend::oid_text_of(fields[0].data@)
                            &&& integer_field_matches(t.major_version, major)
                            &&& integer_field_matches(t.minor_version, minor)
                        },
                        _ => false,
                    },
                }
            },
        },
    }
}

/// What `decode` gives for each OID: the decoded details, a diagnostic for the
/// field that failed, or `Ok(None)` for an OID this module does not decode.
pub open spec fn device_matches(oid: Seq<char>, bytes: Seq<u8>, r: Result<Option<ExtensionDetails>, DecodeDiagnostic>) -> bool {
    if oid == "1.3.6.1.4.1.45724.1.1.4"@ {
        match rustcrypto::octet_string_of(bytes) {
            Ok(v) => match r { Ok(Some(ExtensionDetails::FidoAaguid(s))) => s@ == hex_lower(v@), _ => false },
            Err(f) => r matches Err(d) && reports(d, der_issue(f), "AAGUID OCTET STRING"@),
        }
    } else if oid == "1.3.6.1.4.1.45724.2.1.1"@ {
        match rustcrypto::bit_string_of(bytes) {
            Ok((data, unused)) => match r {
                Ok(Some(ExtensionDetails::FidoTransports(t))) => transports_match(t, data@, unused),
                _ => false,
            },
            Err(f) => r matches Err(d) && reports(d, der_issue(f), "FIDO transport BIT STRING"@),
        }
    } else if oid == "1.3.6.1.4.1.311.20.2"@ {
        match rustcrypto::bmp_string_of(bytes) {
            Ok(t) => match r { Ok(Some(ExtensionDetails::MicrosoftTemplateName(s))) => s@ == t, _ => false },
            Err(f) => r matches Err(d) && reports(d, der_issue(f), "template BMPString"@),
        }
    } else if oid == "1.3.6.1.4.1.311.21.7"@ {
        template_matches(bytes, r)
    } else {
        r == Ok::<Option<ExtensionDetails>, DecodeDiagnostic>(None)
    }
}

/// The diagnostic of a template that does not decode, if it does not.
pub open spec fn template_failure(bytes: Seq<u8>) -> Option<(DecodeIssue, Seq<char>)> {
    match decoding::single_value(bytes) {
        Err(e) => Some(e),
        Ok(v) => match decoding::children_of(v, 16) {
            Err(e) => Some(e),
            Ok(fields) => if fields.len() == 0 || fields.len() > 3 {
                Some((DecodeIssue::InvalidEncoding, "template fields"@))
            } else {
                match (optional_integer_outcome(fields, 1), optional_integer_outcome(fields, 2)) {
                    (Err(e), _) => Some(e),
                    (Ok(_), Err(e)) => Some(e),
                    _ => None,
                }
            },
        },
    }
}

/// The diagnostic `decode` reports for an OID and value, if it fails.
pub open spec fn device_failure(oid: Seq<char>, bytes: Seq<u8>) -> Option<(DecodeIssue, Seq<char>)> {
    if oid == "1.3.6.1.4.1.45724.1.1.4"@ {
        match rustcrypto::octet_string_of(bytes) {
            Ok(_) => None,
            Err(f) => Some((der_issue(f), "AAGUID OCTET STRING"@)),
        }
    } else if oid == "1.3.6.1.4.1.45724.2.1.1"@ {
        match rustcrypto::bit_string_of(bytes) {
            Ok(_) => None,
            Err(f) => Some((der_issue(f), "FIDO transport BIT STRING"@)),
        }
    } else if oid == "1.3.6.1.4.1.311.20.2"@ {
        match rustcrypto::bmp_string_of(bytes) {
            Ok(_) => None,
            Err(f) => Some((der_issue(f), "template BMPString"@)),
        }
    } else if oid == "1.3.6.1.4.1.311.21.7"@ {
        template_failure(bytes)
    } else {
        None
    }
}

/// A device decoding result fails exactly as `device_failure` says.
pub proof fn lemma_device_failure(oid: Seq<char>, bytes: Seq<u8>, r: Result<Option<ExtensionDetails>, DecodeDiagnostic>)
    requires
        device_matches(oid, bytes, r),
    ensures
        match r {
            Err(d) => match device_failure(oid, bytes) {
                Some((issue, field)) => reports(d, issue, field),
                None => false,
            },
            Ok(_) => device_failure(oid, bytes) is None,
        },
{
}

fn transports(data: Vec<u8>, unused: u8) -> (r: FidoTransports)
    requires
        unused <= 7,
        data@.len() == 0 ==> unused == 0,
        data@.len() * 8 <= usize::MAX,
    ensures
        transports_match(r, data@, unused),
{
    let n = data.len() * 8 - unused as usize;
    let mut named = [false, false, false, false, false];
    let mut unknown: Vec<usize> = Vec::new();
    let mut i: usize = 0;
    while i < n
        invariant
            n == data@.len() * 8 - unused,
            i <= n,
            n <= data@.len() * 8,
            forall|k: int| 0 <= k < 5 ==> #[trigger] named@[k] == (k < i && bit_set(data@, k)),
            forall|k: int| 0 <= k < unknown@.len() ==>
                5 <= #[trigger] unknown@[k] < i && bit_set(data@, unknown@[k] as int),
            forall|k: int, l: int| 0 <= k < l < unknown@.len() ==> unknown@[k] < unknown@[l],
            forall|j: int| 5 <= j < i && #[trigger] bit_set(data@, j) ==> unknown@.contains(j as usize),
        decreases n - i,
    {
        let set = data[i / 8] & (0x80u8 >> ((i % 8) as u8)) != 0;
        assert(set == bit_set(data@, i as int));
        if i < 5 {
            named.set(i, set);
        } else if set {
            let ghost before = unknown@;
            unknown.push(i);
            proof {
                assert forall|j: int| 5 <= j < i + 1 && #[trigger] bit_set(data@, j) implies unknown@.contains(j as usize) by {
                    if j < i {
                        assert(before.contains(j as usize));
                        let w = choose|w: int| 0 <= w < before.len() && before[w] == j as usize;
                        assert(unknown@[w] == j as usize);
                    } else {
                        assert(unknown@[before.len() as int] == i);
                    }
                }
            }
        }
        i = i + 1;
    }
    FidoTransports {
        bluetooth_classic: named[0],
        bluetooth_low_energy: named[1],
        usb: named[2],
        nfc: named[3],
        internal: named[4],
        unknown_bits: unknown,
        bits_hex: encode_hex(data.as_slice()),
        unused_bits: unused,
    }
}

fn optional_integer(fields: &Vec<DerValue>, i: usize) -> (r: Result<Option<IntegerValue>, DecodeDiagnostic>)
    ensures
        match (r, optional_integer_outcome(fields@, i as int)) {
            (Ok(v), Ok(o)) => integer_field_matches(v, o),
            (Err(d), Err((issue, field))) => reports(d, issue, field),
            _ => false,
        },
{
    if i < fields.len() {
        match decoding::integer(&fields[i]) {
            Ok(v) => Ok(Some(v)),
            Err(d) => Err(d),
        }
    } else {
        Ok(None)
    }
}

fn template(bytes: &[u8]) -> (r: Result<Option<ExtensionDetails>, DecodeDiagnostic>)
    ensures
        template_matches(bytes@, r),
{
    let value = match decoding::any(bytes) {
        Ok(v) => v,
        Err(d) => {
            return Err(d);
        },
    };
    let fields = match decoding::children(&value, 16) {
        Ok(f) => f,
        Err(d) => {
            return Err(d);
        },
    };
    if fields.len() == 0 || fields.len() > 3 {
        return Err(DecodeDiagnostic::invalid("template fields"));
    }
    let template_oid = backend::oid_text(fields[0].data.as_slice());
    let major_version = match optional_integer(&fields, 1) {
        Ok(v) => v,
        Err(d) => {
            return Err(d);
        },
    };
    let minor_version = match optional_integer(&fields, 2) {
        Ok(v) => v,
        Err(d) => {
            return Err(d);
        },
    };
    Ok(Some(ExtensionDetails::MicrosoftCertificateTemplate(CertificateTemplate {
        template_oid,
        major_version,
        minor_version,
    })))
}

/// Decode a FIDO AAGUID or transports extension, or a Microsoft template name or
/// template; `Ok(None)` for other OIDs. Failures name the field that did not decode.
pub fn decode(oid: &str, bytes: &[u8]) -> (r: Result<Option<ExtensionDetails>, DecodeDiagnostic>)
    ensures
        device_matches(oid@, bytes@, r),
{
    if str_eq(oid, "1.3.6.1.4.1.45724.1.1.4") {
        // Any length is kept; comparing it with an authenticator belongs to the caller.
        match rustcrypto::octet_string(bytes) {
            Ok(v) => Ok(Some(ExtensionDetails::FidoAaguid(encode_hex(v.as_slice())))),
            Err(f) => Err(der_error(f, "AAGUID OCTET STRING")),
        }
    } else if str_eq(oid, "1.3.6.1.4.1.45724.2.1.1") {
        match rustcrypto::bit_string(bytes) {
            Ok((data, unused)) => Ok(Some(ExtensionDetails::FidoTransports(transports(data, unused)))),
            Err(f) => Err(der_error(f, "FIDO transport BIT STRING")),
        }
    } else if str_eq(oid, "1.3.6.1.4.1.311.20.2") {
        match rustcrypto::bmp_string(bytes) {
            Ok(s) => Ok(Some(ExtensionDetails::MicrosoftTemplateName(s))),
            Err(f) => Err(der_error(f, "template BMPString")),
        }
    } else if str_eq(oid, "1.3.6.1.4.1.311.21.7") {
        template(bytes)
    } else {
        Ok(None)
    }
}

} // verus!
