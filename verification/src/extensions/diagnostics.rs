//! Explanations for extensions left unsupported or malformed.
use vstd::prelude::*;
use crate::backend::DerValue;
use crate::decoding::{self, der_error, der_issue, integer_outcome, lemma_top_bit, reports, DecodeDiagnostic, DecodeIssue};
use crate::extensions::device::{self, device_failure, lemma_device_failure};
use crate::extensions::{ExtensionDetails, ExtensionInfo};
use crate::rustcrypto::{self, DerFailure};
use crate::text::str_eq;

verus! {

/// An inhibitAnyPolicy INTEGER that is well formed and non-negative but does not
/// fit in u32.
pub open spec fn skip_certs_too_large(v: DerValue) -> bool {
    match integer_outcome(v) {
        Ok((_, n)) => v.data@.len() > 0 && v.data@[0] < 128 && match n {
            Some(k) => k > u32::MAX,
            None => true,
        },
        Err(_) => false,
    }
}

/// The diagnostic `ExtensionInfo::diagnostic` reports, if any.
pub open spec fn extension_diagnostic(e: ExtensionInfo) -> Option<(DecodeIssue, Seq<char>)> {
    if e.details == ExtensionDetails::Unsupported {
        Some((DecodeIssue::UnknownType, "extension OID"@))
    } else if e.details != ExtensionDetails::Malformed {
        None
    } else if device_failure(e.oid@, e.value_der@) is Some {
        device_failure(e.oid@, e.value_der@)
    } else {
        match decoding::single_value(e.value_der@) {
            Err(x) => Some(x),
            Ok(v) => if e.oid@ == "2.5.29.54"@ {
                if skip_certs_too_large(v) {
                    Some((DecodeIssue::RepresentationLimit, "skipCerts u32"@))
                } else {
                    Some((DecodeIssue::InvalidEncoding, "skipCerts INTEGER"@))
                }
            } else if e.oid@ == "2.5.29.30"@ && rustcrypto::name_constraints_of(e.value_der@) is Err {
                let f = rustcrypto::name_constraints_of(e.value_der@)->Err_0;
                if f == DerFailure::UnexpectedContextTag(3) {
                    Some((DecodeIssue::UnsupportedEncoding, "X.400 constraint"@))
                } else {
                    Some((der_issue(f), "name constraints"@))
                }
            } else {
                Some((DecodeIssue::Unclassified, "extension fields"@))
            },
        }
    }
}

fn skip_certs(v: &DerValue) -> (r: DecodeDiagnostic)
    ensures
        if skip_certs_too_large(*v) {
            reports(r, DecodeIssue::RepresentationLimit, "skipCerts u32"@)
        } else {
            reports(r, DecodeIssue::InvalidEncoding, "skipCerts INTEGER"@)
        },
{
    proof {
        if v.data@.len() > 0 {
            lemma_top_bit(v.data@[0]);
        }
    }
    match decoding::integer(v) {
        Ok(n) => {
            let large = match n.value {
                Some(k) => k > 4294967295,
                None => true,
            };
            if v.data.len() > 0 && v.data[0] & 0x80 == 0 && large {
                DecodeDiagnostic::new(DecodeIssue::RepresentationLimit, "skipCerts u32")
            } else {
                DecodeDiagnostic::invalid("skipCerts INTEGER")
            }
        },
        Err(_) => DecodeDiagnostic::invalid("skipCerts INTEGER"),
    }
}

impl ExtensionInfo {
    /// Explain an unsupported/malformed extension using its retained bytes where
    /// possible. Unclassified means the decoding path does not expose a cause; it
    /// must not be read as proven invalid DER. No validity, critical-extension
    /// policy, or trust checks are performed.
    pub fn diagnostic(&self) -> (r: Option<DecodeDiagnostic>)
        ensures
            match (r, extension_diagnostic(*self)) {
                (Some(d), Some((issue, field))) => reports(d, issue, field),
                (None, None) => true,
                _ => false,
            },
    {
        match self.details {
            ExtensionDetails::Unsupported => {
                return Some(DecodeDiagnostic::new(DecodeIssue::UnknownType, "extension OID"));
            },
            ExtensionDetails::Malformed => {},
            _ => {
                return None;
            },
        }
        let oid = self.oid.as_str();
        let bytes = self.value_der.as_slice();
        let d = device::decode(oid, bytes);
        proof {
            lemma_device_failure(oid@, bytes@, d);
        }
        match d {
            Err(e) => {
                return Some(e);
            },
            Ok(_) => {},
        }
        let value = match decoding::any(bytes) {
            Ok(v) => v,
            Err(e) => {
                return Some(e);
            },
        };
        if str_eq(oid, "2.5.29.54") {
            return Some(skip_certs(&value));
        }
        if str_eq(oid, "2.5.29.30") {
            match rustcrypto::name_constraints(bytes) {
                Err(f) => {
                    let x400 = match f {
                        DerFailure::UnexpectedContextTag(n) => n == 3,
                        _ => false,
                    };
                    if x400 {
                        return Some(DecodeDiagnostic::new(DecodeIssue::UnsupportedEncoding, "X.400 constraint"));
                    }
                    return Some(der_error(f, "name constraints"));
                },
                Ok(_) => {},
            }
        }
        Some(DecodeDiagnostic::new(DecodeIssue::Unclassified, "extension fields"))
    }
}

} // verus!
