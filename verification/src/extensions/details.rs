//! Additional fields decoded from a GeneralName's retained encoding.
use vstd::prelude::*;
use crate::backend::DerValue;
use crate::decoding::{self, der_error, der_issue, reports, DecodeDiagnostic, DecodeIssue};
use crate::extensions::GeneralName;
use crate::rustcrypto;
use crate::text::{decode_hex, encode_hex, hex_decoded, hex_lower, opt_view, str_eq};

verus! {

/// Additional fields decoded from a GeneralName's retained encoding.
#[derive(Clone, Debug, PartialEq, Eq)]
#[non_exhaustive]
pub enum NameDetails {
    /// Microsoft user principal name, without account lookup or name validation.
    UserPrincipalName(String),
    /// RFC 4985 DNS SRV name, without service/domain validation.
    DnsSrv(String),
    /// RFC 6120 XMPP address, without address validation.
    XmppAddress(String),
    /// RFC 4108 hardware identifier, without matching a physical device.
    HardwareModule {
        /// Dotted-decimal hardware type identifier.
        type_oid: String,
        /// Hardware serial number octets in lowercase hex.
        serial_hex: String,
    },
    /// EDI party name; no organization/party identity matching occurs.
    EdiPartyName {
        /// Name assigner when encoded.
        name_assigner: Option<String>,
        /// Required party name.
        party_name: String,
    },
}

/// Microsoft user principal name.
pub open spec fn upn_oid() -> Seq<char> { "1.3.6.1.4.1.311.20.2.3"@ }
/// Hardware module name.
pub open spec fn hardware_oid() -> Seq<char> { "1.3.6.1.5.5.7.8.4"@ }
/// XMPP address.
pub open spec fn xmpp_oid() -> Seq<char> { "1.3.6.1.5.5.7.8.5"@ }
/// DNS SRV name.
pub open spec fn srv_oid() -> Seq<char> { "1.3.6.1.5.5.7.8.7"@ }

/// A diagnostic result agrees with an expected issue and field.
pub open spec fn fails_with(r: Result<Option<NameDetails>, DecodeDiagnostic>, issue: DecodeIssue, field: Seq<char>) -> bool {
    match r {
        Err(d) => reports(d, issue, field),
        Ok(_) => false,
    }
}

/// The result for an otherName string value: its tag must be the expected string
/// type (IA5String for DNS SRV, UTF8String otherwise), then its text decodes.
pub open spec fn other_text_matches(oid: Seq<char>, value: DerValue, r: Result<Option<NameDetails>, DecodeDiagnostic>) -> bool {
    let expected: u32 = if oid == srv_oid() { 22 } else { 12 };
    if value.tag != expected {
        fails_with(r, DecodeIssue::InvalidEncoding, "OtherName string type"@)
    } else {
        match decoding::decoded_text(value) {
            None => fails_with(r, decoding::text_failure(value).0, decoding::text_failure(value).1),
            Some(t) => match r {
                Ok(Some(NameDetails::UserPrincipalName(s))) => oid == upn_oid() && s@ == t,
                Ok(Some(NameDetails::DnsSrv(s))) => oid == srv_oid() && s@ == t,
                Ok(Some(NameDetails::XmppAddress(s))) => oid == xmpp_oid() && s@ == t,
                _ => false,
            },
        }
    }
}

/// The result for an otherName of a known type whose octets are `bytes`: one
/// constructed context-specific [0] wrapper, then a HardwareModuleName or a string.
pub open spec fn other_matches(oid: Seq<char>, bytes: Seq<u8>, r: Result<Option<NameDetails>, DecodeDiagnostic>) -> bool {
    match decoding::single_value(bytes) {
        Err((issue, field)) => fails_with(r, issue, field),
        Ok(w) => if w.class != 2 || w.tag != 0 || !w.constructed {
            fails_with(r, DecodeIssue::InvalidEncoding, "OtherName explicit value"@)
        } else if oid == hardware_oid() {
            match rustcrypto::hardware_module_name_of(w.data@) {
                Err(f) => fails_with(r, der_issue(f), "HardwareModuleName"@),
                Ok((t, s)) => match r {
                    Ok(Some(NameDetails::HardwareModule { type_oid, serial_hex })) => type_oid@ == t && serial_hex@ == hex_lower(s),
                    _ => false,
                },
            }
        } else {
            match decoding::single_value(w.data@) {
                Err((issue, field)) => fails_with(r, issue, field),
                Ok(v) => other_text_matches(oid, v, r),
            }
        }
    }
}

/// The result `GeneralName::details` gives for `g`.
pub open spec fn name_details_match(g: GeneralName, r: Result<Option<NameDetails>, DecodeDiagnostic>) -> bool {
    match g {
        GeneralName::OtherName { oid, name: _, value_der_hex } => {
            let o = oid@;
            if !(o == upn_oid() || o == hardware_oid() || o == xmpp_oid() || o == srv_oid()) {
                r == Ok::<Option<NameDetails>, DecodeDiagnostic>(None)
            } else {
                match hex_decoded(value_der_hex@) {
                    None => fails_with(r, DecodeIssue::InvalidEncoding, "OtherName hex"@),
                    Some(bytes) => other_matches(o, bytes, r),
                }
            }
        },
        GeneralName::EdiPartyName { constructed, content_hex } => if !constructed {
            fails_with(r, DecodeIssue::InvalidEncoding, "EDI constructed bit"@)
        } else {
            match hex_decoded(content_hex@) {
                None => fails_with(r, DecodeIssue::InvalidEncoding, "EDI hex"@),
                Some(content) => match rustcrypto::edi_party_name_of(content) {
                    Err(f) => fails_with(r, der_issue(f), "EDI encoding"@),
                    Ok(Err(f)) => fails_with(r, der_issue(f), "EDI fields"@),
                    Ok(Ok((a, p))) => match r {
                        Ok(Some(NameDetails::EdiPartyName { name_assigner, party_name })) =>
                            opt_view(name_assigner) == a && party_name@ == p,
                        _ => false,
                    },
                },
            }
        },
        GeneralName::X400Address { .. } => fails_with(r, DecodeIssue::UnsupportedEncoding, "X.400 fields"@),
        GeneralName::Malformed(_) => fails_with(r, DecodeIssue::InvalidEncoding, "GeneralName"@),
        _ => r == Ok::<Option<NameDetails>, DecodeDiagnostic>(None),
    }
}

fn other_text(oid: &str, value: &DerValue) -> (r: Result<Option<NameDetails>, DecodeDiagnostic>)
    requires
        oid@ == upn_oid() || oid@ == xmpp_oid() || oid@ == srv_oid(),
    ensures
        other_text_matches(oid@, *value, r),
{
    let expected: u32 = if str_eq(oid, "1.3.6.1.5.5.7.8.7") { 22 } else { 12 };
    if value.tag != expected {
        return Err(DecodeDiagnostic::invalid("OtherName string type"));
    }
    let text = match decoding::text(value) {
        Ok(t) => t,
        Err(d) => {
            return Err(d);
        },
    };
    if str_eq(oid, "1.3.6.1.4.1.311.20.2.3") {
        Ok(Some(NameDetails::UserPrincipalName(text)))
    } else if str_eq(oid, "1.3.6.1.5.5.7.8.7") {
        Ok(Some(NameDetails::DnsSrv(text)))
    } else {
        Ok(Some(NameDetails::XmppAddress(text)))
    }
}

fn other(oid: &str, bytes: &[u8]) -> (r: Result<Option<NameDetails>, DecodeDiagnostic>)
    requires
        oid@ == upn_oid() || oid@ == hardware_oid() || oid@ == xmpp_oid() || oid@ == srv_oid(),
    ensures
        other_matches(oid@, bytes@, r),
{
    let wrapper = match decoding::any(bytes) {
        Ok(w) => w,
        Err(d) => {
            return Err(d);
        },
    };
    if wrapper.class != 2 || wrapper.tag != 0 || !wrapper.constructed {
        return Err(DecodeDiagnostic::invalid("OtherName explicit value"));
    }
    if str_eq(oid, "1.3.6.1.5.5.7.8.4") {
        return match rustcrypto::hardware_module_name(wrapper.data.as_slice()) {
            Ok((t, s)) => Ok(Some(NameDetails::HardwareModule { type_oid: t, serial_hex: encode_hex(s.as_slice()) })),
            Err(f) => Err(der_error(f, "HardwareModuleName")),
        };
    }
    let value = match decoding::any(wrapper.data.as_slice()) {
        Ok(v) => v,
        Err(d) => {
            return Err(d);
        },
    };
    other_text(oid, &value)
}

impl GeneralName {
    /// Decode common OtherName/EDI fields from this owned value's retained bytes.
    /// Returns None for other choices or unknown OtherName OIDs. No input is retained,
    /// raw encodings stay available regardless of the result, and no value is cached.
    ///
    /// # Errors
    /// Reports invalid wrappers/strings, unsupported encodings, or backend limits.
    /// These diagnostics concern field decoding, not certificate or identity validity.
    pub fn details(&self) -> (r: Result<Option<NameDetails>, DecodeDiagnostic>)
        ensures
            name_details_match(*self, r),
    {
        match self {
            GeneralName::OtherName { oid, name: _, value_der_hex } => {
                let o = oid.as_str();
                if !(str_eq(o, "1.3.6.1.4.1.311.20.2.3") || str_eq(o, "1.3.6.1.5.5.7.8.4")
                    || str_eq(o, "1.3.6.1.5.5.7.8.5") || str_eq(o, "1.3.6.1.5.5.7.8.7")) {
                    return Ok(None);
                }
                match decode_hex(value_der_hex.as_str()) {
                    Some(bytes) => other(o, bytes.as_slice()),
                    None => Err(DecodeDiagnostic::invalid("OtherName hex")),
                }
            },
            GeneralName::EdiPartyName { constructed, content_hex } => {
                if !*constructed {
                    return Err(DecodeDiagnostic::invalid("EDI constructed bit"));
                }
                let content = match decode_hex(content_hex.as_str()) {
                    Some(c) => c,
                    None => {
                        return Err(DecodeDiagnostic::invalid("EDI hex"));
                    },
                };
                match rustcrypto::edi_party_name(content.as_slice()) {
                    Ok(Ok((a, p))) => Ok(Some(NameDetails::EdiPartyName { name_assigner: a, party_name: p })),
                    Ok(Err(f)) => Err(der_error(f, "EDI fields")),
                    Err(f) => Err(der_error(f, "EDI encoding")),
                }
            },
            GeneralName::X400Address { .. } => Err(DecodeDiagnostic::new(DecodeIssue::UnsupportedEncoding, "X.400 fields")),
            GeneralName::Malformed(_) => Err(DecodeDiagnostic::invalid("GeneralName")),
            _ => Ok(None),
        }
    }
}

} // verus!
