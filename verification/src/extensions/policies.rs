//! Certificate policies with their qualifiers' encodings retained.
use vstd::prelude::*;
use crate::decoding::exactly_framed;
use crate::oids::OidNames;
use crate::rustcrypto::{self, RawPolicy};
use crate::text::{encode_hex, hex_lower, opt_view, str_eq};

verus! {

/// One asserted certificate policy; OID recognition never implies policy compliance.
#[derive(Clone, Debug, PartialEq, Eq)]
#[non_exhaustive]
pub struct CertificatePolicy {
    /// Dotted-decimal policy identifier, including unknown/private policies.
    pub oid: String,
    /// Presentation label from the caller's OID table, when available.
    pub name: Option<String>,
    /// Qualifiers in encoded order; empty when the optional sequence is absent.
    pub qualifiers: Vec<PolicyQualifier>,
}

/// Interpretation of a policy qualifier; only CPS URI is projected.
#[derive(Clone, Debug, PartialEq, Eq)]
#[non_exhaustive]
pub enum PolicyQualifierDetails {
    /// CPS URI text. It is not validated as a URL and is never fetched.
    CpsUri(String),
    /// Unknown qualifier or an unimplemented form such as UserNotice; raw DER remains.
    Unparsed,
    /// A CPS qualifier was present but could not be decoded as IA5String.
    Malformed,
}

/// One policy qualifier with its original value representation retained.
#[derive(Clone, Debug, PartialEq, Eq)]
#[non_exhaustive]
pub struct PolicyQualifier {
    /// Dotted-decimal qualifier identifier.
    pub oid: String,
    /// Complete qualifier value DER in lowercase hex, including tag/length.
    pub value_der_hex: String,
    /// Decoded CPS URI or an explicit unparsed/malformed state.
    pub details: PolicyQualifierDetails,
}

/// The CPS pointer qualifier identifier.
pub open spec fn cps_oid() -> Seq<char> {
    "1.3.6.1.5.5.7.2.1"@
}

/// A qualifier has a value that could be re-encoded.
pub open spec fn qualifier_ok(q: (String, Option<Option<Vec<u8>>>)) -> bool {
    match q.1 {
        Some(Some(_)) => true,
        _ => false,
    }
}

/// `pq` is the projection of a qualifier with a value.
pub open spec fn qualifier_matches(pq: PolicyQualifier, q: (String, Option<Option<Vec<u8>>>)) -> bool {
    let value = q.1.unwrap().unwrap()@;
    &&& pq.oid@ == q.0@
    &&& pq.value_der_hex@ == hex_lower(value)
    &&& if q.0@ == cps_oid() {
        match rustcrypto::ia5_string_of(value) {
            Some(t) => match pq.details { PolicyQualifierDetails::CpsUri(s) => s@ == t, _ => false },
            None => pq.details == PolicyQualifierDetails::Malformed,
        }
    } else {
        pq.details == PolicyQualifierDetails::Unparsed
    }
}

/// A policy decodes: a present qualifier sequence is non-empty and every
/// qualifier carries a value.
pub open spec fn policy_ok(p: RawPolicy) -> bool {
    match p.1 {
        Some(l) => l@.len() > 0 && forall|i: int| 0 <= i < l@.len() ==> qualifier_ok(#[trigger] l@[i]),
        None => true,
    }
}

/// `cp` is the projection of a decodable policy.
pub open spec fn policy_matches(cp: CertificatePolicy, p: RawPolicy, names: OidNames) -> bool {
    &&& cp.oid@ == p.0@
    &&& opt_view(cp.name) == names.label(p.0@)
    &&& match p.1 {
        Some(l) => cp.qualifiers@.len() == l@.len() && forall|i: int| 0 <= i < l@.len() ==>
            qualifier_matches(#[trigger] cp.qualifiers@[i], l@[i]),
        None => cp.qualifiers@.len() == 0,
    }
}

/// The Certificate Policies result for `bytes`: a non-empty list of decodable
/// policies, projected in order; otherwise None.
pub open spec fn policies_match(bytes: Seq<u8>, names: OidNames, r: Option<Seq<CertificatePolicy>>) -> bool {
    match rustcrypto::certificate_policies_of(bytes) {
        Some(list) => if list@.len() > 0 && forall|i: int| 0 <= i < list@.len() ==> policy_ok(#[trigger] list@[i]) {
            match r {
                Some(v) => v.len() == list@.len() && forall|i: int| 0 <= i < list@.len() ==>
                    policy_matches(#[trigger] v[i], list@[i], names),
                None => false,
            }
        } else {
            r is None
        },
        None => r is None,
    }
}

fn qualifier(q: &(String, Option<Option<Vec<u8>>>)) -> (r: Option<PolicyQualifier>)
    ensures
        r is Some <==> qualifier_ok(*q),
        r matches Some(pq) ==> qualifier_matches(pq, *q),
{
    let value = match &q.1 {
        Some(Some(v)) => v,
        _ => {
            return None;
        },
    };
    let details = if str_eq(q.0.as_str(), "1.3.6.1.5.5.7.2.1") {
        match rustcrypto::ia5_string(value.as_slice()) {
            Some(s) => PolicyQualifierDetails::CpsUri(s),
            None => PolicyQualifierDetails::Malformed,
        }
    } else {
        PolicyQualifierDetails::Unparsed
    };
    Some(PolicyQualifier { oid: q.0.clone(), value_der_hex: encode_hex(value.as_slice()), details })
}

fn policy(p: &RawPolicy, names: &OidNames) -> (r: Option<CertificatePolicy>)
    ensures
        r is Some <==> policy_ok(*p),
        r matches Some(cp) ==> policy_matches(cp, *p, *names),
{
    let mut qualifiers: Vec<PolicyQualifier> = Vec::new();
    match &p.1 {
        Some(list) => {
            if list.len() == 0 {
                return None;
            }
            let mut i: usize = 0;
            while i < list.len()
                invariant
                    i <= list@.len(),
                    p.1 == Some(*list),
                    list@.len() > 0,
                    qualifiers@.len() == i,
                    forall|k: int| 0 <= k < i ==> qualifier_ok(#[trigger] list@[k]),
                    forall|k: int| 0 <= k < i ==> qualifier_matches(#[trigger] qualifiers@[k], list@[k]),
                decreases list@.len() - i,
            {
                match qualifier(&list[i]) {
                    Some(pq) => qualifiers.push(pq),
                    None => {
                        return None;
                    },
                }
                i = i + 1;
            }
        },
        None => {},
    }
    Some(CertificatePolicy { oid: p.0.clone(), name: names.get(p.0.as_str()), qualifiers })
}

/// Decode a Certificate Policies value, keeping each qualifier's encoding.
pub fn decode(bytes: &[u8], names: &OidNames) -> (r: Option<Vec<CertificatePolicy>>)
    ensures
        policies_match(bytes@, *names, match r { Some(v) => Some(v@), None => None }),
        r is Some ==> exactly_framed(bytes@, |b: Seq<u8>| rustcrypto::certificate_policies_of(b) is Some),
{
    let list = match rustcrypto::certificate_policies(bytes) {
        Some(l) => l,
        None => {
            return None;
        },
    };
    if list.len() == 0 {
        return None;
    }
    let mut out: Vec<CertificatePolicy> = Vec::new();
    let mut i: usize = 0;
    while i < list.len()
        invariant
            i <= list@.len(),
            list@.len() > 0,
            rustcrypto::certificate_policies_of(bytes@) == Some(list),
            out@.len() == i,
            forall|k: int| 0 <= k < i ==> policy_ok(#[trigger] list@[k]),
            forall|k: int| 0 <= k < i ==> policy_matches(#[trigger] out@[k], list@[k], *names),
        decreases list@.len() - i,
    {
        match policy(&list[i], names) {
            Some(cp) => out.push(cp),
            None => {
                return None;
            },
        }
        i = i + 1;
    }
    Some(out)
}

} // verus!
