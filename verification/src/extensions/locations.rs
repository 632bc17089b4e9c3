//! Key identifiers, access descriptions and CRL distribution points.
use vstd::prelude::*;
use crate::backend::{self, RawAuthorityKey, RawGeneralName};
use crate::decoding::exactly_framed;
use crate::extensions::{general_name, general_name_matches, general_names, general_names_match, GeneralName};
use crate::names::{attributes_match, inspect_attributes, NameAttribute};
use crate::oids::OidNames;
use crate::rustcrypto::{self, RawDistributionPoint, RawPointName};
use crate::text::{encode_hex, hex_lower, opt_view};

verus! {

/// Authority key identifier components, as asserted by the certificate.
/// Matching these fields does not establish an issuer relationship or trust.
#[derive(Clone, Debug, PartialEq, Eq)]
#[non_exhaustive]
pub struct AuthorityKeyIdentifier {
    /// Key identifier octets in lowercase hex, if present.
    pub key_identifier_hex: Option<String>,
    /// Issuer GeneralNames, if present, in encoded order.
    pub authority_cert_issuer: Option<Vec<GeneralName>>,
    /// Serial INTEGER content in lowercase hex, preserving sign padding.
    pub authority_cert_serial_hex: Option<String>,
}

/// An AIA/SIA access method and its location. This library never retrieves it.
#[derive(Clone, Debug, PartialEq, Eq)]
#[non_exhaustive]
pub struct AccessDescription {
    /// Dotted-decimal method OID, including unrecognized methods.
    pub method_oid: String,
    /// Presentation label from the caller's OID table, when available.
    pub method_name: Option<String>,
    /// Encoded access location; not necessarily a URI or safe to fetch.
    pub location: GeneralName,
}

/// A CRL distribution-point name; relative RDNs are not resolved automatically.
#[derive(Clone, Debug, PartialEq, Eq)]
#[non_exhaustive]
pub enum DistributionPointName {
    /// Full GeneralNames in encoded order.
    FullName(Vec<GeneralName>),
    /// One RDN relative to the CRL issuer, retaining all attributes.
    RelativeName(Vec<NameAttribute>),
}

/// A CRL/freshest-CRL distribution point, without revocation processing or I/O.
#[derive(Clone, Debug, PartialEq, Eq)]
#[non_exhaustive]
pub struct DistributionPoint {
    /// Encoded distribution-point name, when present.
    pub name: Option<DistributionPointName>,
    /// ReasonFlags as a bit mask: bit 1 keyCompromise, 2 cACompromise,
    /// 3 affiliationChanged, 4 superseded, 5 cessationOfOperation,
    /// 6 certificateHold, 7 privilegeWithdrawn, 8 aACompromise; bit 0 is unused.
    /// None means no restriction was encoded. No revocation policy is inferred.
    pub reason_flags: Option<u16>,
    /// CRL issuer GeneralNames, if present.
    pub crl_issuer: Option<Vec<GeneralName>>,
}

/// Optional octets as optional lowercase hex.
pub open spec fn opt_hex(o: Option<Vec<u8>>) -> Option<Seq<char>> {
    match o {
        Some(v) => Some(hex_lower(v@)),
        None => None,
    }
}

/// Optional octets encoded as optional lowercase hex.
pub fn encode_opt_hex(o: &Option<Vec<u8>>) -> (r: Option<String>)
    ensures
        opt_view(r) == opt_hex(*o),
{
    match o {
        Some(v) => Some(encode_hex(v.as_slice())),
        None => None,
    }
}

/// The owned AKI fields match the parsed ones.
pub open spec fn authority_key_fields_match(k: AuthorityKeyIdentifier, a: RawAuthorityKey, names: OidNames) -> bool {
    &&& opt_view(k.key_identifier_hex) == opt_hex(a.key_identifier)
    &&& opt_view(k.authority_cert_serial_hex) == opt_hex(a.serial)
    &&& match (k.authority_cert_issuer, a.issuer) {
        (Some(v), Some(l)) => general_names_match(v@, l@, names),
        (None, None) => true,
        _ => false,
    }
}

/// The AKI result: the value must pass the strict schema check and parse
/// completely; then its fields are projected.
pub open spec fn authority_key_matches(bytes: Seq<u8>, names: OidNames, r: Option<crate::extensions::ExtensionDetails>) -> bool {
    if !rustcrypto::authority_key_schema_of(bytes) {
        r is None
    } else {
        match backend::authority_key_identifier_of(bytes) {
            Some(a) => if a.remaining == 0 {
                match r {
                    Some(crate::extensions::ExtensionDetails::AuthorityKeyIdentifier(k)) => authority_key_fields_match(k, a, names),
                    _ => false,
                }
            } else {
                r is None
            },
            None => r is None,
        }
    }
}

/// Decode an Authority Key Identifier value.
pub fn authority_key(bytes: &[u8], names: &OidNames) -> (r: Option<crate::extensions::ExtensionDetails>)
    ensures
        authority_key_matches(bytes@, *names, r),
        r is Some ==> exactly_framed(bytes@, |b: Seq<u8>| rustcrypto::authority_key_schema_of(b)),
{
    if !rustcrypto::authority_key_schema(bytes) {
        return None;
    }
    let a = match backend::authority_key_identifier(bytes) {
        Some(a) => a,
        None => {
            return None;
        },
    };
    if a.remaining != 0 {
        return None;
    }
    let issuer = match &a.issuer {
        Some(l) => Some(general_names(l, names)),
        None => None,
    };
    Some(crate::extensions::ExtensionDetails::AuthorityKeyIdentifier(AuthorityKeyIdentifier {
        key_identifier_hex: encode_opt_hex(&a.key_identifier),
        authority_cert_issuer: issuer,
        authority_cert_serial_hex: encode_opt_hex(&a.serial),
    }))
}

/// The access descriptions match the parsed methods and locations, in order.
pub open spec fn access_match(v: Seq<AccessDescription>, items: Seq<(String, RawGeneralName)>, names: OidNames) -> bool {
    v.len() == items.len() && forall|i: int| 0 <= i < items.len() ==> {
        &&& (#[trigger] v[i]).method_oid@ == items[i].0@
        &&& opt_view(v[i].method_name) == names.label(items[i].0@)
        &&& general_name_matches(v[i].location, items[i].1, names)
    }
}

/// Project access descriptions in order, labelling methods from the caller's table.
pub fn access(items: &Vec<(String, RawGeneralName)>, names: &OidNames) -> (r: Vec<AccessDescription>)
    ensures
        access_match(r@, items@, *names),
{
    let mut out: Vec<AccessDescription> = Vec::new();
    let mut i: usize = 0;
    while i < items.len()
        invariant
            i <= items@.len(),
            out@.len() == i,
            forall|k: int| 0 <= k < i ==> {
                &&& (#[trigger] out@[k]).method_oid@ == items@[k].0@
                &&& opt_view(out@[k].method_name) == names.label(items@[k].0@)
                &&& general_name_matches(out@[k].location, items@[k].1, *names)
            },
        decreases items@.len() - i,
    {
        let item = &items[i];
        out.push(AccessDescription {
            method_oid: item.0.clone(),
            method_name: names.get(item.0.as_str()),
            location: general_name(&item.1, names),
        });
        i = i + 1;
    }
    out
}

/// An access result: it passes the strict schema check and parses completely
/// into a non-empty list, whose projection `r` is; otherwise `r` is None.
pub open spec fn access_result(schema: bool, parsed: Option<(Vec<(String, RawGeneralName)>, usize)>, names: OidNames, r: Option<Seq<AccessDescription>>) -> bool {
    match parsed {
        Some((items, rest)) => if schema && rest == 0 && items@.len() > 0 {
            match r { Some(v) => access_match(v, items@, names), None => false }
        } else {
            r is None
        },
        None => r is None,
    }
}

/// The Authority Information Access result for `bytes`.
pub open spec fn authority_access_matches(bytes: Seq<u8>, names: OidNames, r: Option<Seq<AccessDescription>>) -> bool {
    access_result(rustcrypto::authority_access_schema_of(bytes), backend::authority_info_access_of(bytes), names, r)
}

/// The Subject Information Access result for `bytes`.
pub open spec fn subject_access_matches(bytes: Seq<u8>, names: OidNames, r: Option<Seq<AccessDescription>>) -> bool {
    access_result(rustcrypto::subject_access_schema_of(bytes), backend::subject_info_access_of(bytes), names, r)
}

fn access_checked(schema: bool, parsed: Option<(Vec<(String, RawGeneralName)>, usize)>, names: &OidNames) -> (r: Option<Vec<AccessDescription>>)
    ensures
        access_result(schema, parsed, *names, match r { Some(v) => Some(v@), None => None }),
{
    match parsed {
        Some((items, rest)) => {
            if schema && rest == 0 && items.len() > 0 {
                Some(access(&items, names))
            } else {
                None
            }
        },
        None => None,
    }
}

/// Decode an Authority Information Access value.
pub fn authority_access(bytes: &[u8], names: &OidNames) -> (r: Option<Vec<AccessDescription>>)
    ensures
        authority_access_matches(bytes@, *names, match r { Some(v) => Some(v@), None => None }),
        r is Some ==> exactly_framed(bytes@, |b: Seq<u8>| rustcrypto::authority_access_schema_of(b)),
{
    access_checked(rustcrypto::authority_access_schema(bytes), backend::authority_info_access(bytes), names)
}

/// Decode a Subject Information Access value.
pub fn subject_access(bytes: &[u8], names: &OidNames) -> (r: Option<Vec<AccessDescription>>)
    ensures
        subject_access_matches(bytes@, *names, match r { Some(v) => Some(v@), None => None }),
        r is Some ==> exactly_framed(bytes@, |b: Seq<u8>| rustcrypto::subject_access_schema_of(b)),
{
    access_checked(rustcrypto::subject_access_schema(bytes), backend::subject_info_access(bytes), names)
}

/// A re-encoded GeneralName that the backend parses completely.
pub open spec fn crypto_name_ok(item: Option<Vec<u8>>) -> bool {
    match item {
        Some(der) => match backend::general_name_of(der@) {
            Some((_, rest)) => rest == 0,
            None => false,
        },
        None => false,
    }
}

/// The backend's parse of a re-encoded GeneralName.
pub open spec fn crypto_name_raw(item: Option<Vec<u8>>) -> RawGeneralName {
    backend::general_name_of(item.unwrap()@).unwrap().0
}

/// Every re-encoded name parses, and `v` holds their projections in order;
/// otherwise `v` is None.
pub open spec fn crypto_names_match(v: Option<Seq<GeneralName>>, list: Seq<Option<Vec<u8>>>, names: OidNames) -> bool {
    if forall|i: int| 0 <= i < list.len() ==> crypto_name_ok(#[trigger] list[i]) {
        match v {
            Some(s) => s.len() == list.len() && forall|i: int| 0 <= i < list.len() ==>
                general_name_matches(#[trigger] s[i], crypto_name_raw(list[i]), names),
            None => false,
        }
    } else {
        v is None
    }
}

/// Project GeneralNames that another decoder re-encoded: each is parsed again by
/// the backend and must be consumed completely.
pub fn crypto_names(list: &Vec<Option<Vec<u8>>>, names: &OidNames) -> (r: Option<Vec<GeneralName>>)
    ensures
        crypto_names_match(match r { Some(v) => Some(v@), None => None }, list@, *names),
{
    let mut out: Vec<GeneralName> = Vec::new();
    let mut i: usize = 0;
    while i < list.len()
        invariant
            i <= list@.len(),
            out@.len() == i,
            forall|k: int| 0 <= k < i ==> crypto_name_ok(#[trigger] list@[k]),
            forall|k: int| 0 <= k < i ==> general_name_matches(#[trigger] out@[k], crypto_name_raw(list@[k]), *names),
        decreases list@.len() - i,
    {
        let der = match &list[i] {
            Some(d) => d,
            None => {
                assert(!crypto_name_ok(list@[i as int]));
                return None;
            },
        };
        match backend::general_name(der.as_slice()) {
            Some((raw, rest)) => {
                if rest != 0 {
                    assert(!crypto_name_ok(list@[i as int]));
                    return None;
                }
                out.push(general_name(&raw, names));
            },
            None => {
                assert(!crypto_name_ok(list@[i as int]));
                return None;
            },
        }
        i = i + 1;
    }
    Some(out)
}

/// A re-encoded relative name that the backend parses completely.
pub open spec fn relative_ok(item: Option<Vec<u8>>) -> bool {
    match item {
        Some(der) => match backend::relative_name_of(der@) {
            Some((_, rest)) => rest == 0,
            None => false,
        },
        None => false,
    }
}

/// Every nested name of a distribution point decodes.
pub open spec fn point_ok(p: RawDistributionPoint) -> bool {
    &&& match p.name {
        Some(RawPointName::Full(l)) => forall|i: int| 0 <= i < l@.len() ==> crypto_name_ok(#[trigger] l@[i]),
        Some(RawPointName::Relative(der)) => relative_ok(der),
        None => true,
    }
    &&& match p.crl_issuer {
        Some(l) => forall|i: int| 0 <= i < l@.len() ==> crypto_name_ok(#[trigger] l@[i]),
        None => true,
    }
}

/// `d` is the projection of a decodable distribution point.
pub open spec fn point_matches(d: DistributionPoint, p: RawDistributionPoint, names: OidNames) -> bool {
    &&& d.reason_flags == p.reasons
    &&& match (d.name, p.name) {
        (Some(DistributionPointName::FullName(v)), Some(RawPointName::Full(l))) => crypto_names_match(Some(v@), l@, names),
        (Some(DistributionPointName::RelativeName(v)), Some(RawPointName::Relative(der))) =>
            attributes_match(v@, backend::relative_name_of(der.unwrap()@).unwrap().0@, names),
        (None, None) => true,
        _ => false,
    }
    &&& match (d.crl_issuer, p.crl_issuer) {
        (Some(v), Some(l)) => crypto_names_match(Some(v@), l@, names),
        (None, None) => true,
        _ => false,
    }
}

/// The distribution-point result for `bytes`: a non-empty list whose every nested
/// name decodes, projected in order; otherwise None.
pub open spec fn distribution_matches(bytes: Seq<u8>, names: OidNames, r: Option<Seq<DistributionPoint>>) -> bool {
    match rustcrypto::distribution_points_of(bytes) {
        Some(points) => if points@.len() > 0 && forall|i: int| 0 <= i < points@.len() ==> point_ok(#[trigger] points@[i]) {
            match r {
                Some(v) => v.len() == points@.len() && forall|i: int| 0 <= i < points@.len() ==>
                    point_matches(#[trigger] v[i], points@[i], names),
                None => false,
            }
        } else {
            r is None
        },
        None => r is None,
    }
}

fn relative(der: &Option<Vec<u8>>, names: &OidNames) -> (r: Option<Vec<NameAttribute>>)
    ensures
        r is Some <==> relative_ok(*der),
        r matches Some(v) ==> attributes_match(v@, backend::relative_name_of(der.unwrap()@).unwrap().0@, *names),
{
    let d = match der {
        Some(d) => d,
        None => {
            return None;
        },
    };
    match backend::relative_name(d.as_slice()) {
        Some((attrs, rest)) => {
            if rest != 0 {
                return None;
            }
            Some(inspect_attributes(&attrs, names))
        },
        None => None,
    }
}

fn point(p: &RawDistributionPoint, names: &OidNames) -> (r: Option<DistributionPoint>)
    ensures
        r is Some <==> point_ok(*p),
        r matches Some(d) ==> point_matches(d, *p, *names),
{
    let name = match &p.name {
        Some(RawPointName::Full(l)) => match crypto_names(l, names) {
            Some(v) => Some(DistributionPointName::FullName(v)),
            None => {
                return None;
            },
        },
        Some(RawPointName::Relative(der)) => match relative(der, names) {
            Some(v) => Some(DistributionPointName::RelativeName(v)),
            None => {
                return None;
            },
        },
        None => None,
    };
    let crl_issuer = match &p.crl_issuer {
        Some(l) => match crypto_names(l, names) {
            Some(v) => Some(v),
            None => {
                return None;
            },
        },
        None => None,
    };
    Some(DistributionPoint { name, reason_flags: p.reasons, crl_issuer })
}

/// Decode a CRL Distribution Points (or Freshest CRL) value. Relative names are
/// re-encoded and parsed by the backend; every nested name must decode.
pub fn distribution(bytes: &[u8], names: &OidNames) -> (r: Option<Vec<DistributionPoint>>)
    ensures
        distribution_matches(bytes@, *names, match r { Some(v) => Some(v@), None => None }),
        r is Some ==> exactly_framed(bytes@, |b: Seq<u8>| rustcrypto::distribution_points_of(b) is Some),
{
    let points = match rustcrypto::distribution_points(bytes) {
        Some(p) => p,
        None => {
            return None;
        },
    };
    if points.len() == 0 {
        return None;
    }
    let mut out: Vec<DistributionPoint> = Vec::new();
    let mut i: usize = 0;
    while i < points.len()
        invariant
            i <= points@.len(),
            points@.len() > 0,
            rustcrypto::distribution_points_of(bytes@) == Some(points),
            out@.len() == i,
            forall|k: int| 0 <= k < i ==> point_ok(#[trigger] points@[k]),
            forall|k: int| 0 <= k < i ==> point_matches(#[trigger] out@[k], points@[k], *names),
        decreases points@.len() - i,
    {
        match point(&points[i], names) {
            Some(d) => out.push(d),
            None => {
                return None;
            },
        }
        i = i + 1;
    }
    Some(out)
}

} // verus!
