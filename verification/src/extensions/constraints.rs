//! Name constraints, with IP address/mask bases kept apart from other names.
use vstd::prelude::*;
use crate::backend;
use crate::decoding::exactly_framed;
use crate::extensions::{general_name, general_name_matches, GeneralName};
use crate::extensions::locations::{crypto_name_ok, crypto_name_raw};
use crate::ip::{format_ipv4, format_ipv6, ipv4_text, ipv6_text};
use crate::oids::OidNames;
use crate::rustcrypto::{self, RawConstraintBase, RawSubtree};
use crate::text::{encode_hex, hex_lower};

verus! {

/// A name-constraint base. IP constraints encode an address and mask, not a host.
#[derive(Clone, Debug, PartialEq, Eq)]
#[non_exhaustive]
pub enum ConstraintName {
    /// A non-IP GeneralName, interpreted as a constraint rather than an identity.
    Name(GeneralName),
    /// IPv4/IPv6 address and mask in textual notation; mask contiguity is not enforced.
    Ip {
        /// Address as encoded; host bits are not cleared.
        address: String,
        /// Mask as encoded; no CIDR prefix is inferred.
        mask: String,
    },
    /// IP constraint with an invalid length, retaining its octets in lowercase hex.
    MalformedIp(String),
}

/// One permitted/excluded subtree. This model does not evaluate name matching.
#[derive(Clone, Debug, PartialEq, Eq)]
#[non_exhaustive]
pub struct GeneralSubtree {
    /// Name or address/mask base.
    pub base: ConstraintName,
    /// Encoded minimum distance, defaulting to zero. Nonzero values remain visible.
    pub minimum: u32,
    /// Optional maximum distance; no RFC 5280 policy is enforced.
    pub maximum: Option<u32>,
}

/// Encoded name constraints, with absent and present subtrees distinguished.
#[derive(Clone, Debug, PartialEq, Eq)]
#[non_exhaustive]
pub struct NameConstraints {
    /// Permitted subtrees in encoded order, if present.
    pub permitted_subtrees: Option<Vec<GeneralSubtree>>,
    /// Excluded subtrees in encoded order, if present.
    pub excluded_subtrees: Option<Vec<GeneralSubtree>>,
}

/// A subtree decodes: an IP base always does; another name must parse again.
pub open spec fn subtree_ok(t: RawSubtree) -> bool {
    match t.base {
        RawConstraintBase::Ip(_) => true,
        RawConstraintBase::Encoded(e) => crypto_name_ok(e),
    }
}

/// `c` is the projection of a decodable base: eight IP octets are an IPv4
/// address and mask, thirty-two an IPv6 address and mask, other lengths stay hex.
pub open spec fn base_matches(c: ConstraintName, base: RawConstraintBase, names: OidNames) -> bool {
    match base {
        RawConstraintBase::Ip(b) => if b@.len() == 8 {
            match c {
                ConstraintName::Ip { address, mask } =>
                    address@ == ipv4_text(b@.subrange(0, 4)) && mask@ == ipv4_text(b@.subrange(4, 8)),
                _ => false,
            }
        } else if b@.len() == 32 {
            match c {
                ConstraintName::Ip { address, mask } =>
                    address@ == ipv6_text(b@.subrange(0, 16)) && mask@ == ipv6_text(b@.subrange(16, 32)),
                _ => false,
            }
        } else {
            match c { ConstraintName::MalformedIp(h) => h@ == hex_lower(b@), _ => false }
        },
        RawConstraintBase::Encoded(e) => match c {
            ConstraintName::Name(g) => general_name_matches(g, crypto_name_raw(e), names),
            _ => false,
        },
    }
}

/// A present subtree list decodes when it is non-empty and every subtree does.
pub open spec fn subtrees_ok(l: Option<Vec<RawSubtree>>) -> bool {
    match l {
        Some(l) => l@.len() > 0 && forall|i: int| 0 <= i < l@.len() ==> subtree_ok(#[trigger] l@[i]),
        None => true,
    }
}

/// The owned subtrees are the projections of the decoded ones, in order.
pub open spec fn subtrees_match(v: Option<Vec<GeneralSubtree>>, l: Option<Vec<RawSubtree>>, names: OidNames) -> bool {
    match (v, l) {
        (Some(v), Some(l)) => v@.len() == l@.len() && forall|i: int| 0 <= i < l@.len() ==> {
            &&& base_matches((#[trigger] v@[i]).base, l@[i].base, names)
            &&& v@[i].minimum == l@[i].minimum
            &&& v@[i].maximum == l@[i].maximum
        },
        (None, None) => true,
        _ => false,
    }
}

/// The Name Constraints result for `bytes`: at least one subtree list present,
/// every present list decodable; otherwise None.
pub open spec fn constraints_match(bytes: Seq<u8>, names: OidNames, r: Option<NameConstraints>) -> bool {
    match rustcrypto::name_constraints_of(bytes) {
        Ok((p, e)) => if (p is Some || e is Some) && subtrees_ok(p) && subtrees_ok(e) {
            match r {
                Some(c) => subtrees_match(c.permitted_subtrees, p, names) && subtrees_match(c.excluded_subtrees, e, names),
                None => false,
            }
        } else {
            r is None
        },
        Err(_) => r is None,
    }
}

fn base(b: &RawConstraintBase, names: &OidNames) -> (r: Option<ConstraintName>)
    ensures
        r is Some <==> subtree_ok(RawSubtree { base: *b, minimum: 0, maximum: None }),
        r matches Some(c) ==> base_matches(c, *b, *names),
{
    match b {
        RawConstraintBase::Ip(octets) => {
            let s = octets.as_slice();
            if s.len() == 8 {
                let (a, m) = s.split_at(4);
                Some(ConstraintName::Ip { address: format_ipv4(a), mask: format_ipv4(m) })
            } else if s.len() == 32 {
                let (a, m) = s.split_at(16);
                Some(ConstraintName::Ip { address: format_ipv6(a), mask: format_ipv6(m) })
            } else {
                Some(ConstraintName::MalformedIp(encode_hex(s)))
            }
        },
        RawConstraintBase::Encoded(e) => {
            let der = match e {
                Some(d) => d,
                None => {
                    return None;
                },
            };
            match backend::general_name(der.as_slice()) {
                Some((raw, rest)) => {
                    if rest != 0 {
                        return None;
                    }
                    Some(ConstraintName::Name(general_name(&raw, names)))
                },
                None => None,
            }
        },
    }
}

fn subtrees(l: &Option<Vec<RawSubtree>>, names: &OidNames) -> (r: Option<Option<Vec<GeneralSubtree>>>)
    ensures
        r is Some <==> subtrees_ok(*l),
        r matches Some(v) ==> subtrees_match(v, *l, *names),
{
    let list = match l {
        Some(list) => list,
        None => {
            return Some(None);
        },
    };
    if list.len() == 0 {
        return None;
    }
    let mut out: Vec<GeneralSubtree> = Vec::new();
    let mut i: usize = 0;
    while i < list.len()
        invariant
            i <= list@.len(),
            *l == Some(*list),
            list@.len() > 0,
            out@.len() == i,
            forall|k: int| 0 <= k < i ==> subtree_ok(#[trigger] list@[k]),
            forall|k: int| 0 <= k < i ==> {
                &&& base_matches((#[trigger] out@[k]).base, list@[k].base, *names)
                &&& out@[k].minimum == list@[k].minimum
                &&& out@[k].maximum == list@[k].maximum
            },
        decreases list@.len() - i,
    {
        let t = &list[i];
        match base(&t.base, names) {
            Some(c) => out.push(GeneralSubtree { base: c, minimum: t.minimum, maximum: t.maximum }),
            None => {
                return None;
            },
        }
        i = i + 1;
    }
    Some(Some(out))
}

/// Decode a Name Constraints value.
pub fn decode(bytes: &[u8], names: &OidNames) -> (r: Option<NameConstraints>)
    ensures
        constraints_match(bytes@, *names, r),
        r is Some ==> exactly_framed(bytes@, |b: Seq<u8>| rustcrypto::name_constraints_of(b) is Ok),
{
    let (p, e) = match rustcrypto::name_constraints(bytes) {
        Ok(v) => v,
        Err(_) => {
            return None;
        },
    };
    if p.is_none() && e.is_none() {
        return None;
    }
    let permitted = match subtrees(&p, names) {
        Some(v) => v,
        None => {
            return None;
        },
    };
    let excluded = match subtrees(&e, names) {
        Some(v) => v,
        None => {
            return None;
        },
    };
    Some(NameConstraints { permitted_subtrees: permitted, excluded_subtrees: excluded })
}

} // verus!
