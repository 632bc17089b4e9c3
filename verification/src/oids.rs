//! Caller-owned OID presentation names and canonical dotted-decimal syntax.
use vstd::prelude::*;
use std::sync::Arc;
use oid_registry::OidRegistry;
use crate::backend;
use crate::text::{opt_view, owned, str_eq};

verus! {

/// A name lookup received an invalid or noncanonical dotted-decimal OID.
#[derive(Clone, Copy, Debug, PartialEq, Eq, Structural)]
pub struct InvalidOid;

/// Index of the first '.' in `s`, or its length when there is none.
pub open spec fn first_dot(s: Seq<char>) -> int
    decreases s.len(),
{
    if s.len() == 0 {
        0
    } else if s[0] == '.' {
        0
    } else {
        1 + first_dot(s.drop_first())
    }
}

/// The text before the first '.'.
pub open spec fn first_arc(s: Seq<char>) -> Seq<char> {
    s.take(first_dot(s))
}

/// The text between the first and second '.', or to the end; None without a '.'.
pub open spec fn second_arc(s: Seq<char>) -> Option<Seq<char>> {
    let i = first_dot(s);
    if i < s.len() {
        let rest = s.skip(i + 1);
        Some(rest.take(first_dot(rest)))
    } else {
        None
    }
}

/// A decimal digit character.
pub open spec fn is_digit(c: char) -> bool {
    '0' <= c && c <= '9'
}

/// The value of a string of decimal digits.
pub open spec fn decimal_value(d: Seq<char>) -> int
    decreases d.len(),
{
    if d.len() == 0 {
        0
    } else {
        decimal_value(d.drop_last()) * 10 + (d.last() as int - '0' as int)
    }
}

/// `u64` text as Rust's integer parsing reads it: an optional '+' and at least
/// one decimal digit, with a value that fits.
pub open spec fn parse_u64_text(t: Seq<char>) -> Option<u64> {
    if sign_stripped(t).len() > 0 && all_digits(sign_stripped(t))
        && decimal_value(sign_stripped(t)) <= u64::MAX {
        Some(decimal_value(sign_stripped(t)) as u64)
    } else {
        None
    }
}

/// The text after an optional leading '+'.
pub open spec fn sign_stripped(t: Seq<char>) -> Seq<char> {
    if t.len() > 0 && t[0] == '+' { t.drop_first() } else { t }
}

/// Every character is a decimal digit.
pub open spec fn all_digits(d: Seq<char>) -> bool {
    forall|i: int| 0 <= i < d.len() ==> is_digit(#[trigger] d[i])
}

/// The first arc is 0, 1 or 2, a second arc is present and parses, and it is
/// below 40 unless the first arc is 2.
pub open spec fn leading_arcs_valid(s: Seq<char>) -> bool {
    let f = first_arc(s);
    &&& second_arc(s) is Some
    &&& parse_u64_text(second_arc(s).unwrap()) is Some
    &&& (f == seq!['0'] || f == seq!['1'] || f == seq!['2'])
    &&& !(f != seq!['2'] && parse_u64_text(second_arc(s).unwrap()).unwrap() >= 40)
}

/// Canonical decimal text: digits only, without a leading zero unless it is "0".
pub open spec fn canonical_decimal(t: Seq<char>) -> bool {
    t.len() > 0 && all_digits(t) && (t[0] != '0' || t.len() == 1)
}

/// From `s` on, every dot-separated arc is canonical decimal below 2^63.
pub open spec fn later_arcs_canonical(s: Seq<char>) -> bool
    decreases s.len(),
{
    let d = first_dot(s);
    let arc = s.take(d);
    &&& canonical_decimal(arc)
    &&& decimal_value(arc) < 0x8000_0000_0000_0000
    &&& if 0 <= d < s.len() {
        later_arcs_canonical(s.skip(d + 1))
    } else {
        true
    }
}

/// Dotted text that the OID parser prints back unchanged: at least two arcs,
/// all in canonical decimal, the second below 40 and those after it below 2^63.
pub open spec fn round_trips(s: Seq<char>) -> bool {
    let i = first_dot(s);
    let rest = s.skip(i + 1);
    let j = first_dot(rest);
    let second = rest.take(j);
    &&& i < s.len()
    &&& canonical_decimal(first_arc(s))
    &&& canonical_decimal(second)
    &&& decimal_value(second) < 40
    &&& (j < rest.len() ==> later_arcs_canonical(rest.skip(j + 1)))
}

/// Canonical dotted-decimal OID text: valid leading arcs, and the OID parser
/// prints the text back unchanged.
pub open spec fn canonical_oid_text(s: Seq<char>) -> bool {
    leading_arcs_valid(s) && round_trips(s)
}

proof fn lemma_first_dot(s: Seq<char>, i: int)
    requires
        0 <= i <= s.len(),
        forall|k: int| 0 <= k < i ==> s[k] != '.',
        i == s.len() || s[i] == '.',
    ensures
        first_dot(s) == i,
    decreases i,
{
    if i > 0 {
        lemma_first_dot(s.drop_first(), i - 1);
    }
}

proof fn lemma_first_dot_bound(s: Seq<char>)
    ensures
        0 <= first_dot(s) <= s.len(),
    decreases s.len(),
{
    if s.len() > 0 && s[0] != '.' {
        lemma_first_dot_bound(s.drop_first());
    }
}

proof fn lemma_decimal_grows(d: Seq<char>, k: int)
    requires
        0 <= k <= d.len(),
        forall|i: int| 0 <= i < d.len() ==> is_digit(#[trigger] d[i]),
    ensures
        decimal_value(d) >= decimal_value(d.take(k)),
        decimal_value(d.take(k)) >= 0,
    decreases d.len() - k,
{
    if k < d.len() {
        lemma_decimal_grows(d, k + 1);
        assert(d.take(k + 1).drop_last() =~= d.take(k));
        lemma_decimal_nonneg(d.take(k));
    } else {
        assert(d.take(k) =~= d);
        lemma_decimal_nonneg(d);
    }
}

proof fn lemma_decimal_nonneg(d: Seq<char>)
    requires
        forall|i: int| 0 <= i < d.len() ==> is_digit(#[trigger] d[i]),
    ensures
        decimal_value(d) >= 0,
    decreases d.len(),
{
    if d.len() > 0 {
        lemma_decimal_nonneg(d.drop_last());
    }
}

/// Index of the first '.' at or after `start` in ASCII text.
fn find_dot(bytes: &[u8], start: usize, Ghost(s): Ghost<Seq<char>>) -> (r: usize)
    requires
        start <= bytes@.len(),
        bytes@.len() == s.len(),
        forall|k: int| 0 <= k < s.len() ==> #[trigger] s[k] == bytes@[k] as char,
    ensures
        start <= r <= bytes@.len(),
        first_dot(s.skip(start as int)) == r - start,
{
    let mut i = start;
    while i < bytes.len() && bytes[i] != 46
        invariant
            start <= i <= bytes@.len(),
            bytes@.len() == s.len(),
            forall|k: int| 0 <= k < s.len() ==> #[trigger] s[k] == bytes@[k] as char,
            forall|k: int| start <= k < i ==> s[k] != '.',
        decreases bytes@.len() - i,
    {
        i = i + 1;
    }
    proof {
        let t = s.skip(start as int);
        assert forall|k: int| 0 <= k < i - start implies t[k] != '.' by {
            assert(t[k] == s[start + k]);
        }
        if i < bytes@.len() {
            assert(t[i - start] == s[i as int]);
        }
        lemma_first_dot(t, i - start);
    }
    i
}

/// Parse `u64` text the way Rust's integer parsing does.
fn parse_u64(bytes: &[u8], start: usize, end: usize, Ghost(t): Ghost<Seq<char>>) -> (r: Option<u64>)
    requires
        start <= end <= bytes@.len(),
        t.len() == end - start,
        forall|k: int| 0 <= k < t.len() ==> #[trigger] t[k] == bytes@[start + k] as char,
    ensures
        r == parse_u64_text(t),
{
    let mut i = start;
    if i < end && bytes[i] == 43 {
        i = i + 1;
    }
    let ghost d = sign_stripped(t);
    assert(d.len() == end - i);
    assert forall|k: int| 0 <= k < d.len() implies #[trigger] d[k] == bytes@[i + k] as char by {
        if t.len() > 0 && t[0] == '+' {
            assert(d[k] == t[k + 1]);
        }
    }
    if i == end {
        return None;
    }
    let first = i;
    let mut value: u64 = 0;
    while i < end
        invariant
            first <= i <= end <= bytes@.len(),
            d.len() == end - first,
            forall|k: int| 0 <= k < d.len() ==> #[trigger] d[k] == bytes@[first + k] as char,
            forall|k: int| 0 <= k < i - first ==> is_digit(#[trigger] d[k]),
            value as int == decimal_value(d.take(i - first)),
            d == sign_stripped(t),
            d.len() > 0,
        decreases end - i,
    {
        let b = bytes[i];
        if b < 48 || b > 57 {
            assert(d[i - first] == bytes@[i as int] as char);
            assert(!is_digit(d[i - first]));
            assert(!(forall|j: int| 0 <= j < d.len() ==> is_digit(#[trigger] d[j])));
            assert(parse_u64_text(t) is None);
            return None;
        }
        let digit = (b - 48) as u64;
        proof {
            assert(d.take(i - first + 1).drop_last() =~= d.take(i - first));
            assert(d.take(i - first + 1).last() == d[i - first]);
        }
        if value > (u64::MAX - digit) / 10 {
            proof {
                assert(value * 10 + digit > u64::MAX) by (nonlinear_arith)
                    requires value > (u64::MAX - digit) / 10, digit <= 9;
                let k = i - first + 1;
                assert(d[i - first] == bytes@[i as int] as char);
                assert(decimal_value(d.take(k)) == value * 10 + digit);
                if forall|j: int| 0 <= j < d.len() ==> is_digit(#[trigger] d[j]) {
                    lemma_decimal_grows(d, k);
                    assert(decimal_value(d) > u64::MAX);
                }
                assert(parse_u64_text(t) is None);
            }
            return None;
        }
        value = value * 10 + digit;
        i = i + 1;
    }
    assert(d.take(d.len() as int) =~= d);
    Some(value)
}

/// Check canonical dotted-decimal OID syntax, including the first two arcs.
pub fn canonical_oid(oid: &str) -> (r: Result<(), InvalidOid>)
    ensures
        r is Ok <==> canonical_oid_text(oid@),
        r is Ok ==> backend::oid_reformat_of(oid@) == Some(oid@),
{
    broadcast use vstd::string::is_ascii_spec_bytes;

    match backend::oid_reformat(oid) {
        Some(t) => {
            if !str_eq(t.as_str(), oid) {
                return Err(InvalidOid);
            }
        },
        None => {
            return Err(InvalidOid);
        },
    }
    let bytes = oid.as_bytes();
    let ghost s = oid@;
    proof {
        assert(vstd::string::is_ascii(oid));
        assert(bytes@ =~= Seq::new(s.len(), |i| s.index(i) as u8));
        assert forall|k: int| 0 <= k < s.len() implies #[trigger] s[k] == bytes@[k] as char by {
            assert('\0' <= s[k] <= '\u{7f}');
        }
    }
    let dot = find_dot(bytes, 0, Ghost(s));
    proof {
        assert(s.skip(0) =~= s);
    }
    if dot == bytes.len() {
        return Err(InvalidOid);
    }
    let end = find_dot(bytes, dot + 1, Ghost(s));
    let ghost second = s.skip(dot + 1).take(end - dot - 1);
    proof {
        assert(second_arc(s) == Some(second));
    }
    let value = parse_u64(bytes, dot + 1, end, Ghost(second));
    let v = match value {
        None => {
            return Err(InvalidOid);
        },
        Some(v) => v,
    };
    let f = bytes[0];
    let one_char = dot == 1;
    proof {
        assert(first_arc(s) == s.take(dot as int));
        if one_char {
            assert(first_arc(s) =~= seq![s[0]]);
        } else {
            assert(first_arc(s).len() != 1);
        }
    }
    if !(one_char && (f == 48 || f == 49 || f == 50)) {
        return Err(InvalidOid);
    }
    if f != 50 && v >= 40 {
        return Err(InvalidOid);
    }
    Ok(())
}

pub open spec fn builtin_label(oid: Seq<char>) -> Option<Seq<char>> {
    if oid == "2.5.4.3"@ {
        Some("CN"@)
    } else if oid == "2.5.4.6"@ {
        Some("C"@)
    } else if oid == "2.5.4.7"@ {
        Some("L"@)
    } else if oid == "2.5.4.8"@ {
        Some("ST"@)
    } else if oid == "2.5.4.10"@ {
        Some("O"@)
    } else if oid == "2.5.4.11"@ {
        Some("OU"@)
    } else if oid == "2.5.4.5"@ {
        Some("serialNumber"@)
    } else if oid == "0.9.2342.19200300.100.1.25"@ {
        Some("DC"@)
    } else if oid == "1.2.840.113549.1.9.1"@ {
        Some("emailAddress"@)
    } else if oid == "1.2.840.113549.1.1.1"@ {
        Some("RSA"@)
    } else if oid == "1.2.840.113549.1.1.10"@ {
        Some("RSA-PSS"@)
    } else if oid == "1.2.840.10045.2.1"@ {
        Some("EC"@)
    } else if oid == "1.3.101.112"@ {
        Some("Ed25519"@)
    } else if oid == "1.3.101.113"@ {
        Some("Ed448"@)
    } else if oid == "1.3.101.110"@ {
        Some("X25519"@)
    } else if oid == "1.3.101.111"@ {
        Some("X448"@)
    } else if oid == "1.2.840.113549.1.1.5"@ {
        Some("RSA-SHA1"@)
    } else if oid == "1.2.840.113549.1.1.14"@ {
        Some("RSA-SHA224"@)
    } else if oid == "1.2.840.113549.1.1.11"@ {
        Some("RSA-SHA256"@)
    } else if oid == "1.2.840.113549.1.1.12"@ {
        Some("RSA-SHA384"@)
    } else if oid == "1.2.840.113549.1.1.13"@ {
        Some("RSA-SHA512"@)
    } else if oid == "1.2.840.10045.4.1"@ {
        Some("ECDSA-SHA1"@)
    } else if oid == "1.2.840.10045.4.3.1"@ {
        Some("ECDSA-SHA224"@)
    } else if oid == "1.2.840.10045.4.3.2"@ {
        Some("ECDSA-SHA256"@)
    } else if oid == "1.2.840.10045.4.3.3"@ {
        Some("ECDSA-SHA384"@)
    } else if oid == "1.2.840.10045.4.3.4"@ {
        Some("ECDSA-SHA512"@)
    } else if oid == "2.16.840.1.101.3.4.3.9"@ {
        Some("ECDSA-SHA3-224"@)
    } else if oid == "2.16.840.1.101.3.4.3.10"@ {
        Some("ECDSA-SHA3-256"@)
    } else if oid == "2.16.840.1.101.3.4.3.11"@ {
        Some("ECDSA-SHA3-384"@)
    } else if oid == "2.16.840.1.101.3.4.3.12"@ {
        Some("ECDSA-SHA3-512"@)
    } else if oid == "2.16.840.1.101.3.4.3.13"@ {
        Some("RSA-SHA3-224"@)
    } else if oid == "2.16.840.1.101.3.4.3.14"@ {
        Some("RSA-SHA3-256"@)
    } else if oid == "2.16.840.1.101.3.4.3.15"@ {
        Some("RSA-SHA3-384"@)
    } else if oid == "2.16.840.1.101.3.4.3.16"@ {
        Some("RSA-SHA3-512"@)
    } else if oid == "2.16.840.1.101.3.4.2.7"@ {
        Some("SHA3-224"@)
    } else if oid == "2.16.840.1.101.3.4.2.8"@ {
        Some("SHA3-256"@)
    } else if oid == "2.16.840.1.101.3.4.2.9"@ {
        Some("SHA3-384"@)
    } else if oid == "2.16.840.1.101.3.4.2.10"@ {
        Some("SHA3-512"@)
    } else if oid == "2.16.840.1.101.3.4.3.17"@ {
        Some("ML-DSA-44"@)
    } else if oid == "2.16.840.1.101.3.4.3.18"@ {
        Some("ML-DSA-65"@)
    } else if oid == "2.16.840.1.101.3.4.3.19"@ {
        Some("ML-DSA-87"@)
    } else if oid == "1.2.840.10045.3.1.1"@ {
        Some("P-192"@)
    } else if oid == "1.3.132.0.33"@ {
        Some("P-224"@)
    } else if oid == "1.2.840.10045.3.1.7"@ {
        Some("P-256"@)
    } else if oid == "1.3.132.0.34"@ {
        Some("P-384"@)
    } else if oid == "1.3.132.0.35"@ {
        Some("P-521"@)
    } else if oid == "1.3.132.0.10"@ {
        Some("secp256k1"@)
    } else if oid == "1.2.156.10197.1.301"@ {
        Some("SM2"@)
    } else if oid == "1.3.36.3.3.2.8.1.1.7"@ {
        Some("brainpoolP256r1"@)
    } else if oid == "1.3.36.3.3.2.8.1.1.11"@ {
        Some("brainpoolP384r1"@)
    } else if oid == "1.3.36.3.3.2.8.1.1.13"@ {
        Some("brainpoolP512r1"@)
    } else if oid == "2.5.29.37.0"@ {
        Some("any_extended_key_usage"@)
    } else if oid == "1.3.6.1.5.5.7.3.1"@ {
        Some("server_auth"@)
    } else if oid == "1.3.6.1.5.5.7.3.2"@ {
        Some("client_auth"@)
    } else if oid == "1.3.6.1.5.5.7.3.3"@ {
        Some("code_signing"@)
    } else if oid == "1.3.6.1.5.5.7.3.4"@ {
        Some("email_protection"@)
    } else if oid == "1.3.6.1.5.5.7.3.8"@ {
        Some("time_stamping"@)
    } else if oid == "1.3.6.1.5.5.7.3.9"@ {
        Some("ocsp_signing"@)
    } else if oid == "1.3.6.1.5.5.7.3.5"@ {
        Some("ipsec_end_system"@)
    } else if oid == "1.3.6.1.5.5.7.3.6"@ {
        Some("ipsec_tunnel"@)
    } else if oid == "1.3.6.1.5.5.7.3.7"@ {
        Some("ipsec_user"@)
    } else if oid == "1.3.6.1.5.5.7.3.17"@ {
        Some("ipsec_ike"@)
    } else if oid == "1.3.6.1.4.1.311.20.2.2"@ {
        Some("smart_card_logon"@)
    } else if oid == "1.3.6.1.5.5.7.48.1"@ {
        Some("ocsp"@)
    } else if oid == "1.3.6.1.5.5.7.48.2"@ {
        Some("ca_issuers"@)
    } else if oid == "1.3.6.1.5.5.7.48.5"@ {
        Some("ca_repository"@)
    } else {
        None
    }
}

fn builtin_label_text(oid: &str) -> (r: Option<&'static str>)
    ensures
        match r {
            Some(s) => builtin_label(oid@) == Some(s@),
            None => builtin_label(oid@) is None,
        },
{
    if str_eq(oid, "2.5.4.3") {
        Some("CN")
    } else if str_eq(oid, "2.5.4.6") {
        Some("C")
    } else if str_eq(oid, "2.5.4.7") {
        Some("L")
    } else if str_eq(oid, "2.5.4.8") {
        Some("ST")
    } else if str_eq(oid, "2.5.4.10") {
        Some("O")
    } else if str_eq(oid, "2.5.4.11") {
        Some("OU")
    } else if str_eq(oid, "2.5.4.5") {
        Some("serialNumber")
    } else if str_eq(oid, "0.9.2342.19200300.100.1.25") {
        Some("DC")
    } else if str_eq(oid, "1.2.840.113549.1.9.1") {
        Some("emailAddress")
    } else if str_eq(oid, "1.2.840.113549.1.1.1") {
        Some("RSA")
    } else if str_eq(oid, "1.2.840.113549.1.1.10") {
        Some("RSA-PSS")
    } else if str_eq(oid, "1.2.840.10045.2.1") {
        Some("EC")
    } else if str_eq(oid, "1.3.101.112") {
        Some("Ed25519")
    } else if str_eq(oid, "1.3.101.113") {
        Some("Ed448")
    } else if str_eq(oid, "1.3.101.110") {
        Some("X25519")
    } else if str_eq(oid, "1.3.101.111") {
        Some("X448")
    } else if str_eq(oid, "1.2.840.113549.1.1.5") {
        Some("RSA-SHA1")
    } else if str_eq(oid, "1.2.840.113549.1.1.14") {
        Some("RSA-SHA224")
    } else if str_eq(oid, "1.2.840.113549.1.1.11") {
        Some("RSA-SHA256")
    } else if str_eq(oid, "1.2.840.113549.1.1.12") {
        Some("RSA-SHA384")
    } else if str_eq(oid, "1.2.840.113549.1.1.13") {
        Some("RSA-SHA512")
    } else if str_eq(oid, "1.2.840.10045.4.1") {
        Some("ECDSA-SHA1")
    } else if str_eq(oid, "1.2.840.10045.4.3.1") {
        Some("ECDSA-SHA224")
    } else if str_eq(oid, "1.2.840.10045.4.3.2") {
        Some("ECDSA-SHA256")
    } else if str_eq(oid, "1.2.840.10045.4.3.3") {
        Some("ECDSA-SHA384")
    } else if str_eq(oid, "1.2.840.10045.4.3.4") {
        Some("ECDSA-SHA512")
    } else if str_eq(oid, "2.16.840.1.101.3.4.3.9") {
        Some("ECDSA-SHA3-224")
    } else if str_eq(oid, "2.16.840.1.101.3.4.3.10") {
        Some("ECDSA-SHA3-256")
    } else if str_eq(oid, "2.16.840.1.101.3.4.3.11") {
        Some("ECDSA-SHA3-384")
    } else if str_eq(oid, "2.16.840.1.101.3.4.3.12") {
        Some("ECDSA-SHA3-512")
    } else if str_eq(oid, "2.16.840.1.101.3.4.3.13") {
        Some("RSA-SHA3-224")
    } else if str_eq(oid, "2.16.840.1.101.3.4.3.14") {
        Some("RSA-SHA3-256")
    } else if str_eq(oid, "2.16.840.1.101.3.4.3.15") {
        Some("RSA-SHA3-384")
    } else if str_eq(oid, "2.16.840.1.101.3.4.3.16") {
        Some("RSA-SHA3-512")
    } else if str_eq(oid, "2.16.840.1.101.3.4.2.7") {
        Some("SHA3-224")
    } else if str_eq(oid, "2.16.840.1.101.3.4.2.8") {
        Some("SHA3-256")
    } else if str_eq(oid, "2.16.840.1.101.3.4.2.9") {
        Some("SHA3-384")
    } else if str_eq(oid, "2.16.840.1.101.3.4.2.10") {
        Some("SHA3-512")
    } else if str_eq(oid, "2.16.840.1.101.3.4.3.17") {
        Some("ML-DSA-44")
    } else if str_eq(oid, "2.16.840.1.101.3.4.3.18") {
        Some("ML-DSA-65")
    } else if str_eq(oid, "2.16.840.1.101.3.4.3.19") {
        Some("ML-DSA-87")
    } else if str_eq(oid, "1.2.840.10045.3.1.1") {
        Some("P-192")
    } else if str_eq(oid, "1.3.132.0.33") {
        Some("P-224")
    } else if str_eq(oid, "1.2.840.10045.3.1.7") {
        Some("P-256")
    } else if str_eq(oid, "1.3.132.0.34") {
        Some("P-384")
    } else if str_eq(oid, "1.3.132.0.35") {
        Some("P-521")
    } else if str_eq(oid, "1.3.132.0.10") {
        Some("secp256k1")
    } else if str_eq(oid, "1.2.156.10197.1.301") {
        Some("SM2")
    } else if str_eq(oid, "1.3.36.3.3.2.8.1.1.7") {
        Some("brainpoolP256r1")
    } else if str_eq(oid, "1.3.36.3.3.2.8.1.1.11") {
        Some("brainpoolP384r1")
    } else if str_eq(oid, "1.3.36.3.3.2.8.1.1.13") {
        Some("brainpoolP512r1")
    } else if str_eq(oid, "2.5.29.37.0") {
        Some("any_extended_key_usage")
    } else if str_eq(oid, "1.3.6.1.5.5.7.3.1") {
        Some("server_auth")
    } else if str_eq(oid, "1.3.6.1.5.5.7.3.2") {
        Some("client_auth")
    } else if str_eq(oid, "1.3.6.1.5.5.7.3.3") {
        Some("code_signing")
    } else if str_eq(oid, "1.3.6.1.5.5.7.3.4") {
        Some("email_protection")
    } else if str_eq(oid, "1.3.6.1.5.5.7.3.8") {
        Some("time_stamping")
    } else if str_eq(oid, "1.3.6.1.5.5.7.3.9") {
        Some("ocsp_signing")
    } else if str_eq(oid, "1.3.6.1.5.5.7.3.5") {
        Some("ipsec_end_system")
    } else if str_eq(oid, "1.3.6.1.5.5.7.3.6") {
        Some("ipsec_tunnel")
    } else if str_eq(oid, "1.3.6.1.5.5.7.3.7") {
        Some("ipsec_user")
    } else if str_eq(oid, "1.3.6.1.5.5.7.3.17") {
        Some("ipsec_ike")
    } else if str_eq(oid, "1.3.6.1.4.1.311.20.2.2") {
        Some("smart_card_logon")
    } else if str_eq(oid, "1.3.6.1.5.5.7.48.1") {
        Some("ocsp")
    } else if str_eq(oid, "1.3.6.1.5.5.7.48.2") {
        Some("ca_issuers")
    } else if str_eq(oid, "1.3.6.1.5.5.7.48.5") {
        Some("ca_repository")
    } else {
        None
    }
}


/// Label in an override list: the last entry with this OID, if any.
pub open spec fn override_label(v: Seq<(String, String)>, oid: Seq<char>) -> Option<Seq<char>>
    decreases v.len(),
{
    if v.len() == 0 {
        None
    } else if v.last().0@ == oid {
        Some(v.last().1@)
    } else {
        override_label(v.drop_last(), oid)
    }
}

/// The label a table without overrides gives: built-in application labels first,
/// then the upstream registry's short names, for canonical OID text only.
pub open spec fn default_label(oid: Seq<char>) -> Option<Seq<char>> {
    if !canonical_oid_text(oid) {
        None
    } else if builtin_label(oid) is Some {
        builtin_label(oid)
    } else {
        backend::standard_short_name(oid)
    }
}

/// Caller-owned OID presentation names, independent of parsing or trust policy.
///
/// Lookup precedence is caller overrides, built-in application labels, then the
/// upstream registry's short names. Only canonical dotted-decimal OIDs have labels.
/// Clones share the immutable upstream registry; their overrides are independent.
/// Adding a name never enables a decoder or cryptographic operation.
#[derive(Debug)]
pub struct OidNames {
    registry: Arc<OidRegistry<'static>>,
    overrides: Vec<(String, String)>,
}

impl OidNames {
    /// The label `get` returns for this OID text.
    pub closed spec fn label(self, oid: Seq<char>) -> Option<Seq<char>> {
        if !canonical_oid_text(oid) {
            None
        } else if override_label(self.overrides@, oid) is Some {
            override_label(self.overrides@, oid)
        } else if builtin_label(oid) is Some {
            builtin_label(oid)
        } else if backend::registry_short_names(*self.registry).dom().contains(oid) {
            Some(backend::registry_short_names(*self.registry)[oid])
        } else {
            None
        }
    }

    /// The label from the built-in and upstream tables alone, ignoring overrides.
    pub closed spec fn base_label(self, oid: Seq<char>) -> Option<Seq<char>> {
        if !canonical_oid_text(oid) {
            None
        } else if builtin_label(oid) is Some {
            builtin_label(oid)
        } else if backend::registry_short_names(*self.registry).dom().contains(oid) {
            Some(backend::registry_short_names(*self.registry)[oid])
        } else {
            None
        }
    }

    /// How labels are layered: noncanonical text has none, an OID the caller has
    /// not overridden has its base label, and a built-in label is the base label.
    pub proof fn lemma_label_layers(self, oid: Seq<char>)
        ensures
            !canonical_oid_text(oid) ==> self.label(oid) is None && self.base_label(oid) is None,
            !self.overridden(oid) ==> self.label(oid) == self.base_label(oid),
            canonical_oid_text(oid) && builtin_label(oid) is Some ==> self.base_label(oid) == builtin_label(oid),
    {
    }

    /// Whether the caller has overridden this OID's label.
    pub closed spec fn overridden(self, oid: Seq<char>) -> bool {
        override_label(self.overrides@, oid) is Some
    }

    /// Look up an exact canonical dotted-decimal OID; unknown or invalid input
    /// gives None. Results copy the label.
    pub fn get(&self, oid: &str) -> (r: Option<String>)
        ensures
            opt_view(r) == self.label(oid@),
    {
        if canonical_oid(oid).is_err() {
            return None;
        }
        let mut i = self.overrides.len();
        proof {
            assert(self.overrides@.take(i as int) =~= self.overrides@);
        }
        while i > 0
            invariant
                i <= self.overrides@.len(),
                canonical_oid_text(oid@),
                override_label(self.overrides@, oid@) == override_label(self.overrides@.take(i as int), oid@),
            decreases i,
        {
            let k = i - 1;
            proof {
                assert(self.overrides@.take(i as int).drop_last() =~= self.overrides@.take(k as int));
            }
            if str_eq(self.overrides[k].0.as_str(), oid) {
                let ghost pre = self.overrides@.take(i as int);
                assert(pre.last() == self.overrides@[k as int]);
                assert(pre.last().0@ == oid@);
                assert(override_label(pre, oid@) == Some(pre.last().1@));
                return Some(self.overrides[k].1.clone());
            }
            i = k;
        }
        proof {
            assert(self.overrides@.take(0) =~= Seq::<(String, String)>::empty());
        }
        match builtin_label_text(oid) {
            Some(label) => Some(owned(label)),
            None => backend::registry_short_name(&self.registry, oid),
        }
    }

    /// Add or override a label, returning the label `get` gave before.
    ///
    /// # Errors
    /// Returns InvalidOid for invalid or noncanonical dotted-decimal syntax, leaving
    /// the table unchanged.
    pub fn insert(&mut self, oid: &str, name: &str) -> (r: Result<Option<String>, InvalidOid>)
        ensures
            r is Ok <==> canonical_oid_text(oid@),
            r matches Ok(previous) ==> opt_view(previous) == old(self).label(oid@),
            r is Ok ==> final(self).label(oid@) == Some(name@),
            r is Err ==> *final(self) == *old(self),
            forall|other: Seq<char>| other != oid@ ==> #[trigger] final(self).label(other) == old(self).label(other),
            forall|other: Seq<char>| #[trigger] final(self).base_label(other) == old(self).base_label(other),
    {
        if canonical_oid(oid).is_err() {
            return Err(InvalidOid);
        }
        let previous = self.get(oid);
        let ghost before = self.overrides@;
        self.overrides.push((owned(oid), owned(name)));
        proof {
            assert(self.overrides@.drop_last() =~= before);
            assert forall|other: Seq<char>| other != oid@ implies override_label(self.overrides@, other)
                == override_label(before, other) by {}
        }
        Ok(previous)
    }
}

/// `Arc::clone`: a second handle to the same registry.
#[verifier::external_body]
fn share_registry(registry: &Arc<OidRegistry<'static>>) -> (r: Arc<OidRegistry<'static>>)
    ensures
        *r == **registry,
{
    Arc::clone(registry)
}

impl Clone for OidNames {
    /// A table with the same labels and overrides; it shares the immutable
    /// upstream registry, and later overrides of either table leave the other
    /// unchanged.
    fn clone(&self) -> (r: Self)
        ensures
            forall|oid: Seq<char>| #[trigger] r.label(oid) == self.label(oid),
            forall|oid: Seq<char>| #[trigger] r.base_label(oid) == self.base_label(oid),
            forall|oid: Seq<char>| #[trigger] r.overridden(oid) == self.overridden(oid),
    {
        let mut overrides: Vec<(String, String)> = Vec::new();
        let mut i: usize = 0;
        while i < self.overrides.len()
            invariant
                i <= self.overrides@.len(),
                overrides@ =~= self.overrides@.take(i as int),
            decreases self.overrides@.len() - i,
        {
            let pair = (self.overrides[i].0.clone(), self.overrides[i].1.clone());
            overrides.push(pair);
            assert(self.overrides@.take(i + 1) =~= self.overrides@.take(i as int).push(self.overrides@[i as int]));
            i = i + 1;
        }
        assert(self.overrides@.take(self.overrides@.len() as int) =~= self.overrides@);
        OidNames { registry: share_registry(&self.registry), overrides }
    }
}

impl Default for OidNames {
    /// The upstream crypto/X.500/X.509 tables and the built-in labels, with no
    /// overrides.
    fn default() -> (r: Self)
        ensures
            forall|oid: Seq<char>| #[trigger] r.label(oid) == r.base_label(oid),
            forall|oid: Seq<char>| #[trigger] r.label(oid) == default_label(oid),
    {
        let names = OidNames { registry: Arc::new(backend::standard_registry()), overrides: Vec::new() };
        proof {
            assert forall|oid: Seq<char>| #[trigger] names.label(oid) == names.base_label(oid) by {
                assert(override_label(names.overrides@, oid) is None);
            }
            assert forall|oid: Seq<char>| #[trigger] names.label(oid) == default_label(oid) by {
                assert(override_label(names.overrides@, oid) is None);
                if canonical_oid_text(oid) && builtin_label(oid) is None {
                    let _ = backend::registry_short_names(*names.registry).dom().contains(oid);
                }
            }
        }
        names
    }
}

} // verus!
