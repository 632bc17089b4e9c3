//! Public-key fields parsed from the retained key bytes, without arithmetic.
use vstd::prelude::*;
use crate::algorithms::{ec_oid, ed25519_oid, ed448_oid, rsa_oid, rsa_pss_oid, x25519_oid, x448_oid};
use crate::certificate::PublicKeyInfo;
use crate::decoding::{reports, DecodeDiagnostic, DecodeIssue};
use crate::rustcrypto;
use crate::text::{encode_hex, hex_lower, str_eq};

verus! {

/// Parsed public-key fields. This performs no arithmetic or mathematical validation.
#[derive(Clone, Debug, PartialEq, Eq)]
#[non_exhaustive]
pub enum PublicKeyDetails {
    /// RSA INTEGER magnitudes; no primality, oddness, exponent, or strength checks.
    Rsa {
        /// Unsigned modulus octets in lowercase hex, excluding DER sign padding.
        modulus_hex: String,
        /// Unsigned public-exponent octets in lowercase hex, without a u64 limit.
        exponent_hex: String,
    },
    /// Uncompressed SEC1 point; coordinates are not checked against a curve.
    EcUncompressed {
        /// Fixed-width big-endian x coordinate in lowercase hex.
        x_hex: String,
        /// Fixed-width big-endian y coordinate in lowercase hex.
        y_hex: String,
    },
    /// Compressed SEC1 point; no decompression occurs.
    EcCompressed {
        /// Fixed-width big-endian x coordinate in lowercase hex.
        x_hex: String,
        /// Parity bit encoded by prefix 02/03.
        y_odd: bool,
    },
    /// RFC 8410 Ed25519/Ed448 encoded point, without point decoding/validation.
    Edwards(String),
    /// RFC 8410 X25519/X448 encoded u coordinate, retaining little-endian octets.
    Montgomery(String),
}

/// The algorithms whose key fields are parsed here.
pub open spec fn key_fields_known(oid: Seq<char>) -> bool {
    oid == rsa_oid() || oid == rsa_pss_oid() || oid == ec_oid() || oid == x25519_oid() || oid == x448_oid()
        || oid == ed25519_oid() || oid == ed448_oid()
}

/// The result `PublicKeyInfo::details` gives for `k`.
pub open spec fn key_fields_match(k: PublicKeyInfo, r: Result<Option<PublicKeyDetails>, DecodeDiagnostic>) -> bool {
    let oid = k.algorithm.oid@;
    let b = k.key_bytes@;
    if !key_fields_known(oid) {
        r == Ok::<Option<PublicKeyDetails>, DecodeDiagnostic>(None)
    } else if b.len() * 8 != k.encoded_key_bits {
        match r { Err(d) => reports(d, DecodeIssue::InvalidEncoding, "key BIT STRING unused bits"@), _ => false }
    } else if oid == rsa_oid() || oid == rsa_pss_oid() {
        match rustcrypto::rsa_public_key_of(b) {
            Some((m, e)) => match r {
                Ok(Some(PublicKeyDetails::Rsa { modulus_hex, exponent_hex })) =>
                    modulus_hex@ == hex_lower(m@) && exponent_hex@ == hex_lower(e@),
                _ => false,
            },
            None => match r { Err(d) => reports(d, DecodeIssue::InvalidEncoding, "RSA public key"@), _ => false },
        }
    } else if oid == ec_oid() {
        if b.len() > 1 && b[0] == 4 && b.len() % 2 == 1 {
            let w = (b.len() - 1) / 2;
            match r {
                Ok(Some(PublicKeyDetails::EcUncompressed { x_hex, y_hex })) =>
                    x_hex@ == hex_lower(b.subrange(1, 1 + w)) && y_hex@ == hex_lower(b.subrange(1 + w, b.len() as int)),
                _ => false,
            }
        } else if b.len() > 1 && (b[0] == 2 || b[0] == 3) {
            match r {
                Ok(Some(PublicKeyDetails::EcCompressed { x_hex, y_odd })) =>
                    x_hex@ == hex_lower(b.subrange(1, b.len() as int)) && y_odd == (b[0] == 3),
                _ => false,
            }
        } else if b.len() > 0 && 2 <= b[0] <= 4 {
            match r { Err(d) => reports(d, DecodeIssue::InvalidEncoding, "SEC1 coordinate framing"@), _ => false }
        } else {
            match r { Err(d) => reports(d, DecodeIssue::UnsupportedEncoding, "SEC1 point choice"@), _ => false }
        }
    } else if oid == x25519_oid() || oid == x448_oid() {
        match r { Ok(Some(PublicKeyDetails::Montgomery(h))) => h@ == hex_lower(b), _ => false }
    } else {
        match r { Ok(Some(PublicKeyDetails::Edwards(h))) => h@ == hex_lower(b), _ => false }
    }
}

impl PublicKeyInfo {
    /// SHA-256 over the retained complete SPKI DER, including algorithm parameters.
    /// This identifies an encoding, not a mathematical key or trusted identity.
    pub fn spki_sha256_fingerprint(&self) -> (r: [u8; 32])
        ensures
            r@ == rustcrypto::sha256_of(self.spki_der@),
    {
        rustcrypto::sha256(self.spki_der.as_slice())
    }

    /// Parse fields from the retained key bytes. Results own their data and are not
    /// cached. Unknown algorithms return None. No parameter/curve/identity policy is
    /// evaluated.
    ///
    /// # Errors
    /// Returns a diagnostic for unsupported SEC1 choices, invalid framing/length,
    /// or non-octet-aligned supported key encodings. Raw key/SPKI bytes remain available.
    pub fn details(&self) -> (r: Result<Option<PublicKeyDetails>, DecodeDiagnostic>)
        ensures
            key_fields_match(*self, r),
    {
        let oid = self.algorithm.oid.as_str();
        let rsa = str_eq(oid, "1.2.840.113549.1.1.1") || str_eq(oid, "1.2.840.113549.1.1.10");
        let ec = str_eq(oid, "1.2.840.10045.2.1");
        let montgomery = str_eq(oid, "1.3.101.110") || str_eq(oid, "1.3.101.111");
        let edwards = str_eq(oid, "1.3.101.112") || str_eq(oid, "1.3.101.113");
        if !(rsa || ec || montgomery || edwards) {
            return Ok(None);
        }
        let aligned = match self.key_bytes.len().checked_mul(8) {
            Some(n) => n == self.encoded_key_bits,
            None => false,
        };
        if !aligned {
            return Err(DecodeDiagnostic::invalid("key BIT STRING unused bits"));
        }
        let b = self.key_bytes.as_slice();
        if rsa {
            match rustcrypto::rsa_public_key(b) {
                Some((m, e)) => Ok(Some(PublicKeyDetails::Rsa {
                    modulus_hex: encode_hex(m.as_slice()),
                    exponent_hex: encode_hex(e.as_slice()),
                })),
                None => Err(DecodeDiagnostic::invalid("RSA public key")),
            }
        } else if ec {
            if b.len() > 1 && b[0] == 4 && b.len() % 2 == 1 {
                let w = (b.len() - 1) / 2;
                let (head, y) = b.split_at(1 + w);
                let (_, x) = head.split_at(1);
                assert(x@ =~= b@.subrange(1, 1 + w as int));
                Ok(Some(PublicKeyDetails::EcUncompressed { x_hex: encode_hex(x), y_hex: encode_hex(y) }))
            } else if b.len() > 1 && (b[0] == 2 || b[0] == 3) {
                let (_, x) = b.split_at(1);
                Ok(Some(PublicKeyDetails::EcCompressed { x_hex: encode_hex(x), y_odd: b[0] == 3 }))
            } else if b.len() > 0 && 2 <= b[0] && b[0] <= 4 {
                Err(DecodeDiagnostic::invalid("SEC1 coordinate framing"))
            } else {
                Err(DecodeDiagnostic::new(DecodeIssue::UnsupportedEncoding, "SEC1 point choice"))
            }
        } else if montgomery {
            Ok(Some(PublicKeyDetails::Montgomery(encode_hex(b))))
        } else {
            Ok(Some(PublicKeyDetails::Edwards(encode_hex(b))))
        }
    }
}

/// An elliptic-curve key whose bits are whole octets 04 || X || Y, with X and Y of
/// one width, yields the uncompressed point with X in `x_hex` and Y in `y_hex`;
/// 02 || X or 03 || X yields the compressed point with X in `x_hex` and the parity
/// of the prefix.
pub proof fn law_sec1_points_keep_their_coordinates(
    k: PublicKeyInfo,
    r: Result<Option<PublicKeyDetails>, DecodeDiagnostic>,
    prefix: u8,
    x: Seq<u8>,
    y: Seq<u8>,
)
    requires
        key_fields_match(k, r),
        k.algorithm.oid@ == "1.2.840.10045.2.1"@,
        k.encoded_key_bits == k.key_bytes@.len() * 8,
        x.len() > 0,
        k.key_bytes@ == seq![prefix] + x + y,
        prefix == 4 ==> y.len() == x.len(),
        prefix == 2 || prefix == 3 ==> y.len() == 0,
        prefix == 2 || prefix == 3 || prefix == 4,
    ensures
        prefix == 4 ==> (r matches Ok(Some(PublicKeyDetails::EcUncompressed { x_hex, y_hex }))
            && x_hex@ == hex_lower(x) && y_hex@ == hex_lower(y)),
        prefix != 4 ==> (r matches Ok(Some(PublicKeyDetails::EcCompressed { x_hex, y_odd }))
            && x_hex@ == hex_lower(x) && y_odd == (prefix == 3)),
{
    reveal_strlit("1.2.840.10045.2.1");
    reveal_strlit("1.2.840.113549.1.1.1");
    reveal_strlit("1.2.840.113549.1.1.10");
    assert("1.2.840.10045.2.1"@.len() != "1.2.840.113549.1.1.1"@.len());
    assert("1.2.840.10045.2.1"@.len() != "1.2.840.113549.1.1.10"@.len());
    assert(k.algorithm.oid@ != rsa_oid() && k.algorithm.oid@ != rsa_pss_oid());
    let b = k.key_bytes@;
    assert(b.len() == 1 + x.len() + y.len());
    assert(ec_oid() == "1.2.840.10045.2.1"@);
    assert(key_fields_known(k.algorithm.oid@));
    assert(b[0] == prefix);
    if prefix == 4 {
        let w = (b.len() - 1) / 2;
        assert(w == x.len());
        assert(b.subrange(1, 1 + w) =~= x);
        assert(b.subrange(1 + w, b.len() as int) =~= y);
    } else {
        assert(b.subrange(1, b.len() as int) =~= x);
    }
}

/// Ed25519/Ed448 and X25519/X448 keys of whole octets are reported as those
/// octets in lowercase hex.
pub proof fn law_rfc8410_keys_keep_their_octets(k: PublicKeyInfo, r: Result<Option<PublicKeyDetails>, DecodeDiagnostic>)
    requires
        key_fields_match(k, r),
        k.encoded_key_bits == k.key_bytes@.len() * 8,
        k.algorithm.oid@ == "1.3.101.112"@ || k.algorithm.oid@ == "1.3.101.113"@
            || k.algorithm.oid@ == "1.3.101.110"@ || k.algorithm.oid@ == "1.3.101.111"@,
    ensures
        k.algorithm.oid@ == "1.3.101.112"@ || k.algorithm.oid@ == "1.3.101.113"@ ==>
            (r matches Ok(Some(PublicKeyDetails::Edwards(h))) && h@ == hex_lower(k.key_bytes@)),
        k.algorithm.oid@ == "1.3.101.110"@ || k.algorithm.oid@ == "1.3.101.111"@ ==>
            (r matches Ok(Some(PublicKeyDetails::Montgomery(h))) && h@ == hex_lower(k.key_bytes@)),
{
    reveal_strlit("1.3.101.112");
    reveal_strlit("1.3.101.113");
    reveal_strlit("1.3.101.110");
    reveal_strlit("1.3.101.111");
    reveal_strlit("1.2.840.113549.1.1.1");
    reveal_strlit("1.2.840.113549.1.1.10");
    reveal_strlit("1.2.840.10045.2.1");
    assert("1.3.101.112"@[10] != "1.3.101.113"@[10]);
    assert("1.3.101.112"@[10] != "1.3.101.110"@[10]);
    assert("1.3.101.112"@[10] != "1.3.101.111"@[10]);
    assert("1.3.101.113"@[10] != "1.3.101.110"@[10]);
    assert("1.3.101.113"@[10] != "1.3.101.111"@[10]);
    assert("1.3.101.110"@[10] != "1.3.101.111"@[10]);
    assert("1.3.101.110"@.len() != "1.2.840.10045.2.1"@.len());
    assert("1.3.101.110"@.len() != "1.2.840.113549.1.1.1"@.len());
    assert("1.3.101.110"@.len() != "1.2.840.113549.1.1.10"@.len());
}

/// A supported key whose bit length is not a whole number of octets is reported
/// as invalid encoding, never as parsed fields.
pub proof fn law_unaligned_keys_are_rejected(k: PublicKeyInfo, r: Result<Option<PublicKeyDetails>, DecodeDiagnostic>)
    requires
        key_fields_match(k, r),
        key_fields_known(k.algorithm.oid@),
        k.encoded_key_bits != k.key_bytes@.len() * 8,
    ensures
        r matches Err(d) && d.issue == DecodeIssue::InvalidEncoding,
{
}

} // verus!
