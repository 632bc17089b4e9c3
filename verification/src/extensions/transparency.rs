//! Embedded Certificate Transparency timestamps (RFC 6962 TLS vectors).
use vstd::prelude::*;
use crate::backend;
use crate::decoding::{exactly_framed, lemma_framed_narrows};
use crate::rustcrypto;
use crate::text::{encode_hex, hex_lower};

verus! {

/// One embedded SCT entry. No log lookup or signature verification is performed.
#[derive(Clone, Debug, PartialEq, Eq)]
#[non_exhaustive]
pub enum SctEntry {
    /// Decoded RFC 6962 v1 entry (wire version zero).
    V1(SignedCertificateTimestamp),
    /// An unrecognized version; preserve its entire entry without the u16 length.
    Unknown {
        /// Unrecognized wire version byte.
        version: u8,
        /// Complete entry, including version, in lowercase hex.
        encoded_hex: String,
    },
}

/// RFC 6962 v1 SCT fields, independent of the input certificate buffer.
#[derive(Clone, Debug, PartialEq, Eq)]
#[non_exhaustive]
pub struct SignedCertificateTimestamp {
    /// 32-byte CT log identifier in lowercase hex; not a trusted log name.
    pub log_id_hex: String,
    /// Milliseconds since the Unix epoch, as encoded (unlike certificate seconds).
    pub timestamp_unix_ms: u64,
    /// Opaque SCT extension octets in lowercase hex.
    pub extensions_hex: String,
    /// TLS hash algorithm number, including unrecognized numbers.
    pub hash_algorithm: u8,
    /// TLS signature algorithm number, including unrecognized numbers.
    pub signature_algorithm: u8,
    /// Signature octets in lowercase hex; no cryptographic verification occurs.
    pub signature_hex: String,
}

/// A TLS vector with a big-endian u16 length prefix: the bytes after it and its body.
pub open spec fn vector_of(input: Seq<u8>) -> Option<(Seq<u8>, Seq<u8>)> {
    if input.len() < 2 {
        None
    } else {
        let end = 2 + input[0] as int * 256 + input[1] as int;
        if input.len() < end {
            None
        } else {
            Some((input.subrange(end, input.len() as int), input.subrange(2, end)))
        }
    }
}

/// Split one length-prefixed TLS vector from the front of `input`, returning the
/// bytes after it and its body; None when the input is shorter than its prefix says.
pub fn vector(input: &[u8]) -> (r: Option<(&[u8], &[u8])>)
    ensures
        match r {
            Some((rest, body)) => vector_of(input@) == Some((rest@, body@)),
            None => vector_of(input@) is None,
        },
{
    if input.len() < 2 {
        return None;
    }
    let end = 2 + (input[0] as usize) * 256 + input[1] as usize;
    if input.len() < end {
        return None;
    }
    let (head, rest) = input.split_at(end);
    let (_, body) = head.split_at(2);
    assert(body@ =~= input@.subrange(2, end as int));
    Some((rest, body))
}

/// The fields of an entry as plain values: whether it is a decoded v1 entry, the
/// version, then log id hex, timestamp, extensions hex, hash and signature
/// algorithm numbers and signature hex (an unknown entry carries its whole hex in
/// the log-id place and zeros elsewhere).
pub type SctFields = (bool, u8, Seq<char>, u64, Seq<char>, u8, u8, Seq<char>);

/// The plain fields of an owned entry.
pub open spec fn sct_fields(e: SctEntry) -> SctFields {
    match e {
        SctEntry::V1(s) => (true, 0, s.log_id_hex@, s.timestamp_unix_ms, s.extensions_hex@, s.hash_algorithm,
            s.signature_algorithm, s.signature_hex@),
        SctEntry::Unknown { version, encoded_hex } => (false, version, encoded_hex@, 0, Seq::empty(), 0, 0, Seq::empty()),
    }
}

/// The first entry of a list and the list after it: a non-empty vector; version
/// zero is parsed by the backend, which must end exactly where the vector ends and
/// account for every octet of it (47 fixed octets plus extensions and signature).
pub open spec fn entry_of(list: Seq<u8>) -> Option<(SctFields, Seq<u8>)> {
    match vector_of(list) {
        None => None,
        Some((rest, entry)) => if entry.len() == 0 {
            None
        } else if entry[0] == 0 {
            match backend::ct_timestamp_of(list) {
                Some(t) => if t.remaining == rest.len() && entry.len() == 47 + t.extensions@.len() + t.signature@.len() {
                    Some(((true, 0, hex_lower(t.log_id@), t.timestamp, hex_lower(t.extensions@), t.hash_algorithm,
                        t.signature_algorithm, hex_lower(t.signature@)), rest))
                } else {
                    None
                },
                None => None,
            }
        } else {
            Some(((false, entry[0], hex_lower(entry), 0, Seq::empty(), 0, 0, Seq::empty()), rest))
        },
    }
}

/// All entries of a list, in order; None if any entry fails.
pub open spec fn entries_of(list: Seq<u8>) -> Option<Seq<SctFields>>
    decreases list.len(),
{
    if list.len() == 0 {
        Some(Seq::empty())
    } else {
        match entry_of(list) {
            Some((e, rest)) => if rest.len() < list.len() {
                match entries_of(rest) {
                    Some(tail) => Some(seq![e] + tail),
                    None => None,
                }
            } else {
                None
            },
            None => None,
        }
    }
}

/// The SCT list result for an extension value: an OCTET STRING holding exactly one
/// non-empty TLS vector of entries.
pub open spec fn timestamps_of(bytes: Seq<u8>) -> Option<Seq<SctFields>> {
    match rustcrypto::octet_string_of(bytes) {
        Ok(octets) => match vector_of(octets@) {
            Some((rest, list)) => if rest.len() == 0 && list.len() > 0 { entries_of(list) } else { None },
            None => None,
        },
        Err(_) => None,
    }
}

fn entry(list: &[u8]) -> (r: Option<(SctEntry, &[u8])>)
    ensures
        match r {
            Some((e, rest)) => entry_of(list@) == Some((sct_fields(e), rest@)),
            None => entry_of(list@) is None,
        },
{
    let (rest, body) = match vector(list) {
        Some(v) => v,
        None => {
            return None;
        },
    };
    if body.len() == 0 {
        return None;
    }
    let version = body[0];
    if version == 0 {
        let t = match backend::ct_timestamp(list) {
            Some(t) => t,
            None => {
                return None;
            },
        };
        if t.remaining != rest.len() {
            return None;
        }
        if body.len() < 47 || body.len() - 47 < t.extensions.len()
            || body.len() - 47 - t.extensions.len() != t.signature.len() {
            return None;
        }
        let s = SignedCertificateTimestamp {
            log_id_hex: encode_hex(t.log_id.as_slice()),
            timestamp_unix_ms: t.timestamp,
            extensions_hex: encode_hex(t.extensions.as_slice()),
            hash_algorithm: t.hash_algorithm,
            signature_algorithm: t.signature_algorithm,
            signature_hex: encode_hex(t.signature.as_slice()),
        };
        Some((SctEntry::V1(s), rest))
    } else {
        Some((SctEntry::Unknown { version, encoded_hex: encode_hex(body) }, rest))
    }
}

/// Decode a signed certificate timestamp list. Every TLS vector boundary is
/// checked before the backend parses a v1 entry; unknown versions stay opaque.
pub fn decode(bytes: &[u8]) -> (r: Option<Vec<SctEntry>>)
    ensures
        match r {
            Some(v) => timestamps_of(bytes@) == Some(v@.map_values(|e: SctEntry| sct_fields(e))),
            None => timestamps_of(bytes@) is None,
        },
        r is Some ==> exactly_framed(bytes@, |b: Seq<u8>| timestamps_of(b) is Some),
{
    let octets = match rustcrypto::octet_string(bytes) {
        Ok(o) => o,
        Err(_) => {
            return None;
        },
    };
    proof {
        lemma_framed_narrows(bytes@, |b: Seq<u8>| rustcrypto::octet_string_of(b) is Ok,
            |b: Seq<u8>| timestamps_of(b) is Some);
    }
    let (rest, first) = match vector(octets.as_slice()) {
        Some(v) => v,
        None => {
            return None;
        },
    };
    if rest.len() != 0 || first.len() == 0 {
        return None;
    }
    let ghost whole = first@;
    let mut list = first;
    let mut entries: Vec<SctEntry> = Vec::new();
    assert(entries@.map_values(|e: SctEntry| sct_fields(e)) =~= Seq::<SctFields>::empty());
    while list.len() > 0
        invariant
            timestamps_of(bytes@) == entries_of(whole),
            entries_of(whole) == match entries_of(list@) {
                Some(tail) => Some(entries@.map_values(|e: SctEntry| sct_fields(e)) + tail),
                None => None,
            },
        decreases list@.len(),
    {
        let (e, rest) = match entry(list) {
            Some(v) => v,
            None => {
                return None;
            },
        };
        proof {
            reveal_with_fuel(entries_of, 2);
        }
        if rest.len() >= list.len() {
            return None;
        }
        let ghost before = entries@.map_values(|x: SctEntry| sct_fields(x));
        entries.push(e);
        proof {
            assert(entries@.map_values(|x: SctEntry| sct_fields(x)) =~= before.push(sct_fields(e)));
            match entries_of(rest@) {
                Some(tail) => {
                    assert(before + (seq![sct_fields(e)] + tail) =~= before.push(sct_fields(e)) + tail);
                },
                None => {},
            }
        }
        list = rest;
    }
    assert(entries@.map_values(|e: SctEntry| sct_fields(e)) + Seq::<SctFields>::empty()
        =~= entries@.map_values(|e: SctEntry| sct_fields(e)));
    Some(entries)
}

} // verus!
