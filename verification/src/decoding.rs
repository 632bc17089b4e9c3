//! Field-level decoding diagnostics and the DER primitives that report them.
use vstd::prelude::*;
use crate::backend::{self, DerValue};
use crate::rustcrypto::DerFailure;
use crate::text::{encode_hex, hex_lower, owned};

verus! {

/// Why a field could not be decoded; none of these categories is a trust verdict.
#[derive(Clone, Copy, Debug, PartialEq, Eq, Structural)]
#[non_exhaustive]
pub enum DecodeIssue {
    /// Invalid structure, length, character encoding, or trailing data.
    InvalidEncoding,
    /// The field uses a recognized but unimplemented encoding/choice.
    UnsupportedEncoding,
    /// A backend cannot represent the encoded value or resource depth.
    RepresentationLimit,
    /// The OID/algorithm has no registered field decoder.
    UnknownType,
    /// An older backend path does not expose a more precise failure category.
    Unclassified,
}

/// Caller-owned field decoding diagnostic; not a certificate validation error.
#[derive(Clone, Debug, PartialEq, Eq)]
#[non_exhaustive]
pub struct DecodeDiagnostic {
    /// Stable category suitable for matching without parsing display text.
    pub issue: DecodeIssue,
    /// Field or encoding being inspected; contains no input data.
    pub field: String,
}

/// `d` reports `issue` for the field named `field`.
pub open spec fn reports(d: DecodeDiagnostic, issue: DecodeIssue, field: Seq<char>) -> bool {
    d.issue == issue && d.field@ == field
}

impl DecodeDiagnostic {
    /// A diagnostic with the given category and field name.
    pub fn new(issue: DecodeIssue, field: &str) -> (r: Self)
        ensures
            reports(r, issue, field@),
    {
        DecodeDiagnostic { issue, field: owned(field) }
    }

    /// An invalid-encoding diagnostic for the given field name.
    pub fn invalid(field: &str) -> (r: Self)
        ensures
            reports(r, DecodeIssue::InvalidEncoding, field@),
    {
        Self::new(DecodeIssue::InvalidEncoding, field)
    }

    /// The issue category and field name as one text line, for display.
    pub fn message(&self) -> (r: String)
        ensures
            r@ == self.field@ + ": "@ + issue_name(self.issue),
    {
        let mut s = self.field.clone();
        s.append(": ");
        s.append(issue_text(self.issue));
        s
    }
}

/// The variant name of an issue, as the text form shows it.
pub open spec fn issue_name(issue: DecodeIssue) -> Seq<char> {
    match issue {
        DecodeIssue::InvalidEncoding => "InvalidEncoding"@,
        DecodeIssue::UnsupportedEncoding => "UnsupportedEncoding"@,
        DecodeIssue::RepresentationLimit => "RepresentationLimit"@,
        DecodeIssue::UnknownType => "UnknownType"@,
        DecodeIssue::Unclassified => "Unclassified"@,
    }
}

fn issue_text(issue: DecodeIssue) -> (r: &'static str)
    ensures
        r@ == issue_name(issue),
{
    match issue {
        DecodeIssue::InvalidEncoding => "InvalidEncoding",
        DecodeIssue::UnsupportedEncoding => "UnsupportedEncoding",
        DecodeIssue::RepresentationLimit => "RepresentationLimit",
        DecodeIssue::UnknownType => "UnknownType",
        DecodeIssue::Unclassified => "Unclassified",
    }
}

/// ASN.1 INTEGER value without a machine-integer truncation or sign guess.
#[derive(Clone, Debug, PartialEq, Eq)]
#[non_exhaustive]
pub struct IntegerValue {
    /// Complete two's-complement content octets in lowercase hex, retaining padding.
    pub content_hex: String,
    /// Value when representable as i64; None otherwise, with bytes still available.
    pub value: Option<i64>,
}

/// Tag class numbers.
pub open spec fn universal() -> u8 { 0 }

/// The value of exactly one DER object filling `bytes`, or the diagnostic when
/// it does not parse or bytes follow it.
pub open spec fn single_value(bytes: Seq<u8>) -> Result<DerValue, (DecodeIssue, Seq<char>)> {
    match backend::der_value_of(bytes) {
        None => Err((DecodeIssue::InvalidEncoding, "DER"@)),
        Some((v, rest)) => if rest == 0 {
            Ok(v)
        } else {
            Err((DecodeIssue::InvalidEncoding, "trailing DER"@))
        },
    }
}

/// The result of a decoding step matches a specified outcome.
pub open spec fn outcome_matches<T>(
    r: Result<T, DecodeDiagnostic>,
    expected: Result<T, (DecodeIssue, Seq<char>)>,
) -> bool {
    match (r, expected) {
        (Ok(a), Ok(b)) => a == b,
        (Err(d), Err((issue, field))) => reports(d, issue, field),
        _ => false,
    }
}

/// Decode exactly one DER object; trailing bytes are an error.
pub fn any(bytes: &[u8]) -> (r: Result<DerValue, DecodeDiagnostic>)
    ensures
        outcome_matches(r, single_value(bytes@)),
{
    match backend::der_value(bytes) {
        None => Err(DecodeDiagnostic::invalid("DER")),
        Some((value, rest)) => {
            if rest != 0 {
                Err(DecodeDiagnostic::invalid("trailing DER"))
            } else {
                Ok(value)
            }
        },
    }
}

/// The DER objects that fill `data` back to back, or None if one fails to parse.
pub open spec fn split_values(data: Seq<u8>) -> Option<Seq<DerValue>>
    decreases data.len(),
{
    if data.len() == 0 {
        Some(Seq::empty())
    } else {
        match backend::der_value_of(data) {
            None => None,
            Some((v, rest)) => if rest < data.len() {
                match split_values(data.subrange(data.len() - rest, data.len() as int)) {
                    Some(tail) => Some(seq![v] + tail),
                    None => None,
                }
            } else {
                None
            },
        }
    }
}

/// The elements of a universal constructed value with the given tag.
pub open spec fn children_of(value: DerValue, tag: u32) -> Result<Seq<DerValue>, (DecodeIssue, Seq<char>)> {
    if value.class != universal() || value.tag != tag || !value.constructed {
        Err((DecodeIssue::InvalidEncoding, "sequence/set"@))
    } else {
        match split_values(value.data@) {
            Some(s) => Ok(s),
            None => Err((DecodeIssue::InvalidEncoding, "nested DER"@)),
        }
    }
}

/// The elements of a universal SEQUENCE/SET value with the given tag, in order.
pub fn children(value: &DerValue, tag: u32) -> (r: Result<Vec<DerValue>, DecodeDiagnostic>)
    ensures
        match (r, children_of(*value, tag)) {
            (Ok(v), Ok(s)) => v@ == s,
            (Err(d), Err((issue, field))) => reports(d, issue, field),
            _ => false,
        },
{
    if value.class != 0 || value.tag != tag || !value.constructed {
        return Err(DecodeDiagnostic::invalid("sequence/set"));
    }
    let data = value.data.as_slice();
    let mut start: usize = 0;
    let mut result: Vec<DerValue> = Vec::new();
    assert(data@.subrange(0, data@.len() as int) =~= data@);
    while start < data.len()
        invariant
            data@ == value.data@,
            value.class == 0 && value.tag == tag && value.constructed,
            start <= data@.len(),
            split_values(data@) matches Some(all) ==> (
                split_values(data@.subrange(start as int, data@.len() as int)) matches Some(tail)
                && all == result@ + tail),
            split_values(data@) is None ==>
                split_values(data@.subrange(start as int, data@.len() as int)) is None,
        decreases data@.len() - start,
    {
        let rest_input = slice_from(data, start);
        match backend::der_value(rest_input) {
            None => {
                assert(split_values(data@.subrange(start as int, data@.len() as int)) is None);
                assert(split_values(data@) is None);
                return Err(DecodeDiagnostic::invalid("nested DER"));
            },
            Some((item, rest)) => {
                let ghost suffix = data@.subrange(start as int, data@.len() as int);
                assert(rest_input@ == suffix);
                proof {
                    assert(suffix.subrange(suffix.len() - rest, suffix.len() as int)
                        =~= data@.subrange(data@.len() - rest, data@.len() as int));
                }
                result.push(item);
                start = data.len() - rest;
            },
        }
    }
    proof {
        let suffix = data@.subrange(start as int, data@.len() as int);
        assert(suffix =~= Seq::<u8>::empty());
        assert(split_values(suffix) == Some(Seq::<DerValue>::empty()));
        assert(split_values(data@) is Some);
        let all = split_values(data@).unwrap();
        assert(all =~= result@);
    }
    Ok(result)
}

/// The bytes of `s` from `start` on.
pub fn slice_from(s: &[u8], start: usize) -> (r: &[u8])
    requires
        start <= s@.len(),
    ensures
        r@ == s@.subrange(start as int, s@.len() as int),
{
    let (_, tail) = s.split_at(start);
    tail
}

/// The two's-complement value of big-endian octets.
pub open spec fn twos_complement(data: Seq<u8>) -> int {
    if data.len() == 0 {
        0
    } else if data[0] >= 128 {
        unsigned_value(data) - vstd::arithmetic::power::pow(256, data.len())
    } else {
        unsigned_value(data)
    }
}

/// The unsigned value of big-endian octets.
pub open spec fn unsigned_value(data: Seq<u8>) -> int
    decreases data.len(),
{
    if data.len() == 0 {
        0
    } else {
        unsigned_value(data.drop_last()) * 256 + data.last()
    }
}

/// The top bit of an octet is clear exactly when it is below 128.
pub proof fn lemma_top_bit(b: u8)
    ensures
        (b & 0x80 == 0) == (b < 128),
{
    assert((b & 0x80 == 0) == (b < 128)) by (bit_vector);
}

/// INTEGER content octets that are not minimal: a leading 00 before a clear top
/// bit, or a leading ff before a set top bit.
pub open spec fn redundant_sign(data: Seq<u8>) -> bool {
    data.len() > 1 && ((data[0] == 0 && data[1] < 128) || (data[0] == 255 && data[1] >= 128))
}

/// The outcome of decoding an INTEGER: the content hex and i64 value, or the
/// diagnostic.
pub open spec fn integer_outcome(value: DerValue) -> Result<(Seq<char>, Option<i64>), (DecodeIssue, Seq<char>)> {
    if value.class != universal() || value.tag != 2 || value.constructed || value.data@.len() == 0 {
        Err((DecodeIssue::InvalidEncoding, "INTEGER"@))
    } else if redundant_sign(value.data@) {
        Err((DecodeIssue::InvalidEncoding, "INTEGER encoding"@))
    } else {
        let n = twos_complement(value.data@);
        Ok((hex_lower(value.data@), if i64::MIN <= n <= i64::MAX { Some(n as i64) } else { None }))
    }
}

/// Decode a minimally encoded INTEGER, keeping its octets; values outside i64
/// keep only their octets.
pub fn integer(value: &DerValue) -> (r: Result<IntegerValue, DecodeDiagnostic>)
    ensures
        match (r, integer_outcome(*value)) {
            (Ok(v), Ok((hex, n))) => v.content_hex@ == hex && v.value == n,
            (Err(d), Err((issue, field))) => reports(d, issue, field),
            _ => false,
        },
{
    let data = &value.data;
    proof {
        if data@.len() > 1 {
            lemma_top_bit(data@[1]);
        }
    }
    if value.class != 0 || value.tag != 2 || value.constructed || data.len() == 0 {
        return Err(DecodeDiagnostic::invalid("INTEGER"));
    }
    if data.len() > 1 && ((data[0] == 0 && data[1] & 0x80 == 0) || (data[0] == 255 && data[1] & 0x80 != 0)) {
        return Err(DecodeDiagnostic::invalid("INTEGER encoding"));
    }
    Ok(IntegerValue { content_hex: encode_hex(data.as_slice()), value: backend::integer_i64(data.as_slice()) })
}

/// Every byte satisfies a PrintableString character rule.
pub open spec fn printable_byte(b: u8) -> bool {
    (97 <= b <= 122) || (65 <= b <= 90) || (48 <= b <= 57) || b == 32 || b == 39 || b == 40
        || b == 41 || b == 43 || b == 44 || b == 45 || b == 46 || b == 47 || b == 58 || b == 61
        || b == 63
}

/// NumericString characters: digits and space.
pub open spec fn numeric_byte(b: u8) -> bool {
    (48 <= b <= 57) || b == 32
}

/// VisibleString characters as the parser accepts them: 0x20 through 0x7f.
pub open spec fn visible_byte(b: u8) -> bool {
    32 <= b <= 127
}

/// IA5String characters: ASCII.
pub open spec fn ia5_byte(b: u8) -> bool {
    b < 128
}

/// Single-byte characters, one per octet.
pub open spec fn byte_chars(data: Seq<u8>) -> Seq<char> {
    Seq::new(data.len(), |i: int| data[i] as char)
}

/// Whether a 32-bit value is a Unicode scalar value.
pub open spec fn scalar_value(v: int) -> bool {
    0 <= v <= 0xD7FF || 0xE000 <= v <= 0x10FFFF
}

/// The big-endian 32-bit value of four octets at `4 * i`.
pub open spec fn quad(data: Seq<u8>, i: int) -> int {
    data[4 * i] * 0x1000000 + data[4 * i + 1] * 0x10000 + data[4 * i + 2] * 0x100 + data[4 * i + 3]
}

/// UniversalString (UCS-4) text, when every quad is a scalar value.
pub open spec fn ucs4_text(data: Seq<u8>) -> Option<Seq<char>> {
    if data.len() % 4 == 0 && forall|i: int| 0 <= i < data.len() / 4 ==> scalar_value(#[trigger] quad(data, i)) {
        Some(Seq::new(data.len() / 4, |i: int| quad(data, i) as char))
    } else {
        None
    }
}

/// The big-endian 16-bit value of two octets at `2 * i`.
pub open spec fn pair(data: Seq<u8>, i: int) -> int {
    data[2 * i] * 0x100 + data[2 * i + 1]
}

/// A UCS-2 code unit that stands for a Basic Multilingual Plane character on its
/// own: not a surrogate, and not U+FFFF.
pub open spec fn bmp_unit(v: int) -> bool {
    (0 <= v <= 0xD7FF || 0xE000 <= v < 0xFFFF)
}

/// `accepts` holds of no strict prefix of `bytes` and of nothing that continues
/// `bytes` with further octets: an accepted `bytes` is one complete value.
pub open spec fn exactly_framed(bytes: Seq<u8>, accepts: spec_fn(Seq<u8>) -> bool) -> bool {
    &&& forall|n: int| 0 <= n < bytes.len() ==> !accepts(#[trigger] bytes.take(n))
    &&& forall|s: Seq<u8>| s.len() > 0 ==> !accepts(#[trigger] (bytes + s))
}

/// A stricter acceptance of a framed value is framed too.
pub(crate) proof fn lemma_framed_narrows(bytes: Seq<u8>, wide: spec_fn(Seq<u8>) -> bool, narrow: spec_fn(Seq<u8>) -> bool)
    requires
        exactly_framed(bytes, wide),
        forall|b: Seq<u8>| #[trigger] narrow(b) ==> wide(b),
    ensures
        exactly_framed(bytes, narrow),
{
    assert forall|n: int| 0 <= n < bytes.len() implies !narrow(#[trigger] bytes.take(n)) by {
        if narrow(bytes.take(n)) {
            assert(wide(bytes.take(n)));
        }
    }
    assert forall|s: Seq<u8>| s.len() > 0 implies !narrow(#[trigger] (bytes + s)) by {
        if narrow(bytes + s) {
            assert(wide(bytes + s));
        }
    }
}

/// BMPString (UCS-2) text, when the content has an even length that fits the
/// 32-bit length of a DER value and every code unit is a BMP character.
pub open spec fn ucs2_text(data: Seq<u8>) -> Option<Seq<char>> {
    if data.len() % 2 == 0 && data.len() <= u32::MAX
        && forall|i: int| 0 <= i < data.len() / 2 ==> bmp_unit(#[trigger] pair(data, i)) {
        Some(Seq::new(data.len() / 2, |i: int| pair(data, i) as char))
    } else {
        None
    }
}

/// Decoded text of a universal primitive string value, by tag: UTF8String,
/// PrintableString, NumericString, IA5String, VisibleString, UniversalString or
/// BMPString; None for other tags or invalid content.
pub open spec fn decoded_text(v: DerValue) -> Option<Seq<char>> {
    string_text(v.class, v.constructed, v.tag, v.data@)
}

/// Decoded text of a value given by its identifier fields and content.
pub open spec fn string_text(class: u8, constructed: bool, tag: u32, d: Seq<u8>) -> Option<Seq<char>> {
    if class != universal() || constructed {
        None
    } else if tag == 12 {
        if vstd::utf8::valid_utf8(d) { Some(vstd::utf8::decode_utf8(d)) } else { None }
    } else if tag == 19 {
        if forall|i: int| 0 <= i < d.len() ==> printable_byte(#[trigger] d[i]) { Some(byte_chars(d)) } else { None }
    } else if tag == 18 {
        if forall|i: int| 0 <= i < d.len() ==> numeric_byte(#[trigger] d[i]) { Some(byte_chars(d)) } else { None }
    } else if tag == 22 {
        if forall|i: int| 0 <= i < d.len() ==> ia5_byte(#[trigger] d[i]) { Some(byte_chars(d)) } else { None }
    } else if tag == 26 {
        if forall|i: int| 0 <= i < d.len() ==> visible_byte(#[trigger] d[i]) { Some(byte_chars(d)) } else { None }
    } else if tag == 28 {
        ucs4_text(d)
    } else if tag == 30 {
        ucs2_text(d)
    } else {
        None
    }
}

/// The diagnostic for a string value that does not decode.
pub open spec fn text_failure(v: DerValue) -> (DecodeIssue, Seq<char>) {
    string_failure(v.class, v.constructed, v.tag)
}

/// The diagnostic for a string value given by its identifier fields.
pub open spec fn string_failure(class: u8, constructed: bool, tag: u32) -> (DecodeIssue, Seq<char>) {
    if class != universal() || constructed {
        (DecodeIssue::InvalidEncoding, "string tag"@)
    } else if tag == 12 || tag == 19 || tag == 18 || tag == 22 || tag == 26 || tag == 28 || tag == 30 {
        (DecodeIssue::InvalidEncoding, "string encoding"@)
    } else {
        (DecodeIssue::UnsupportedEncoding, "string tag"@)
    }
}

/// Decode a string-typed value without lossy conversion.
pub fn text(value: &DerValue) -> (r: Result<String, DecodeDiagnostic>)
    ensures
        match r {
            Ok(s) => decoded_text(*value) == Some(s@),
            Err(d) => decoded_text(*value) is None && reports(d, text_failure(*value).0, text_failure(*value).1),
        },
{
    if value.class != 0 || value.constructed {
        return Err(DecodeDiagnostic::invalid("string tag"));
    }
    let data = value.data.as_slice();
    let decoded = if value.tag == 12 {
        backend::utf8_text(data)
    } else if value.tag == 19 {
        backend::printable_text(data)
    } else if value.tag == 18 {
        backend::numeric_text(data)
    } else if value.tag == 22 {
        backend::ia5_text(data)
    } else if value.tag == 26 {
        backend::visible_text(data)
    } else if value.tag == 28 {
        backend::universal_text(data)
    } else if value.tag == 30 {
        crate::rustcrypto::bmp_text(data)
    } else {
        return Err(DecodeDiagnostic::new(DecodeIssue::UnsupportedEncoding, "string tag"));
    };
    match decoded {
        Some(s) => Ok(s),
        None => Err(DecodeDiagnostic::invalid("string encoding")),
    }
}

/// The issue a `der` decoding failure is reported as: length and nesting limits
/// are representation limits, an unknown tag is an unsupported encoding, and
/// everything else is invalid encoding.
pub open spec fn der_issue(f: DerFailure) -> DecodeIssue {
    match f {
        DerFailure::Overlength | DerFailure::NestingDepth => DecodeIssue::RepresentationLimit,
        DerFailure::TagUnknown => DecodeIssue::UnsupportedEncoding,
        _ => DecodeIssue::InvalidEncoding,
    }
}

/// The diagnostic for a `der` decoding failure of the named field.
pub fn der_error(f: DerFailure, field: &str) -> (r: DecodeDiagnostic)
    ensures
        reports(r, der_issue(f), field@),
{
    let issue = match f {
        DerFailure::Overlength | DerFailure::NestingDepth => DecodeIssue::RepresentationLimit,
        DerFailure::TagUnknown => DecodeIssue::UnsupportedEncoding,
        _ => DecodeIssue::InvalidEncoding,
    };
    DecodeDiagnostic::new(issue, field)
}

/// The text of a single-byte string: one character per octet, of the octet's value.
proof fn lemma_octet_text(v: DerValue, t: Seq<char>)
    requires
        t == Seq::new(v.data@.len(), |i: int| v.data@[i] as char),
    ensures
        t.len() == v.data@.len(),
        forall|i: int| 0 <= i < t.len() ==> #[trigger] t[i] == v.data@[i] as char,
{
}

/// A universal, primitive PrintableString (tag 19) decodes exactly when every octet
/// is a letter, a digit, a space or one of ' ( ) + , - . / : = ?, and then to
/// those characters, one per octet, in order.
pub proof fn law_printable_strings_decode_to_their_octets(v: DerValue)
    requires
        v.class == 0,
        !v.constructed,
        v.tag == 19,
    ensures
        decoded_text(v) is Some <==> forall|i: int| 0 <= i < v.data@.len() ==> {
            let b = #[trigger] v.data@[i];
            ||| 0x41 <= b <= 0x5a
            ||| 0x61 <= b <= 0x7a
            ||| 0x30 <= b <= 0x39
            ||| b == 0x20 || b == 0x27 || b == 0x28 || b == 0x29 || b == 0x2b || b == 0x2c
            ||| b == 0x2d || b == 0x2e || b == 0x2f || b == 0x3a || b == 0x3d || b == 0x3f
        },
        decoded_text(v) matches Some(t) ==> t.len() == v.data@.len()
            && forall|i: int| 0 <= i < t.len() ==> #[trigger] t[i] == v.data@[i] as char,
{
    if decoded_text(v) is Some {
        lemma_octet_text(v, decoded_text(v).unwrap());
    }
}

/// A universal, primitive NumericString (18), IA5String (22) or VisibleString
/// (26) decodes exactly when every octet is in its character set (digits and
/// space; ASCII below 0x80; 0x20 through 0x7f), and then to those characters, one
/// per octet, in order.
pub proof fn law_ascii_strings_decode_to_their_octets(v: DerValue)
    requires
        v.class == 0,
        !v.constructed,
        v.tag == 18 || v.tag == 22 || v.tag == 26,
    ensures
        v.tag == 18 ==> (decoded_text(v) is Some <==> forall|i: int| 0 <= i < v.data@.len() ==>
            (0x30 <= #[trigger] v.data@[i] <= 0x39 || v.data@[i] == 0x20)),
        v.tag == 22 ==> (decoded_text(v) is Some <==> forall|i: int| 0 <= i < v.data@.len() ==> #[trigger] v.data@[i] < 0x80),
        v.tag == 26 ==> (decoded_text(v) is Some <==> forall|i: int| 0 <= i < v.data@.len() ==>
            0x20 <= #[trigger] v.data@[i] <= 0x7f),
        decoded_text(v) matches Some(t) ==> t.len() == v.data@.len()
            && forall|i: int| 0 <= i < t.len() ==> #[trigger] t[i] == v.data@[i] as char,
{
    if decoded_text(v) is Some {
        lemma_octet_text(v, decoded_text(v).unwrap());
    }
}

/// A universal, primitive UTF8String (12) decodes exactly when its octets are
/// valid UTF-8, and then to the characters they encode.
pub proof fn law_utf8_strings_decode_their_encoding(v: DerValue)
    requires
        v.class == 0,
        !v.constructed,
        v.tag == 12,
    ensures
        decoded_text(v) is Some <==> vstd::utf8::valid_utf8(v.data@),
        decoded_text(v) matches Some(t) ==> vstd::utf8::encode_utf8(t) == v.data@,
{
    if vstd::utf8::valid_utf8(v.data@) {
        vstd::utf8::decode_utf8_encode_utf8(v.data@);
    }
}

/// Strings of another class, or constructed ones, never decode.
pub proof fn law_only_universal_primitive_strings_decode(v: DerValue)
    requires
        v.class != 0 || v.constructed,
    ensures
        decoded_text(v) is None,
{
}

} // verus!
