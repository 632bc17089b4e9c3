use sha2::Digest;
use x509_info::certificate::looks_like_pem;
use x509_info::inspection::{inspect_diagnostics, NameSide};
use x509_info::{
    DecodeIssue, parse_der, parse_der_with_names, parse_pem, parse_pem_with_names, Error, ExtensionDetails, GeneralName,
    KeyDataStatus, OidNames, ParameterStatus, ParseOptions, PublicKeyDetails,
};

fn tlv(tag: u8, content: &[u8]) -> Vec<u8> {
    let mut out = vec![tag];
    let n = content.len();
    if n < 128 {
        out.push(n as u8);
    } else if n < 256 {
        out.extend_from_slice(&[0x81, n as u8]);
    } else {
        out.extend_from_slice(&[0x82, (n >> 8) as u8, n as u8]);
    }
    out.extend_from_slice(content);
    out
}

fn seq(content: &[u8]) -> Vec<u8> {
    tlv(0x30, content)
}

const ED25519: &[u8] = &[6, 3, 0x2b, 0x65, 0x70];
const EC_KEY: &[u8] = &[6, 7, 0x2a, 0x86, 0x48, 0xce, 0x3d, 2, 1];
const P256: &[u8] = &[6, 8, 0x2a, 0x86, 0x48, 0xce, 0x3d, 3, 1, 7];
const ECDSA_SHA256: &[u8] = &[6, 8, 0x2a, 0x86, 0x48, 0xce, 0x3d, 4, 3, 2];

fn name(cn: &[u8]) -> Vec<u8> {
    seq(&tlv(0x31, &seq(&[vec![6, 3, 85, 4, 3], tlv(12, cn)].concat())))
}

fn extension(oid: &[u8], critical: bool, value: &[u8]) -> Vec<u8> {
    let flag = if critical { vec![1, 1, 0xff] } else { vec![] };
    seq(&[oid.to_vec(), flag, tlv(4, value)].concat())
}

struct Parts {
    inner_algorithm: Vec<u8>,
    outer_algorithm: Vec<u8>,
    spki: Vec<u8>,
    extensions: Vec<Vec<u8>>,
}

fn ed25519_parts() -> Parts {
    Parts {
        inner_algorithm: seq(ED25519),
        outer_algorithm: seq(ED25519),
        spki: seq(&[seq(ED25519), tlv(3, &[vec![0], vec![7; 32]].concat())].concat()),
        extensions: vec![
            extension(&[6, 3, 85, 29, 19], true, &[0x30, 0]),
            extension(&[6, 3, 85, 29, 17], false, &seq(&tlv(0x82, b"example.invalid"))),
            extension(&[6, 3, 42, 3, 6], true, &[5, 0]),
        ],
    }
}

fn ec_parts(curve: &[u8]) -> Parts {
    let mut point = vec![4];
    point.extend_from_slice(&[1; 64]);
    Parts {
        inner_algorithm: seq(ECDSA_SHA256),
        outer_algorithm: seq(ECDSA_SHA256),
        spki: seq(&[seq(&[EC_KEY, curve].concat()), tlv(3, &[vec![0], point].concat())].concat()),
        extensions: vec![],
    }
}

fn certificate(parts: &Parts) -> Vec<u8> {
    certificate_for(parts, name(b"x509-info subject"))
}

fn certificate_for(parts: &Parts, subject: Vec<u8>) -> Vec<u8> {
    let validity = seq(&[tlv(0x17, b"250101000000Z"), tlv(0x17, b"300101000000Z")].concat());
    let mut tbs = vec![
        tlv(0xa0, &[2, 1, 2]),
        vec![2, 1, 42],
        parts.inner_algorithm.clone(),
        name(b"x509-info issuer"),
        validity,
        subject,
        parts.spki.clone(),
    ];
    if !parts.extensions.is_empty() {
        tbs.push(tlv(0xa3, &seq(&parts.extensions.concat())));
    }
    let tbs = seq(&tbs.concat());
    // The signature is arbitrary: inspection never verifies it.
    seq(&[tbs, parts.outer_algorithm.clone(), tlv(3, &[vec![0], vec![0x55; 64]].concat())].concat())
}

fn pem(der: &[u8]) -> String {
    pem_rfc7468::encode_string("CERTIFICATE", pem_rfc7468::LineEnding::LF, der).unwrap()
}

#[test]
fn synthetic_certificate_fields_are_owned_and_complete() {
    let der = certificate(&ed25519_parts());
    let info = parse_der(&der, ParseOptions::default()).unwrap();
    assert_eq!(info.der, der);
    assert_eq!(info.version, 3);
    assert_eq!(info.serial_number, [42]);
    assert!(info.subject.display.contains("x509-info subject"));
    assert!(info.issuer.display.contains("x509-info issuer"));
    assert_eq!(info.subject.rdns[0][0].label.as_deref(), Some("CN"));
    assert_eq!(info.subject.rdns[0][0].value.as_deref(), Some("x509-info subject"));
    assert_eq!(info.validity.not_before_unix, 1735689600);
    assert_eq!(info.validity.not_after_unix, 1893456000);
    assert!(info.validity.contains(1735689600) && info.validity.contains(1893456000));
    assert!(!info.validity.contains(1735689599) && !info.validity.contains(1893456001));
    assert_eq!(info.signature_algorithm.oid, "1.3.101.112");
    assert_eq!(info.signature_algorithm.name.as_deref(), Some("Ed25519"));
    assert_eq!(info.signature_algorithm.parameter_status, ParameterStatus::Absent);
    assert_eq!(info.signature_value, vec![0x55; 64]);
    assert_eq!(info.signature_unused_bits, 0);
    assert_eq!(info.public_key.key_size_bits, Some(255));
    assert_eq!(info.public_key.encoded_key_bits, 256);
    assert_eq!(info.public_key.key_data_status, KeyDataStatus::Decoded);
    assert_eq!(info.public_key.key_bytes, vec![7; 32]);
    assert_eq!(info.public_key.curve_oid, None);
    assert_eq!(info.extensions.len(), 3);
    assert_eq!(info.extensions[0].oid, "2.5.29.19");
    assert!(info.extensions[0].critical);
    assert_eq!(info.extensions[0].details, ExtensionDetails::BasicConstraints { ca: false, path_len_constraint: None });
    assert_eq!(info.extensions[1].details, ExtensionDetails::SubjectAlternativeName(vec![GeneralName::Dns("example.invalid".into())]));
    assert_eq!(info.extensions[2].details, ExtensionDetails::Unsupported);
    assert!(info.extensions.iter().all(|e| !e.duplicate));
    assert_eq!(parse_pem(pem(&der).as_bytes(), ParseOptions::default()).unwrap(), info);
    assert_eq!(
        info.public_key.details().unwrap(),
        Some(PublicKeyDetails::Edwards("07".repeat(32)))
    );
}

#[test]
fn synthetic_certificate_rejects_truncation_and_trailing_data() {
    let der = certificate(&ed25519_parts());
    for n in 0..der.len() {
        assert!(parse_der(&der[..n], ParseOptions::default()).is_err(), "prefix {n}");
    }
    for suffix in [&[0xfe, 0][..], der.as_slice()] {
        let mut bytes = der.clone();
        bytes.extend_from_slice(suffix);
        assert_eq!(parse_der(&bytes, ParseOptions::default()).unwrap_err(), Error::TrailingData);
    }
}

#[test]
fn synthetic_certificate_pem_must_be_one_certificate_block() {
    let text = pem(&certificate(&ed25519_parts()));
    let padded = format!(" \t\r\n{text} \n");
    assert!(parse_pem(padded.as_bytes(), ParseOptions::default()).is_ok());
    let bundle = format!("{text}{text}");
    assert_eq!(parse_pem(bundle.as_bytes(), ParseOptions::default()).unwrap_err(), Error::InvalidPem);
    let wrong_label = text.replace("CERTIFICATE", "PRIVATE KEY");
    assert_eq!(parse_pem(wrong_label.as_bytes(), ParseOptions::default()).unwrap_err(), Error::UnexpectedPemLabel);
    let wrong_end = text.replace("END CERTIFICATE", "END PRIVATE KEY");
    assert_eq!(parse_pem(wrong_end.as_bytes(), ParseOptions::default()).unwrap_err(), Error::InvalidPem);
    for bytes in [
        b"garbage".to_vec(),
        [b"prefix".as_slice(), text.as_bytes()].concat(),
        b"-----BEGIN CERTIFICATE-----\n!\n-----END CERTIFICATE-----".to_vec(),
        [text.as_bytes(), b"garbage"].concat(),
    ] {
        assert_eq!(parse_pem(&bytes, ParseOptions::default()).unwrap_err(), Error::InvalidPem);
    }
    let not_a_certificate = pem_rfc7468::encode_string("CERTIFICATE", pem_rfc7468::LineEnding::LF, &[5, 0]).unwrap();
    assert_eq!(
        parse_pem(not_a_certificate.as_bytes(), ParseOptions::default()).unwrap_err(),
        Error::InvalidCertificate
    );
}

#[test]
fn synthetic_certificate_input_budgets_are_enforced() {
    let der = certificate(&ed25519_parts());
    let text = pem(&der);
    for (bytes, is_pem) in [(text.as_bytes(), true), (der.as_slice(), false)] {
        let parse = if is_pem { parse_pem } else { parse_der };
        assert_eq!(parse(bytes, ParseOptions { max_input_bytes: 0 }).unwrap_err(), Error::InvalidOptions);
        assert_eq!(
            parse(bytes, ParseOptions { max_input_bytes: bytes.len() - 1 }).unwrap_err(),
            Error::LimitExceeded
        );
        assert!(parse(bytes, ParseOptions { max_input_bytes: bytes.len() }).is_ok());
    }
    assert_eq!(ParseOptions::default().max_input_bytes, 1024 * 1024);
}

#[test]
fn synthetic_certificate_signature_identifiers_must_agree() {
    let mut parts = ed25519_parts();
    parts.outer_algorithm = seq(ECDSA_SHA256);
    assert_eq!(
        parse_der(&certificate(&parts), ParseOptions::default()).unwrap_err(),
        Error::InconsistentSignatureAlgorithm
    );
}

#[test]
fn synthetic_ec_keys_report_named_curves_and_nominal_sizes() {
    let info = parse_der(&certificate(&ec_parts(P256)), ParseOptions::default()).unwrap();
    assert_eq!(info.public_key.algorithm.oid, "1.2.840.10045.2.1");
    assert_eq!(info.public_key.algorithm.parameter_status, ParameterStatus::Decoded);
    assert_eq!(info.public_key.curve_oid.as_deref(), Some("1.2.840.10045.3.1.7"));
    assert_eq!(info.public_key.curve_name.as_deref(), Some("P-256"));
    assert_eq!(info.public_key.key_size_bits, Some(256));
    assert_eq!(info.public_key.encoded_key_bits, 520);
    assert_eq!(info.signature_algorithm.name.as_deref(), Some("ECDSA-SHA256"));
    let Some(PublicKeyDetails::EcUncompressed { x_hex, y_hex }) = info.public_key.details().unwrap() else {
        panic!("EC point")
    };
    assert_eq!(x_hex, "01".repeat(32));
    assert_eq!(y_hex, "01".repeat(32));
    let unknown = [&P256[..P256.len() - 1], &[99]].concat();
    let info = parse_der(&certificate(&ec_parts(&unknown)), ParseOptions::default()).unwrap();
    assert_eq!(info.public_key.curve_oid.as_deref(), Some("1.2.840.10045.3.1.99"));
    assert_eq!(info.public_key.key_size_bits, None);
    assert_eq!(info.public_key.key_data_status, KeyDataStatus::Unparsed);
    assert_eq!(info.public_key.encoded_key_bits, 520);
}

#[test]
fn synthetic_certificate_labels_follow_the_callers_table() {
    let der = certificate(&ec_parts(P256));
    let result = {
        let mut names = OidNames::default();
        names.insert("1.2.840.10045.2.1", "Our EC label").unwrap();
        names.insert("2.5.4.3", "Common name").unwrap();
        parse_der_with_names(&der, ParseOptions::default(), &names).unwrap()
    };
    assert_eq!(result.public_key.algorithm.name.as_deref(), Some("Our EC label"));
    assert_eq!(result.public_key.key_size_bits, Some(256));
    assert_eq!(result.subject.rdns[0][0].label.as_deref(), Some("Common name"));
    assert_eq!(parse_der(&der, ParseOptions::default()).unwrap().public_key.algorithm.name.as_deref(), Some("EC"));
    let text = pem(&der);
    let names = OidNames::default();
    assert_eq!(
        parse_pem_with_names(text.as_bytes(), ParseOptions::default(), &names).unwrap(),
        parse_der_with_names(&der, ParseOptions::default(), &names).unwrap()
    );
}

#[test]
fn synthetic_duplicates_are_marked_and_malformed_values_stay_visible() {
    let mut parts = ed25519_parts();
    parts.extensions.push(extension(&[6, 3, 85, 29, 19], false, &[5, 0]));
    let info = parse_der(&certificate(&parts), ParseOptions::default()).unwrap();
    let duplicates: Vec<_> = info.extensions.iter().filter(|e| e.oid == "2.5.29.19").collect();
    assert_eq!(duplicates.len(), 2);
    assert!(duplicates.iter().all(|e| e.duplicate));
    assert_eq!(duplicates[1].details, ExtensionDetails::Malformed);
    assert_eq!(duplicates[1].value_der, [5, 0]);
    assert!(!info.extensions[1].duplicate);
    assert_eq!(duplicates[1].diagnostic().unwrap().issue, x509_info::DecodeIssue::Unclassified);
}

#[test]
fn synthetic_summary_copies_fields_and_fingerprints_the_der() {
    let der = certificate(&ed25519_parts());
    let info = parse_der(&der, ParseOptions::default()).unwrap();
    let expected: [u8; 32] = sha2::Sha256::digest(&der).into();
    assert_eq!(info.sha256_fingerprint(), expected);
    let summary = info.summary();
    assert_eq!(summary.schema_version, 1);
    assert_eq!(summary.version, 3);
    assert_eq!(summary.serial_number_hex, "2a");
    assert_eq!(summary.sha256_fingerprint_hex, x509_info::text::encode_hex(&expected));
    assert_eq!(summary.subject.display, info.subject.display);
    assert_eq!(summary.subject.rdns, info.subject.rdns);
    assert_eq!(summary.validity, info.validity);
    assert_eq!(summary.signature_algorithm.oid, "1.3.101.112");
    assert_eq!(summary.public_key.key_size_bits, Some(255));
    assert_eq!(summary.extensions.len(), 3);
    assert_eq!(summary.extensions[1].details, info.extensions[1].details);
    let spki: [u8; 32] = sha2::Sha256::digest(&info.public_key.spki_der).into();
    assert_eq!(info.public_key.spki_sha256_fingerprint(), spki);
}

#[test]
fn inspection_lists_name_extension_and_directory_diagnostics_by_position() {
    let mut parts = ed25519_parts();
    // Subject directory attributes: one attribute holding an OCTET STRING and a UTF8String.
    let attributes = seq(&seq(&[vec![6, 3, 42, 3, 4], tlv(0x31, &[4, 1, 0xff, 12, 1, b'a'])].concat()));
    parts.extensions.push(extension(&[6, 3, 85, 29, 9], false, &attributes));
    // A subject whose second RDN holds an INTEGER value, which has no text form.
    let cn = seq(&[vec![6, 3, 85, 4, 3], tlv(12, b"shown")].concat());
    let serial = seq(&[vec![6, 3, 85, 4, 5], vec![2, 1, 5]].concat());
    let subject = seq(&[tlv(0x31, &cn), tlv(0x31, &serial)].concat());
    let der = certificate_for(&parts, subject);
    let info = parse_der(&der, ParseOptions::default()).unwrap();
    let diagnostics = inspect_diagnostics(&info);

    assert_eq!(diagnostics.name_diagnostics.len(), 1);
    let name = &diagnostics.name_diagnostics[0];
    assert_eq!(name.name, NameSide::Subject);
    assert_eq!((name.rdn_index, name.attribute_index), (1, 0));
    assert_eq!(Some(name.diagnostic.clone()), info.subject.rdns[1][0].diagnostic());

    assert_eq!(diagnostics.extension_diagnostics.len(), 1);
    let unknown = &diagnostics.extension_diagnostics[0];
    assert_eq!(unknown.index, 2);
    assert_eq!(unknown.oid, "1.2.3.6");
    assert_eq!(unknown.diagnostic.issue, DecodeIssue::UnknownType);

    assert_eq!(diagnostics.directory_attribute_values.len(), 1);
    let values = &diagnostics.directory_attribute_values[0];
    assert_eq!((values.extension_index, values.attribute_index), (3, 0));
    assert_eq!(values.values.len(), 2);
    assert!(values.values[0].is_err());
    assert_eq!(values.values[1].as_deref(), Ok("a"));
}

#[test]
fn pem_is_recognised_by_its_opening_armor_after_whitespace() {
    assert!(looks_like_pem(b"-----BEGIN CERTIFICATE-----\n"));
    assert!(looks_like_pem(b" \r\n\t-----BEGIN X"));
    assert!(looks_like_pem(pem(&certificate(&ed25519_parts())).as_bytes()));
    assert!(!looks_like_pem(b"-----BEGIN"));
    assert!(!looks_like_pem(b"x-----BEGIN CERTIFICATE"));
    assert!(!looks_like_pem(&certificate(&ed25519_parts())));
    assert!(!looks_like_pem(b""));
}

#[test]
fn synthetic_summaries_repeat_and_retained_der_inspects_again() {
    let der = certificate(&ed25519_parts());
    let mut info = parse_der(&der, ParseOptions::default()).unwrap();
    assert_eq!(info.summary(), info.summary());
    for (s, e) in info.summary().extensions.iter().zip(info.extensions.iter()) {
        assert_eq!((&s.oid, s.critical, s.duplicate, &s.details), (&e.oid, e.critical, e.duplicate, &e.details));
    }
    assert_eq!(parse_der(&info.der, ParseOptions::default()).unwrap(), info);
    info.version = 9;
    info.public_key.key_size_bits = Some(7);
    let changed = info.summary();
    assert_eq!(changed.version, 9);
    assert_eq!(changed.public_key.key_size_bits, Some(7));
}
