use x509_info::extensions::{additional, decode, decode_with_names, device, policies};
use x509_info::{
    ConstraintName, DecodeIssue, ExtensionDetails, ExtensionInfo, GeneralName, OidNames,
    PolicyQualifierDetails, SctEntry,
};

type E = ExtensionDetails;

fn tlv(tag: u8, content: &[u8]) -> Vec<u8> {
    assert!(content.len() < 256);
    let mut out = vec![tag];
    if content.len() >= 128 {
        out.push(0x81);
    }
    out.push(content.len() as u8);
    out.extend_from_slice(content);
    out
}

fn seq(content: &[u8]) -> Vec<u8> {
    tlv(0x30, content)
}

fn get(oid: &str, bytes: &[u8]) -> E {
    additional::decode(oid, bytes, &OidNames::default()).unwrap()
}

fn constraints() -> Vec<u8> {
    let dns = seq(&[tlv(0x82, b".example.invalid"), vec![0x80, 1, 1, 0x81, 1, 2]].concat());
    let ip = seq(&tlv(0x87, &[192, 0, 2, 99, 255, 0, 255, 0]));
    let mut ipv6 = [0xff; 32];
    ipv6[..16].fill(0);
    ipv6[0] = 0x20;
    ipv6[1] = 1;
    ipv6[31] = 0;
    seq(&[
        tlv(0xa0, &[dns, ip, seq(&tlv(0x87, &ipv6))].concat()),
        tlv(0xa1, &seq(&tlv(0x87, &[1, 2, 3]))),
    ]
    .concat())
}

fn mappings() -> Vec<u8> {
    let pair = seq(&[6, 3, 42, 3, 4, 6, 3, 42, 3, 5]);
    seq(&[pair.clone(), pair].concat())
}

fn attributes() -> Vec<u8> {
    seq(&seq(&[vec![6, 3, 42, 3, 4], tlv(0x31, &[4, 1, 0xff, 12, 1, b'a'])].concat()))
}

fn sct() -> Vec<u8> {
    let mut entry = vec![0];
    entry.extend_from_slice(&[0xab; 32]);
    entry.extend_from_slice(&1234567890123u64.to_be_bytes());
    entry.extend_from_slice(&[0, 1, 0x42, 4, 3, 0, 2, 0x30, 0]);
    let mut list = (entry.len() as u16).to_be_bytes().to_vec();
    list.extend(entry);
    list.extend_from_slice(&[0, 2, 7, 0xcc]); // Unknown version stays opaque.
    tlv(4, &[(list.len() as u16).to_be_bytes().to_vec(), list].concat())
}

#[test]
fn known_extensions_reject_trailing_truncated_and_wrong_inner_types() {
    let examples: &[(&str, &[u8])] = &[
        ("2.5.29.19", &[0x30, 0]),
        ("2.5.29.15", &[3, 2, 7, 0x80]),
        ("2.5.29.37", &[0x30, 5, 6, 3, 42, 3, 5]),
        ("2.5.29.17", &[0x30, 3, 0x82, 1, b'a']),
    ];
    for (oid, bytes) in examples {
        assert_ne!(decode(oid, bytes), ExtensionDetails::Malformed);
        for n in 0..bytes.len() {
            assert_eq!(decode(oid, &bytes[..n]), ExtensionDetails::Malformed, "{oid} prefix {n}");
        }
        assert_eq!(decode(oid, &[*bytes, &[0]].concat()), ExtensionDetails::Malformed);
        assert_eq!(decode(oid, &[5, 0]), ExtensionDetails::Malformed);
    }
    assert_eq!(decode("1.2.3.4", &[0xff]), ExtensionDetails::Unsupported);
}

#[test]
fn key_usage_and_general_names_do_not_silently_drop_invalid_data() {
    for invalid in [&[3, 1, 0][..], &[3, 2, 8, 0x80], &[3, 2, 7, 0x81], &[3, 3, 6, 0, 0x40], &[3, 4, 0, 0, 0, 1]] {
        assert_eq!(decode("2.5.29.15", invalid), ExtensionDetails::Malformed);
    }
    let ExtensionDetails::KeyUsage(ku) = decode("2.5.29.15", &[3, 3, 7, 0x08, 0x80]) else {
        panic!("expected KU")
    };
    assert!(ku.key_agreement && ku.decipher_only);
    let ExtensionDetails::SubjectAlternativeName(names) = decode("2.5.29.17", &[0x30, 5, 0x87, 3, 1, 2, 3]) else {
        panic!("expected SAN")
    };
    assert_eq!(names, [GeneralName::Malformed(7)]);
    let ExtensionDetails::SubjectAlternativeName(names) = decode("2.5.29.17", &[0x30, 2, 0xa3, 0]) else {
        panic!("expected SAN")
    };
    assert_eq!(names, [GeneralName::X400Address { constructed: true, content_hex: String::new() }]);
    let ExtensionDetails::SubjectAlternativeName(names) =
        decode("2.5.29.17", &[0x30, 8, 0xa3, 2, 4, 0, 0xa5, 2, 0x30, 0])
    else {
        panic!("expected SAN")
    };
    assert_eq!(
        names,
        [
            GeneralName::X400Address { constructed: true, content_hex: "0400".to_string() },
            GeneralName::EdiPartyName { constructed: true, content_hex: "3000".to_string() },
        ]
    );
}

#[test]
fn additional_decoder_calls_other_oids_unsupported() {
    assert_eq!(additional::decode("1.2.3.4", &[5, 0], &OidNames::default()), Some(ExtensionDetails::Unsupported));
    assert_eq!(additional::decode("2.5.29.17", &[0x30, 0], &OidNames::default()), Some(ExtensionDetails::Unsupported));
}

#[test]
fn eku_retains_repeated_unknown_purposes_in_order() {
    let ExtensionDetails::ExtendedKeyUsage(purposes) =
        decode("2.5.29.37", &[0x30, 10, 6, 3, 42, 3, 5, 6, 3, 42, 3, 5])
    else {
        panic!("expected EKU")
    };
    assert_eq!(purposes.len(), 2);
    assert_eq!(purposes[0], purposes[1]);
    assert_eq!(purposes[0].name, None);
}

#[test]
fn constraints_keep_masks_distances_and_malformed_ip_values() {
    let E::NameConstraints(value) = get("2.5.29.30", &constraints()) else {
        panic!()
    };
    let permitted = value.permitted_subtrees.unwrap();
    assert_eq!(permitted.len(), 3);
    assert_eq!(permitted[0].base, ConstraintName::Name(GeneralName::Dns(".example.invalid".into())));
    assert_eq!(permitted[0].minimum, 1);
    assert_eq!(permitted[0].maximum, Some(2));
    assert_eq!(permitted[1].minimum, 0);
    assert_eq!(permitted[1].maximum, None);
    assert_eq!(
        permitted[1].base,
        ConstraintName::Ip { address: "192.0.2.99".into(), mask: "255.0.255.0".into() }
    );
    assert_eq!(
        permitted[2].base,
        ConstraintName::Ip { address: "2001::".into(), mask: "ffff:ffff:ffff:ffff:ffff:ffff:ffff:ff00".into() }
    );
    assert_eq!(value.excluded_subtrees.unwrap()[0].base, ConstraintName::MalformedIp("010203".into()));
}

#[test]
fn policy_counters_pairs_and_directory_values_are_preserved() {
    let result = {
        let mut names = OidNames::default();
        names.insert("1.2.3.4", "Private policy").unwrap();
        additional::decode("2.5.29.33", &mappings(), &names).unwrap()
    };
    let E::PolicyMappings(pairs) = result else {
        panic!()
    };
    assert_eq!(pairs.len(), 2);
    assert_eq!(pairs[0], pairs[1]);
    assert_eq!(pairs[0].issuer_domain_policy_name.as_deref(), Some("Private policy"));
    assert_eq!(pairs[0].subject_domain_policy, "1.2.3.5");
    let E::PolicyConstraints(p) = get("2.5.29.36", &[0x30, 6, 0x80, 1, 0, 0x81, 1, 3]) else {
        panic!()
    };
    assert_eq!(p.require_explicit_policy, Some(0));
    assert_eq!(p.inhibit_policy_mapping, Some(3));
    assert_eq!(get("2.5.29.54", &[2, 1, 0]), E::InhibitAnyPolicy(0));
    let E::SubjectDirectoryAttributes(a) = get("2.5.29.9", &attributes()) else {
        panic!()
    };
    assert_eq!(a[0].oid, "1.2.3.4");
    assert_eq!(a[0].values_der_hex, ["0401ff", "0c0161"]);
}

#[test]
fn times_tls_markers_and_legacy_flags_are_inspection_data() {
    let E::PrivateKeyUsagePeriod(p) = get("2.5.29.16", &seq(&tlv(0x80, b"19700101000000Z"))) else {
        panic!()
    };
    assert_eq!(p.not_before_unix, Some(0));
    assert_eq!(p.not_after_unix, None);
    assert_eq!(
        get("1.3.6.1.5.5.7.1.24", &[0x30, 11, 2, 1, 5, 2, 3, 0, 255, 255, 2, 1, 5]),
        E::TlsFeatures(vec![5, 65535, 5])
    );
    assert_eq!(get("1.3.6.1.5.5.7.48.1.5", &[5, 0]), E::OcspNoCheck);
    assert_eq!(get("1.3.6.1.4.1.11129.2.4.3", &[5, 0]), E::CtPoison);
    assert_eq!(
        get("2.16.840.1.113730.1.13", &tlv(22, b"<opaque comment>")),
        E::NetscapeComment("<opaque comment>".into())
    );
    let E::NetscapeCertificateType(n) = get("2.16.840.1.113730.1.1", &[3, 2, 0, 0xa8]) else {
        panic!()
    };
    assert!(n.ssl_client && n.smime && n.reserved);
    assert!(!n.ssl_server && !n.object_signing && !n.ssl_ca && !n.smime_ca && !n.object_signing_ca);
}

#[test]
fn sct_keeps_unknown_versions_and_checks_all_vector_boundaries() {
    let encoded = sct();
    let E::SignedCertificateTimestamps(entries) = get("1.3.6.1.4.1.11129.2.4.2", &encoded) else {
        panic!()
    };
    let SctEntry::V1(v) = &entries[0] else {
        panic!()
    };
    assert_eq!(v.log_id_hex, "ab".repeat(32));
    assert_eq!(v.timestamp_unix_ms, 1234567890123);
    assert_eq!((v.hash_algorithm, v.signature_algorithm), (4, 3));
    assert_eq!(v.extensions_hex, "42");
    assert_eq!(v.signature_hex, "3000");
    assert_eq!(entries[1], SctEntry::Unknown { version: 7, encoded_hex: "07cc".into() });
    // Unconsumed bytes inside the OCTET STRING, the list, and a known SCT entry.
    for layer in 0..3 {
        let mut bad = encoded.clone();
        if layer == 2 {
            bad.insert(55, 0xff);
        } else {
            bad.push(0xff);
        }
        bad[1] += 1;
        if layer >= 1 {
            bad[3] += 1;
        }
        if layer == 2 {
            bad[5] += 1;
        }
        assert!(
            additional::decode("1.3.6.1.4.1.11129.2.4.2", &bad, &OidNames::default()).is_none(),
            "layer {layer}"
        );
    }
}

#[test]
fn all_new_decoders_reject_truncation_and_trailing_objects() {
    let examples = [
        ("2.5.29.30", constraints()),
        ("2.5.29.36", vec![0x30, 3, 0x80, 1, 0]),
        ("2.5.29.33", mappings()),
        ("2.5.29.54", vec![2, 1, 1]),
        ("2.5.29.16", seq(&tlv(0x81, b"20300101000000Z"))),
        ("2.5.29.9", attributes()),
        ("1.3.6.1.5.5.7.1.24", vec![0x30, 3, 2, 1, 5]),
        ("1.3.6.1.5.5.7.48.1.5", vec![5, 0]),
        ("1.3.6.1.4.1.11129.2.4.3", vec![5, 0]),
        ("1.3.6.1.4.1.11129.2.4.2", sct()),
        ("2.16.840.1.113730.1.13", tlv(22, b"hello")),
        ("2.16.840.1.113730.1.1", vec![3, 2, 7, 0x80]),
    ];
    for (oid, bytes) in examples {
        assert!(additional::decode(oid, &bytes, &OidNames::default()).is_some(), "{oid}");
        for end in 0..bytes.len() {
            assert!(additional::decode(oid, &bytes[..end], &OidNames::default()).is_none(), "{oid} prefix {end}");
        }
        let trailing = [bytes, vec![5, 0]].concat();
        assert!(additional::decode(oid, &trailing, &OidNames::default()).is_none(), "{oid} trailing");
    }
    for (oid, bytes) in [
        ("2.5.29.30", seq(&[0xa0, 0])),
        ("2.5.29.30", seq(&[])),
        ("2.5.29.36", seq(&[5, 0])),
        ("2.5.29.36", seq(&[])),
        ("2.5.29.16", seq(&[5, 0])),
        ("2.5.29.16", seq(&[])),
        ("2.5.29.33", seq(&[])),
        ("2.5.29.9", seq(&[])),
        ("2.5.29.9", seq(&seq(&[6, 1, 42, 0x31, 0]))),
        ("2.5.29.54", vec![2, 1, 255]),
        ("2.5.29.54", vec![2, 5, 1, 0, 0, 0, 0]),
        ("1.3.6.1.5.5.7.1.24", seq(&[2, 3, 1, 0, 0])),
        ("1.3.6.1.5.5.7.1.24", seq(&[])),
        ("2.16.840.1.113730.1.1", vec![3, 2, 7, 0x81]),
        ("2.16.840.1.113730.1.1", vec![3, 3, 0, 0, 1]),
    ] {
        assert!(additional::decode(oid, &bytes, &OidNames::default()).is_none(), "{oid}: {bytes:x?}");
    }
}

#[test]
fn policy_qualifier_failures_and_unparsed_values_are_distinct() {
    // Policy 1.2 containing a CPS qualifier with a NULL value.
    let bytes = [0x30, 21, 0x30, 19, 6, 1, 42, 0x30, 14, 0x30, 12, 6, 8, 43, 6, 1, 5, 5, 7, 2, 1, 5, 0];
    let names = OidNames::default();
    let result = policies::decode(&bytes, &names).unwrap();
    assert_eq!(result[0].qualifiers[0].details, PolicyQualifierDetails::Malformed);
    assert_eq!(result[0].qualifiers[0].value_der_hex, "0500");
    let mut unknown = bytes;
    unknown[20] = 99;
    assert_eq!(policies::decode(&unknown, &names).unwrap()[0].qualifiers[0].details, PolicyQualifierDetails::Unparsed);
    // A qualifier without its required ANY value must not become an empty result.
    let missing = [0x30, 19, 0x30, 17, 6, 1, 42, 0x30, 12, 0x30, 10, 6, 8, 43, 6, 1, 5, 5, 7, 2, 1];
    assert!(policies::decode(&missing, &names).is_none());
}

#[test]
fn fido_and_microsoft_fields_are_not_profile_validation() {
    assert_eq!(
        device::decode("1.3.6.1.4.1.45724.1.1.4", &tlv(4, &[1, 2])).unwrap(),
        Some(ExtensionDetails::FidoAaguid("0102".into()))
    );
    let Some(ExtensionDetails::FidoTransports(t)) = device::decode("1.3.6.1.4.1.45724.2.1.1", &[3, 2, 0, 0xa1]).unwrap()
    else {
        panic!()
    };
    assert!(t.bluetooth_classic && t.usb);
    assert_eq!(t.unknown_bits, vec![7]);
    let der = seq(&[vec![6, 3, 42, 3, 4], vec![2, 1, 255], tlv(2, &[1, 0, 0, 0, 0, 0, 0, 0, 0])].concat());
    let Some(ExtensionDetails::MicrosoftCertificateTemplate(t)) = device::decode("1.3.6.1.4.1.311.21.7", &der).unwrap()
    else {
        panic!()
    };
    assert_eq!(t.template_oid, "1.2.3.4");
    assert_eq!(t.major_version.unwrap().value, Some(-1));
    assert_eq!(t.minor_version.unwrap().value, None);
    assert_eq!(
        device::decode("1.3.6.1.4.1.311.20.2", &tlv(30, &[0, 65])).unwrap(),
        Some(ExtensionDetails::MicrosoftTemplateName("A".into()))
    );
    for (oid, bytes) in [
        ("1.3.6.1.4.1.45724.1.1.4", tlv(4, &[1; 16])),
        ("1.3.6.1.4.1.45724.2.1.1", vec![3, 2, 0, 0xa1]),
        ("1.3.6.1.4.1.311.21.7", der),
        ("1.3.6.1.4.1.311.20.2", tlv(30, &[0, 65])),
    ] {
        for end in 0..bytes.len() {
            assert!(device::decode(oid, &bytes[..end]).is_err());
        }
        assert!(device::decode(oid, &[bytes, vec![5, 0]].concat()).is_err());
    }
}

#[test]
fn diagnostics_do_not_mislabel_all_failures_as_invalid_der() {
    let mut ext = ExtensionInfo {
        oid: "2.5.29.54".into(),
        critical: true,
        duplicate: false,
        value_der: vec![2, 5, 1, 0, 0, 0, 0],
        details: ExtensionDetails::Malformed,
    };
    assert_eq!(ext.diagnostic().unwrap().issue, DecodeIssue::RepresentationLimit);
    ext.value_der = vec![2, 1, 255];
    assert_eq!(ext.diagnostic().unwrap().issue, DecodeIssue::InvalidEncoding);
    ext.details = ExtensionDetails::Unsupported;
    assert_eq!(ext.diagnostic().unwrap().issue, DecodeIssue::UnknownType);
}

#[test]
fn locations_identifiers_and_access_methods_decode_with_caller_labels() {
    assert_eq!(decode("2.5.29.14", &[4, 3, 1, 2, 3]), E::SubjectKeyIdentifier("010203".into()));
    let aia = seq(&[
        seq(&[vec![6, 8, 43, 6, 1, 5, 5, 7, 48, 1], tlv(0x86, b"https://ocsp.example.invalid")].concat()),
        seq(&[vec![6, 3, 42, 3, 7], tlv(0x82, b"example.invalid")].concat()),
    ]
    .concat());
    let mut names = OidNames::default();
    names.insert("1.2.3.7", "Internal endpoint").unwrap();
    let E::AuthorityInfoAccess(access) = decode_with_names("1.3.6.1.5.5.7.1.1", &aia, &names) else {
        panic!("AIA")
    };
    assert_eq!(access.len(), 2);
    assert_eq!(access[0].method_name.as_deref(), Some("ocsp"));
    assert_eq!(access[0].location, GeneralName::Uri("https://ocsp.example.invalid".into()));
    assert_eq!(access[1].method_oid, "1.2.3.7");
    assert_eq!(access[1].method_name.as_deref(), Some("Internal endpoint"));
    assert_eq!(decode("1.3.6.1.5.5.7.1.1", &seq(&[])), E::Malformed);
    assert_eq!(
        decode("2.5.29.18", &seq(&tlv(0x81, b"issuer@example.invalid"))),
        E::IssuerAlternativeName(vec![GeneralName::Email("issuer@example.invalid".into())])
    );
    let aki = seq(&[tlv(0x80, &[0xaa, 0xbb]), tlv(0x82, &[0, 0x80])].concat());
    let E::AuthorityKeyIdentifier(k) = decode("2.5.29.35", &aki) else {
        panic!("AKI")
    };
    assert_eq!(k.key_identifier_hex.as_deref(), Some("aabb"));
    assert_eq!(k.authority_cert_serial_hex.as_deref(), Some("0080"));
    assert_eq!(k.authority_cert_issuer, None);
}

#[test]
fn crl_points_keep_reasons_relative_names_and_full_names() {
    let full = seq(&tlv(0xa0, &tlv(0xa0, &tlv(0x86, b"https://crl.example.invalid/delta.crl"))));
    let E::FreshestCrl(delta) = decode("2.5.29.46", &seq(&full)) else {
        panic!("delta")
    };
    assert_eq!(delta[0].reason_flags, None);
    assert_eq!(
        delta[0].name,
        Some(x509_info::DistributionPointName::FullName(vec![GeneralName::Uri(
            "https://crl.example.invalid/delta.crl".into()
        )]))
    );
    let cn = seq(&[vec![6, 3, 85, 4, 3], tlv(12, b"Relative CRL")].concat());
    let relative = seq(&[tlv(0xa0, &tlv(0xa1, &cn)), tlv(0x81, &[1, 6])].concat());
    let E::CrlDistributionPoints(points) = decode("2.5.29.31", &seq(&relative)) else {
        panic!("CRL")
    };
    let Some(x509_info::DistributionPointName::RelativeName(rdn)) = &points[0].name else {
        panic!("relative name")
    };
    assert_eq!(rdn[0].value.as_deref(), Some("Relative CRL"));
    assert_eq!(rdn[0].label.as_deref(), Some("CN"));
    assert!(points[0].reason_flags.is_some());
    assert_eq!(decode("2.5.29.31", &seq(&[])), E::Malformed);
}

#[test]
fn other_names_are_projected_with_their_wrapper_bytes() {
    let upn = seq(&tlv(0xa0, &[vec![6, 10, 43, 6, 1, 4, 1, 130, 55, 20, 2, 3], tlv(0xa0, &tlv(12, b"a"))].concat()));
    let E::SubjectAlternativeName(names) = decode("2.5.29.17", &upn) else {
        panic!("SAN")
    };
    let GeneralName::OtherName { oid, value_der_hex, .. } = &names[0] else {
        panic!("other name")
    };
    assert_eq!(oid, "1.3.6.1.4.1.311.20.2.3");
    assert_eq!(value_der_hex, "a0030c0161");
    assert_eq!(names[0].details().unwrap(), Some(x509_info::NameDetails::UserPrincipalName("a".into())));
}

#[test]
fn policies_keep_cps_uris_and_qualifier_encodings() {
    let cps = seq(&[vec![6, 8, 43, 6, 1, 5, 5, 7, 2, 1], tlv(22, b"https://policy.example.invalid/cps")].concat());
    let notice = seq(&[vec![6, 8, 43, 6, 1, 5, 5, 7, 2, 2], seq(&tlv(12, b"Example notice"))].concat());
    let value = seq(&[
        seq(&[6, 4, 85, 29, 32, 0]),
        seq(&[vec![6, 3, 42, 3, 9], seq(&[cps, notice].concat())].concat()),
    ]
    .concat());
    let E::CertificatePolicies(list) = decode("2.5.29.32", &value) else {
        panic!("policies")
    };
    assert_eq!(list.len(), 2);
    assert_eq!(list[0].oid, "2.5.29.32.0");
    assert!(list[0].qualifiers.is_empty());
    assert_eq!(list[1].oid, "1.2.3.9");
    assert_eq!(list[1].name, None);
    assert_eq!(list[1].qualifiers[0].details, PolicyQualifierDetails::CpsUri("https://policy.example.invalid/cps".into()));
    assert_eq!(list[1].qualifiers[1].details, PolicyQualifierDetails::Unparsed);
    assert!(list[1].qualifiers[1].value_der_hex.contains("4578616d706c65206e6f74696365"));
}

#[test]
fn notices_keep_signed_large_repeated_numbers_and_all_display_text_choices() {
    // UserNotice qualifiers are not projected: each one, whatever its display-text
    // choice and notice numbers, stays Unparsed with its complete DER retained.
    for text in [
        tlv(12, b"Notice"),
        tlv(22, b"Notice"),
        tlv(26, b"Notice"),
        tlv(30, &[0, 78, 0, 111, 0, 116, 0, 105, 0, 99, 0, 101]),
    ] {
        let reference = seq(&[
            tlv(26, b"Org"),
            seq(&[vec![2, 1, 255, 2, 1, 255], tlv(2, &[1, 0, 0, 0, 0, 0, 0, 0, 0])].concat()),
        ]
        .concat());
        let notice = seq(&[reference, text].concat());
        let qualifier = seq(&[vec![6, 8, 43, 6, 1, 5, 5, 7, 2, 2], notice.clone()].concat());
        let encoded = seq(&seq(&[vec![6, 1, 42], seq(&qualifier)].concat()));
        let p = policies::decode(&encoded, &OidNames::default()).unwrap();
        assert_eq!(p[0].oid, "1.2");
        assert_eq!(p[0].qualifiers.len(), 1);
        assert_eq!(p[0].qualifiers[0].oid, "1.3.6.1.5.5.7.2.2");
        assert_eq!(p[0].qualifiers[0].details, PolicyQualifierDetails::Unparsed);
        assert_eq!(p[0].qualifiers[0].value_der_hex, x509_info::text::encode_hex(&notice));
    }
}
