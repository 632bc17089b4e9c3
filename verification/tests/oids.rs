use x509_info::oids::canonical_oid;
use x509_info::OidNames;

const LABELS: &[(&str, &str)] = &[
    ("2.5.4.3", "CN"),
    ("2.5.4.6", "C"),
    ("2.5.4.7", "L"),
    ("2.5.4.8", "ST"),
    ("2.5.4.10", "O"),
    ("2.5.4.11", "OU"),
    ("2.5.4.5", "serialNumber"),
    ("0.9.2342.19200300.100.1.25", "DC"),
    ("1.2.840.113549.1.9.1", "emailAddress"),
    ("1.2.840.113549.1.1.1", "RSA"),
    ("1.2.840.113549.1.1.10", "RSA-PSS"),
    ("1.2.840.10045.2.1", "EC"),
    ("1.3.101.112", "Ed25519"),
    ("1.3.101.113", "Ed448"),
    ("1.3.101.110", "X25519"),
    ("1.3.101.111", "X448"),
    ("1.2.840.113549.1.1.5", "RSA-SHA1"),
    ("1.2.840.113549.1.1.14", "RSA-SHA224"),
    ("1.2.840.113549.1.1.11", "RSA-SHA256"),
    ("1.2.840.113549.1.1.12", "RSA-SHA384"),
    ("1.2.840.113549.1.1.13", "RSA-SHA512"),
    ("1.2.840.10045.4.1", "ECDSA-SHA1"),
    ("1.2.840.10045.4.3.1", "ECDSA-SHA224"),
    ("1.2.840.10045.4.3.2", "ECDSA-SHA256"),
    ("1.2.840.10045.4.3.3", "ECDSA-SHA384"),
    ("1.2.840.10045.4.3.4", "ECDSA-SHA512"),
    ("2.16.840.1.101.3.4.3.9", "ECDSA-SHA3-224"),
    ("2.16.840.1.101.3.4.3.10", "ECDSA-SHA3-256"),
    ("2.16.840.1.101.3.4.3.11", "ECDSA-SHA3-384"),
    ("2.16.840.1.101.3.4.3.12", "ECDSA-SHA3-512"),
    ("2.16.840.1.101.3.4.3.13", "RSA-SHA3-224"),
    ("2.16.840.1.101.3.4.3.14", "RSA-SHA3-256"),
    ("2.16.840.1.101.3.4.3.15", "RSA-SHA3-384"),
    ("2.16.840.1.101.3.4.3.16", "RSA-SHA3-512"),
    ("2.16.840.1.101.3.4.2.7", "SHA3-224"),
    ("2.16.840.1.101.3.4.2.8", "SHA3-256"),
    ("2.16.840.1.101.3.4.2.9", "SHA3-384"),
    ("2.16.840.1.101.3.4.2.10", "SHA3-512"),
    ("2.16.840.1.101.3.4.3.17", "ML-DSA-44"),
    ("2.16.840.1.101.3.4.3.18", "ML-DSA-65"),
    ("2.16.840.1.101.3.4.3.19", "ML-DSA-87"),
    ("1.2.840.10045.3.1.1", "P-192"),
    ("1.3.132.0.33", "P-224"),
    ("1.2.840.10045.3.1.7", "P-256"),
    ("1.3.132.0.34", "P-384"),
    ("1.3.132.0.35", "P-521"),
    ("1.3.132.0.10", "secp256k1"),
    ("1.2.156.10197.1.301", "SM2"),
    ("1.3.36.3.3.2.8.1.1.7", "brainpoolP256r1"),
    ("1.3.36.3.3.2.8.1.1.11", "brainpoolP384r1"),
    ("1.3.36.3.3.2.8.1.1.13", "brainpoolP512r1"),
    ("2.5.29.37.0", "any_extended_key_usage"),
    ("1.3.6.1.5.5.7.3.1", "server_auth"),
    ("1.3.6.1.5.5.7.3.2", "client_auth"),
    ("1.3.6.1.5.5.7.3.3", "code_signing"),
    ("1.3.6.1.5.5.7.3.4", "email_protection"),
    ("1.3.6.1.5.5.7.3.8", "time_stamping"),
    ("1.3.6.1.5.5.7.3.9", "ocsp_signing"),
    ("1.3.6.1.5.5.7.3.5", "ipsec_end_system"),
    ("1.3.6.1.5.5.7.3.6", "ipsec_tunnel"),
    ("1.3.6.1.5.5.7.3.7", "ipsec_user"),
    ("1.3.6.1.5.5.7.3.17", "ipsec_ike"),
    ("1.3.6.1.4.1.311.20.2.2", "smart_card_logon"),
    ("1.3.6.1.5.5.7.48.1", "ocsp"),
    ("1.3.6.1.5.5.7.48.2", "ca_issuers"),
    ("1.3.6.1.5.5.7.48.5", "ca_repository"),
];



#[test]
fn overrides_return_previous_values_and_clones_are_independent() {
    let mut names = OidNames::default();
    // Exercise both an upstream-only name and an application alias.
    let upstream = "2.5.29.32";
    assert_eq!(names.get(upstream).as_deref(), Some("certificatePolicies"));
    for oid in [upstream, "2.5.4.3", "1.2.3.4"] {
        let previous = names.get(oid);
        assert_eq!(names.insert(oid, "first").unwrap(), previous);
        let mut cloned = names.clone();
        assert_eq!(cloned.insert(oid, "second").unwrap().as_deref(), Some("first"));
        assert_eq!(names.get(oid).as_deref(), Some("first"));
        assert_eq!(cloned.get(oid).as_deref(), Some("second"));
    }
    for invalid in ["2.05.4.3", " 2.5.4.3", "3.1", "1.40", "1.2.", ""] {
        assert_eq!(names.get(invalid), None);
        assert!(names.insert(invalid, "invalid").is_err());
    }
    assert_eq!(OidNames::default().get("1.2.3.4"), None);
}

#[test]
fn oid_lookup_covers_new_names_without_claiming_key_support() {
    let mut names = OidNames::default();
    assert_eq!(names.get("2.16.840.1.101.3.4.3.10").as_deref(), Some("ECDSA-SHA3-256"));
    assert_eq!(names.get("1.3.6.1.4.1.311.20.2.2").as_deref(), Some("smart_card_logon"));
    assert_eq!(names.get("1.3.36.3.3.2.8.1.1.7").as_deref(), Some("brainpoolP256r1"));
    assert_eq!(names.get("2.5.29.32").as_deref(), Some("certificatePolicies"));
    for bad in ["", "abc", "3.1", "1.40", "1.2.", "1.02.3", "1"] {
        assert!(names.insert(bad, "bad").is_err(), "accepted {bad}");
    }
}

#[test]
fn application_labels_take_precedence_over_upstream_names() {
    let names = OidNames::default();
    assert_eq!(names.get("2.5.4.3").as_deref(), Some("CN"));
    assert_eq!(names.get("1.2.840.113549.1.1.1").as_deref(), Some("RSA"));
    assert_eq!(names.get("1.2.840.10045.3.1.7").as_deref(), Some("P-256"));
    assert_eq!(names.get("1.3.6.1.5.5.7.3.2").as_deref(), Some("client_auth"));
    assert_eq!(names.get("2.5.4.42").as_deref(), Some("givenName"));
    assert_eq!(names.get("2.5.4.4").as_deref(), Some("surname"));
}

#[test]
fn canonical_oid_syntax_includes_the_first_two_arcs() {
    for good in ["0.39", "1.0", "2.5.29.32", "1.2.840.113549.1.1.1"] {
        assert!(canonical_oid(good).is_ok(), "{good}");
    }
    for bad in ["0.40", "3.0", "1.2.03", "1..2", "+1.2", "1.2 ", "1"] {
        assert!(canonical_oid(bad).is_err(), "{bad}");
    }
}

#[test]
fn upstream_coverage_and_application_labels_are_preserved() {
    let names = OidNames::default();
    let registry = oid_registry::OidRegistry::default().with_crypto().with_x509().with_x500();
    for (oid, entry) in registry.iter() {
        let id = oid.to_id_string();
        let expected = LABELS.iter().find(|(key, _)| *key == id).map_or(entry.sn(), |(_, label)| *label);
        assert_eq!(names.get(&id).as_deref(), Some(expected), "{id}");
    }
    for (oid, label) in LABELS {
        assert_eq!(names.get(oid).as_deref(), Some(*label));
    }
}
