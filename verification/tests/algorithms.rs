use x509_info::algorithms::{curve_name, inspect, key_details, rsa_bits};
use x509_info::backend::{DerValue, RawAlgorithm, RawParameters};
use x509_info::{AlgorithmInfo, KeyDataStatus, OidNames, ParameterStatus};

fn pss(params: Option<&[u8]>, signature: bool) -> AlgorithmInfo {
    let algorithm = RawAlgorithm {
        oid: "1.2.840.113549.1.1.10".into(),
        parameters: params.map(|p| RawParameters {
            value: DerValue { class: 0, constructed: true, tag: 16, data: p[2..].to_vec() },
            der: Some(p.to_vec()),
        }),
    };
    inspect(&algorithm, signature, &OidNames::default()).unwrap()
}

#[test]
fn pss_defaults_absent_restrictions_and_decode_failures_are_distinct() {
    let default = pss(Some(&[0x30, 0]), true);
    assert_eq!(default.parameter_status, ParameterStatus::Decoded);
    let p = default.pss.unwrap();
    assert_eq!(p.hash_oid, "1.3.14.3.2.26");
    assert_eq!(p.mask_gen_hash_oid.as_deref(), Some("1.3.14.3.2.26"));
    assert_eq!(p.salt_length, 20);
    assert_eq!(pss(None, false).parameter_status, ParameterStatus::Absent);
    assert_eq!(pss(None, true).parameter_status, ParameterStatus::DecodeError);
    for bytes in [
        &[5, 0][..],
        &[0x30, 3, 0xa2, 1, 0],
        &[0x30, 6, 0xa2, 4, 2, 2, 1, 0], // Salt 256 exceeds pkcs1's representation.
        &[0x30, 2, 5, 0],                // Unconsumed inner data.
    ] {
        let info = pss(Some(bytes), true);
        assert_eq!(info.parameter_status, ParameterStatus::DecodeError);
        assert_eq!(info.parameters_der.as_deref(), Some(bytes));
        assert_eq!(info.pss, None);
    }
}

#[test]
fn key_encoding_failures_do_not_become_unknown_algorithms_or_fake_sizes() {
    assert_eq!(key_details("1.3.101.112", None, &[0; 31], 0), (None, KeyDataStatus::DecodeError));
    assert_eq!(key_details("1.3.101.113", None, &[0; 57], 1), (None, KeyDataStatus::DecodeError));
    assert_eq!(key_details("1.2.3.4", None, &[0; 32], 0), (None, KeyDataStatus::Unparsed));
    assert_eq!(
        key_details("1.2.840.10045.2.1", Some("1.2.3.4"), &[4; 65], 0),
        (None, KeyDataStatus::Unparsed)
    );
    assert_eq!(
        key_details("1.2.840.10045.2.1", Some("1.2.840.10045.3.1.7"), &[4; 64], 0),
        (None, KeyDataStatus::DecodeError)
    );
    assert_eq!(key_details("1.2.840.113549.1.1.1", None, &[0x30, 0], 0), (None, KeyDataStatus::DecodeError));
}

#[test]
fn nominal_sizes_cover_edwards_montgomery_and_named_curves() {
    assert_eq!(key_details("1.3.101.112", None, &[0; 32], 0), (Some(255), KeyDataStatus::Decoded));
    assert_eq!(key_details("1.3.101.113", None, &[0; 57], 0), (Some(448), KeyDataStatus::Decoded));
    assert_eq!(key_details("1.3.101.110", None, &[0; 32], 0), (Some(255), KeyDataStatus::Decoded));
    assert_eq!(key_details("1.3.101.111", None, &[0; 56], 0), (Some(448), KeyDataStatus::Decoded));
    let p521 = [&[4u8][..], &[0; 132]].concat();
    assert_eq!(key_details("1.2.840.10045.2.1", Some("1.3.132.0.35"), &p521, 0), (Some(521), KeyDataStatus::Decoded));
    let compressed = [&[3u8][..], &[0; 24]].concat();
    assert_eq!(
        key_details("1.2.840.10045.2.1", Some("1.2.840.10045.3.1.1"), &compressed, 0),
        (Some(192), KeyDataStatus::Decoded)
    );
    let brainpool = [&[2u8][..], &[0; 64]].concat();
    assert_eq!(
        key_details("1.2.840.10045.2.1", Some("1.3.36.3.3.2.8.1.1.13"), &brainpool, 0),
        (Some(512), KeyDataStatus::Decoded)
    );
    assert_eq!(
        key_details("1.2.840.10045.2.1", Some("1.3.132.0.35"), &p521, 1),
        (None, KeyDataStatus::DecodeError)
    );
    assert_eq!(curve_name("1.3.132.0.35"), Some("P-521"));
    assert_eq!(curve_name("1.3.36.3.3.2.8.1.1.11"), Some("brainpoolP384r1"));
    assert_eq!(curve_name("1.2.3.4"), None);
}

#[test]
fn rsa_modulus_size_excludes_sign_padding() {
    // SEQUENCE { INTEGER 00 80 00 (a 16-bit magnitude), INTEGER 3 }
    let key = [0x30, 8, 2, 3, 0, 0x80, 0, 2, 1, 3];
    assert_eq!(rsa_bits(&key), Some(16));
    assert_eq!(key_details("1.2.840.113549.1.1.1", None, &key, 0), (Some(16), KeyDataStatus::Decoded));
    assert_eq!(key_details("1.2.840.113549.1.1.1", None, &key, 1), (None, KeyDataStatus::DecodeError));
}

#[test]
fn algorithm_labels_and_parameter_states_are_reported() {
    let ed = RawAlgorithm {
        oid: "1.3.101.112".into(),
        parameters: Some(RawParameters {
            value: DerValue { class: 0, constructed: false, tag: 5, data: vec![] },
            der: Some(vec![5, 0]),
        }),
    };
    let info = inspect(&ed, true, &OidNames::default()).unwrap();
    assert_eq!(info.name.as_deref(), Some("Ed25519"));
    assert_eq!(info.parameter_status, ParameterStatus::DecodeError);
    let unencodable = RawAlgorithm { parameters: Some(RawParameters { der: None, ..ed.parameters.clone().unwrap() }), ..ed };
    assert_eq!(inspect(&unencodable, true, &OidNames::default()).unwrap_err(), x509_info::Error::InvalidCertificate);
    let explicit_ec = RawAlgorithm {
        oid: "1.2.840.10045.2.1".into(),
        parameters: Some(RawParameters {
            value: DerValue { class: 0, constructed: true, tag: 16, data: vec![] },
            der: Some(vec![0x30, 0]),
        }),
    };
    assert_eq!(inspect(&explicit_ec, false, &OidNames::default()).unwrap().parameter_status, ParameterStatus::Unparsed);
    let named_ec = RawAlgorithm {
        oid: "1.2.840.10045.2.1".into(),
        parameters: Some(RawParameters {
            value: DerValue { class: 0, constructed: false, tag: 6, data: vec![0x2a, 0x86, 0x48, 0xce, 0x3d, 3, 1, 7] },
            der: Some(vec![6, 8, 0x2a, 0x86, 0x48, 0xce, 0x3d, 3, 1, 7]),
        }),
    };
    assert_eq!(inspect(&named_ec, false, &OidNames::default()).unwrap().parameter_status, ParameterStatus::Decoded);
    let no_curve = RawAlgorithm { oid: "1.2.840.10045.2.1".into(), parameters: None };
    assert_eq!(inspect(&no_curve, false, &OidNames::default()).unwrap().parameter_status, ParameterStatus::DecodeError);
    let other = RawAlgorithm {
        oid: "1.2.840.10045.2.1".into(),
        parameters: Some(RawParameters {
            value: DerValue { class: 2, constructed: false, tag: 0, data: vec![] },
            der: Some(vec![0x80, 0]),
        }),
    };
    assert_eq!(inspect(&other, false, &OidNames::default()).unwrap().parameter_status, ParameterStatus::Unparsed);
}
