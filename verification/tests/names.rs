use x509_info::decoding::{any, text};
use x509_info::names::inspect_name_der;
use x509_info::{DecodeIssue, DirectoryAttribute, GeneralName, NameDetails, OidNames};

fn tlv(tag: u8, data: &[u8]) -> Vec<u8> {
    assert!(data.len() < 128);
    [vec![tag, data.len() as u8], data.to_vec()].concat()
}

fn long_tlv(tag: u8, data: &[u8]) -> Vec<u8> {
    assert!(data.len() < 65536);
    [vec![tag, 0x82, (data.len() >> 8) as u8, data.len() as u8], data.to_vec()].concat()
}

fn seq(data: &[u8]) -> Vec<u8> {
    tlv(0x30, data)
}

fn other(oid: &str, der: &[u8]) -> GeneralName {
    GeneralName::OtherName {
        oid: oid.into(),
        name: None,
        value_der_hex: x509_info::text::encode_hex(&tlv(0xa0, der)),
    }
}

fn retained_without_lossy_text() {
    // Name -> RDN -> CN attribute -> INTEGER, deliberately not a DirectoryString.
    let bytes = [0x30, 12, 0x31, 10, 0x30, 8, 6, 3, 85, 4, 3, 2, 1, 42];
    let owned = inspect_name_der(&bytes, &OidNames::default()).unwrap();
    assert_eq!(owned.der, bytes);
    let attr = &owned.rdns[0][0];
    assert_eq!(attr.value, None);
    assert_eq!(attr.value_tag, 2);
    assert_eq!(attr.value_hex, "2a");
}

#[test]
fn mod_unsupported_name_value_encodings_are_retained_without_lossy_text() {
    retained_without_lossy_text();
}

#[test]
fn names_unsupported_name_value_encodings_are_retained_without_lossy_text() {
    retained_without_lossy_text();
}

#[test]
fn unicode_fields_preserve_raw_encoding_and_report_failures() {
    for (der, expected) in [
        (tlv(30, &[0x4e, 0x2d]), "中"),
        (tlv(28, &[0, 1, 0xf6, 0]), "😀"),
        (tlv(26, b"visible"), "visible"),
    ] {
        let name = seq(&tlv(0x31, &seq(&[vec![6, 3, 85, 4, 3], der.clone()].concat())));
        let value = inspect_name_der(&name, &OidNames::default()).unwrap();
        assert_eq!(value.rdns[0][0].value.as_deref(), Some(expected));
        assert!(value.rdns[0][0].diagnostic().is_none());
        let a = DirectoryAttribute {
            oid: "1.2".into(),
            name: None,
            values_der_hex: vec![x509_info::text::encode_hex(&der)],
        };
        assert_eq!(a.text_values()[0].as_ref().unwrap(), expected);
    }
    for der in [tlv(30, &[0xd8, 0]), tlv(30, &[0]), tlv(28, &[0, 0x11, 0, 0])] {
        assert_eq!(text(&any(&der).unwrap()).unwrap_err().issue, DecodeIssue::InvalidEncoding);
    }
    assert_eq!(
        text(&any(&tlv(20, b"ambiguous")).unwrap()).unwrap_err().issue,
        DecodeIssue::UnsupportedEncoding
    );
}

#[test]
fn other_names_and_edi_decode_owned_fields_without_identity_policy() {
    assert_eq!(
        other("1.3.6.1.4.1.311.20.2.3", &tlv(12, b"not-an-account")).details().unwrap(),
        Some(NameDetails::UserPrincipalName("not-an-account".into()))
    );
    let hw = seq(&[vec![6, 3, 42, 3, 4], tlv(4, &[0, 0xff])].concat());
    assert_eq!(
        other("1.3.6.1.5.5.7.8.4", &hw).details().unwrap(),
        Some(NameDetails::HardwareModule { type_oid: "1.2.3.4".into(), serial_hex: "00ff".into() })
    );
    assert!(other("1.2.3.4", &[0xff]).details().unwrap().is_none());
    assert!(other("1.3.6.1.4.1.311.20.2.3", &[5, 0]).details().is_err());
    let edi = GeneralName::EdiPartyName {
        constructed: true,
        content_hex: x509_info::text::encode_hex(
            &[tlv(0xa0, &tlv(30, &[0, 65])), tlv(0xa1, &tlv(12, b"party"))].concat(),
        ),
    };
    assert_eq!(
        edi.details().unwrap(),
        Some(NameDetails::EdiPartyName { name_assigner: Some("A".into()), party_name: "party".into() })
    );
}

#[test]
fn name_attribute_diagnostics_and_directory_values_name_their_failure() {
    let name = seq(&tlv(0x31, &seq(&[vec![6, 3, 85, 4, 3], tlv(20, b"teletex")].concat())));
    let value = inspect_name_der(&name, &OidNames::default()).unwrap();
    let attr = &value.rdns[0][0];
    assert_eq!(attr.label.as_deref(), Some("CN"));
    assert_eq!(attr.value, None);
    let d = attr.diagnostic().unwrap();
    assert_eq!(d.issue, DecodeIssue::UnsupportedEncoding);
    assert_eq!(d.field, "string tag");
    assert_eq!(d.message(), "string tag: UnsupportedEncoding");
    let a = DirectoryAttribute { oid: "1.2".into(), name: None, values_der_hex: vec!["zz".into(), "0500".into()] };
    let values = a.text_values();
    assert_eq!(values[0].as_ref().unwrap_err().field, "attribute value hex");
    assert_eq!(values[1].as_ref().unwrap_err().issue, DecodeIssue::UnsupportedEncoding);
    assert!(inspect_name_der(&[name.clone(), vec![0]].concat(), &OidNames::default()).is_none());
}

#[test]
fn x400_and_malformed_names_report_why_fields_are_missing() {
    let x400 = GeneralName::X400Address { constructed: true, content_hex: String::new() };
    assert_eq!(x400.details().unwrap_err().issue, DecodeIssue::UnsupportedEncoding);
    assert_eq!(GeneralName::Malformed(7).details().unwrap_err().issue, DecodeIssue::InvalidEncoding);
    assert_eq!(GeneralName::Dns("example.invalid".into()).details().unwrap(), None);
    let flat = GeneralName::EdiPartyName { constructed: false, content_hex: String::new() };
    assert_eq!(flat.details().unwrap_err().field, "EDI constructed bit");
}

#[test]
fn long_edi_party_names_are_reencoded_with_long_form_lengths() {
    let party = vec![b'p'; 300];
    let edi = GeneralName::EdiPartyName {
        constructed: true,
        content_hex: x509_info::text::encode_hex(&long_tlv(0xa1, &long_tlv(12, &party))),
    };
    assert_eq!(
        edi.details().unwrap(),
        Some(NameDetails::EdiPartyName { name_assigner: None, party_name: "p".repeat(300) })
    );
}
