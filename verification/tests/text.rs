use x509_info::ip::{format_ipv4, format_ipv6};
use x509_info::text::{decode_hex, encode_hex};
use x509_info::{check_limit, Error, ParseOptions, Validity};

#[test]
fn hex_round_trips_and_rejects_non_digits() {
    assert_eq!(encode_hex(&[0, 0x0f, 0xa0, 0xff]), "000fa0ff");
    assert_eq!(decode_hex("000fA0ff"), Some(vec![0, 0x0f, 0xa0, 0xff]));
    assert_eq!(decode_hex(&encode_hex(&[1, 2, 254])), Some(vec![1, 2, 254]));
    assert_eq!(decode_hex("abc"), None);
    assert_eq!(decode_hex("zz"), None);
    assert_eq!(decode_hex("é0"), None);
    assert_eq!(decode_hex(""), Some(vec![]));
}

#[test]
fn addresses_use_standard_text() {
    assert_eq!(format_ipv4(&[192, 0, 2, 1]), "192.0.2.1");
    assert_eq!(format_ipv6(&[0x20, 1, 0xd, 0xb8, 0, 0, 0, 0, 0, 0, 0, 0, 0, 0, 0, 1]), "2001:db8::1");
    assert_eq!(format_ipv6(&[0; 16]), "::");
    assert_eq!(format_ipv6(&[0, 0, 0, 0, 0, 0, 0, 0, 0, 0, 0xff, 0xff, 192, 0, 2, 1]), "::ffff:192.0.2.1");
    assert_eq!(format_ipv6(&[0, 1, 0, 0, 0, 2, 0, 0, 0, 0, 0, 3, 0, 0, 0, 4]), "1:0:2::3:0:4");
    assert_eq!(format_ipv6(&[0xfe, 0x80, 0, 0, 0, 0, 0, 0, 0, 0, 0, 0, 0, 0, 0, 1]), "fe80::1");
    assert_eq!(format_ipv6(&[0, 1, 0, 1, 0, 0, 0, 0, 0, 1, 0, 0, 0, 0, 0, 1]), "1:1::1:0:0:1");
}

#[test]
fn budgets_and_validity_intervals_are_checked_exactly() {
    assert_eq!(check_limit(&[1, 2, 3], ParseOptions { max_input_bytes: 0 }), Err(Error::InvalidOptions));
    assert_eq!(check_limit(&[1, 2, 3], ParseOptions { max_input_bytes: 2 }), Err(Error::LimitExceeded));
    assert_eq!(check_limit(&[1, 2, 3], ParseOptions { max_input_bytes: 3 }), Ok(()));
    let v = Validity { not_before_unix: -5, not_after_unix: 5 };
    assert!(v.contains(-5) && v.contains(0) && v.contains(5));
    assert!(!v.contains(-6) && !v.contains(6));
}
