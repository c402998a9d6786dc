use social_recovery::checksum::{desc_checksum, poly_mod};
use social_recovery::codec::{from_hex, to_hex};

#[test]
fn checksum_of_raw_descriptor() {
    assert_eq!(desc_checksum("raw(deadbeef)"), "89f8spxm");
}

#[test]
fn checksum_of_empty_descriptor_has_eight_characters() {
    let c = desc_checksum("");
    assert_eq!(c.chars().count(), 8);
    assert_ne!(c, desc_checksum("a"));
}

#[test]
fn poly_mod_steps() {
    assert_eq!(poly_mod(1, 0), 32);
    assert_eq!(poly_mod(1, 7), 39);
    assert_eq!(poly_mod(1 << 35, 0), 0xf5dee51989);
    assert_eq!(poly_mod(3 << 35, 1), 0xf5dee51989 ^ 0xa9fdca3312 ^ 1);
}

#[test]
fn hex_encoding() {
    assert_eq!(to_hex(&[0x01, 0xab, 0xff]), "01abff");
    assert_eq!(to_hex(&[]), "");
    assert_eq!(from_hex("01abFF"), Some(vec![0x01, 0xab, 0xff]));
    assert_eq!(from_hex("abc"), None);
    assert_eq!(from_hex("zz"), None);
    assert_eq!(from_hex(""), Some(vec![]));
}
