use xbpatch_core::serialization::{
    de_hex_to_ovu8, de_hex_to_u32, de_hex_to_vu8, get_none, se_ovu8_to_hex, se_u32_to_hex,
    se_vu8_to_hex,
};
use xbpatch_core::PatchError;

#[test]
fn u32_decode_accepts_prefix_and_case() {
    assert_eq!(de_hex_to_u32("0x001548E0").unwrap(), 0x001548E0);
    assert_eq!(de_hex_to_u32("001548e0").unwrap(), 0x001548E0);
    assert_eq!(de_hex_to_u32("ff").unwrap(), 255);
    assert_eq!(de_hex_to_u32("0xFF").unwrap(), 255);
    assert_eq!(de_hex_to_u32("0").unwrap(), 0);
}

#[test]
fn u32_decode_rejects_empty_and_garbage() {
    assert_eq!(de_hex_to_u32(""), Err(PatchError::MalformedHex));
    assert_eq!(de_hex_to_u32("0x"), Err(PatchError::MalformedHex));
    assert_eq!(de_hex_to_u32("xyz"), Err(PatchError::MalformedHex));
    assert_eq!(de_hex_to_u32("12g4"), Err(PatchError::MalformedHex));
}

#[test]
fn u32_decode_rejects_overflow() {
    assert_eq!(de_hex_to_u32("FFFFFFFFF"), Err(PatchError::MalformedHex));
    assert_eq!(de_hex_to_u32("0x100000000"), Err(PatchError::MalformedHex));
    // Leading zeros are fine as long as the value fits.
    assert_eq!(de_hex_to_u32("0FFFFFFFF").unwrap(), 0xFFFFFFFF);
}

#[test]
fn bytes_decode_is_case_insensitive_and_prefix_tolerant() {
    let a = de_hex_to_vu8("0x1A2B").unwrap();
    let b = de_hex_to_vu8("1a2b").unwrap();
    let c = de_hex_to_vu8("1A2B").unwrap();
    assert_eq!(a, vec![0x1A, 0x2B]);
    assert_eq!(a, b);
    assert_eq!(b, c);
}

#[test]
fn bytes_decode_rejects_odd_length() {
    assert_eq!(de_hex_to_vu8("0x1A2"), Err(PatchError::MalformedHex));
    assert_eq!(de_hex_to_vu8("abc"), Err(PatchError::MalformedHex));
    assert_eq!(de_hex_to_ovu8("0x1A2"), Err(PatchError::MalformedHex));
}

#[test]
fn bytes_decode_rejects_non_hex() {
    assert_eq!(de_hex_to_vu8("zz"), Err(PatchError::MalformedHex));
}

#[test]
fn bytes_decode_empty_body_is_empty() {
    assert_eq!(de_hex_to_vu8("0x").unwrap(), Vec::<u8>::new());
    assert_eq!(de_hex_to_vu8("").unwrap(), Vec::<u8>::new());
    assert_eq!(de_hex_to_ovu8("0x").unwrap(), Some(Vec::new()));
}

#[test]
fn u32_encode_is_uppercase_eight_digits() {
    assert_eq!(se_u32_to_hex(0x001548E0), "0x001548E0");
    assert_eq!(se_u32_to_hex(0), "0x00000000");
    assert_eq!(se_u32_to_hex(0xFFFFFFFF), "0xFFFFFFFF");
    assert_eq!(se_u32_to_hex(0xabcdef01), "0xABCDEF01");
}

#[test]
fn bytes_encode_is_lowercase() {
    assert_eq!(se_vu8_to_hex(&vec![0xEB, 0x21]), "0xeb21");
    assert_eq!(se_vu8_to_hex(&vec![]), "0x");
    assert_eq!(se_vu8_to_hex(&vec![0x00, 0x0F, 0xA0]), "0x000fa0");
}

#[test]
fn optional_bytes_encode_keeps_absence() {
    assert_eq!(se_ovu8_to_hex(&None), None);
    assert_eq!(se_ovu8_to_hex(&Some(vec![0x90, 0x90])).unwrap(), "0x9090");
}

#[test]
fn hex_round_trips() {
    assert_eq!(de_hex_to_u32(&se_u32_to_hex(12345)).unwrap(), 12345);
    assert_eq!(de_hex_to_u32(&se_u32_to_hex(0xdeadbeef)).unwrap(), 0xdeadbeef);
    let bytes = vec![0x00, 0xff, 0x7f, 0x80, 0x01];
    assert_eq!(de_hex_to_vu8(&se_vu8_to_hex(&bytes)).unwrap(), bytes);
}

#[test]
fn none_default_is_none() {
    assert_eq!(get_none::<Vec<u8>>(), None);
}
