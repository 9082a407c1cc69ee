use binary_analysis::codec::{decode_be, decode_le, hex_decode, hex_encode, take_until_null};
use binary_analysis::search::find_matches;
use binary_analysis::wrappers::sha256;

#[test]
fn hex_encode_matches_reference_encoder() {
    let cases: Vec<Vec<u8>> = vec![
        vec![],
        vec![0x00],
        vec![0xFF],
        vec![0xDE, 0xAD, 0xBE, 0xEF],
        (0u8..=255).collect(),
    ];
    for bytes in cases {
        assert_eq!(hex_encode(&bytes), hex::encode(&bytes));
    }
}

#[test]
fn hex_decode_matches_reference_decoder() {
    for good in ["", "00", "ff", "FF", "DeadBeef", "0102030a"] {
        assert_eq!(hex_decode(good), hex::decode(good).ok());
    }
    for bad in ["0", "g0", "0g", "123", " 12", "aa bb"] {
        assert!(hex_decode(bad).is_none());
        assert!(hex::decode(bad).is_err());
    }
}

#[test]
fn integer_decode_matches_std() {
    let bytes = [0x12u8, 0x34, 0x56, 0x78, 0x9A, 0xBC, 0xDE, 0xF0];
    assert_eq!(decode_le(&bytes), u64::from_le_bytes(bytes));
    assert_eq!(decode_be(&bytes), u64::from_be_bytes(bytes));
    assert_eq!(decode_le(&bytes[..2]), u16::from_le_bytes([0x12, 0x34]) as u64);
    assert_eq!(decode_be(&bytes[..2]), u16::from_be_bytes([0x12, 0x34]) as u64);
    assert_eq!(decode_le(&[]), 0);
    assert_eq!(decode_be(&[]), 0);
}

#[test]
fn null_truncation_takes_prefix() {
    assert_eq!(take_until_null(&[1, 2, 0, 3]), vec![1, 2]);
    assert_eq!(take_until_null(&[0, 1]), Vec::<u8>::new());
    assert_eq!(take_until_null(&[1, 2, 3]), vec![1, 2, 3]);
    assert_eq!(take_until_null(&[]), Vec::<u8>::new());
}

#[test]
fn find_matches_reports_every_occurrence() {
    assert_eq!(find_matches(b"abcabcab", b"ab"), vec![0, 3, 6]);
    assert_eq!(find_matches(b"aaaa", b"aa"), vec![0, 1, 2]);
    assert_eq!(find_matches(b"abc", b"xyz"), Vec::<usize>::new());
    assert_eq!(find_matches(b"ab", b"abc"), Vec::<usize>::new());
    assert_eq!(find_matches(b"abc", b""), Vec::<usize>::new());
}

#[test]
fn sha256_wrapper_hashes_its_input() {
    let digest = sha256(b"abc");
    assert_eq!(
        hex_encode(&digest),
        "ba7816bf8f01cfea414140de5dae2223b00361a396177a9cb410ff61f20015ad"
    );
    assert_ne!(sha256(b"abc"), sha256(b"abd"));
}
