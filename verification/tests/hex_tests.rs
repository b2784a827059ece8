use std::num::IntErrorKind;
use backend::error::AppError;
use backend::hex::{decode_hex, hash_from_hex, parse_key_id, strip_hex_prefix, trim_whitespace, KeyIdError};

#[test]
fn decode_hex_reads_pairs() {
    assert_eq!(decode_hex("00ff10").unwrap(), vec![0x00, 0xff, 0x10]);
    assert_eq!(decode_hex("ABcd").unwrap(), vec![0xab, 0xcd]);
    assert_eq!(decode_hex("").unwrap(), Vec::<u8>::new());
}

#[test]
fn decode_hex_accepts_plus_sign_pairs() {
    // u8::from_str_radix reads "+a" as 10
    assert_eq!(decode_hex("+a0f").unwrap(), vec![10, 15]);
}

#[test]
fn decode_hex_refuses_bad_pairs() {
    assert!(decode_hex("zz").is_err());
    assert!(decode_hex("0g").is_err());
    assert!(decode_hex("-1").is_err());
    assert!(decode_hex("ab 1").is_err());
    // the first bad pair stops the decoding before the odd tail is cut
    assert!(decode_hex("zzz").is_err());
    // a two-byte character in a pair is not a digit
    assert!(decode_hex("\u{e9}00").is_err());
}

#[test]
fn parse_key_id_needs_32_bytes() {
    let id = "0123456789abcdef".repeat(4);
    let bytes = parse_key_id(&id).unwrap();
    assert_eq!(bytes.len(), 32);
    assert_eq!(bytes[0], 0x01);
    assert_eq!(bytes[31], 0xef);
    assert!(matches!(parse_key_id("abcd"), Err(KeyIdError::WrongLength)));
    assert!(matches!(parse_key_id("xy"), Err(KeyIdError::InvalidHex(_))));
}

#[test]
fn trimming_and_prefixes() {
    assert_eq!(trim_whitespace("\t a b \n"), "a b");
    assert_eq!(trim_whitespace("   "), "");
    assert_eq!(trim_whitespace("\u{3000}x\u{a0}"), "x");
    assert_eq!(strip_hex_prefix("0x0xab"), "0xab");
    assert_eq!(strip_hex_prefix("0X12"), "0X12");
    assert_eq!(strip_hex_prefix("0x"), "");
    assert_eq!(strip_hex_prefix("ab"), "ab");
}

#[test]
fn hash_from_hex_accepts_64_digits() {
    let digits = "00112233445566778899aabbccddeeff".repeat(2);
    let text = format!("  0x{}\n", digits);
    let v = hash_from_hex(&text).unwrap();
    assert_eq!(v.len(), 32);
    assert_eq!(v[1], 0x11);
    assert_eq!(v[31], 0xff);
    let upper = digits.to_uppercase();
    assert_eq!(hash_from_hex(&upper).unwrap(), v);
}

#[test]
fn hash_from_hex_errors() {
    match hash_from_hex("zz") {
        Err(AppError::BadRequest(m)) => assert_eq!(m, "invalid hex hash"),
        other => panic!("unexpected {:?}", other),
    }
    match hash_from_hex("abc") {
        Err(AppError::BadRequest(m)) => assert_eq!(m, "invalid hex hash"),
        other => panic!("unexpected {:?}", other),
    }
    match hash_from_hex("0xabcd") {
        Err(AppError::BadRequest(m)) => assert_eq!(m, "hash must be exactly 32 bytes (64 hex chars)"),
        other => panic!("unexpected {:?}", other),
    }
    // a "+" is a digit for u8::from_str_radix but not for the hex crate
    let plus = format!("+{}", "a".repeat(63));
    assert!(matches!(hash_from_hex(&plus), Err(AppError::BadRequest(_))));
}

#[test]
fn hash_with_two_prefixes_is_refused() {
    let text = format!("0x0x{}", "ab".repeat(32));
    match hash_from_hex(&text) {
        Err(AppError::BadRequest(m)) => assert_eq!(m, "invalid hex hash"),
        other => panic!("unexpected {:?}", other),
    }
    assert_eq!(hash_from_hex(&"0".repeat(64)).unwrap(), vec![0u8; 32]);
}

/// The whitespace set the library states is the one `char::is_whitespace`
/// decides, over every character.
#[test]
fn whitespace_set_matches_std() {
    let listed = |u: u32| {
        (0x09..=0x0d).contains(&u)
            || u == 0x20
            || u == 0x85
            || u == 0xa0
            || u == 0x1680
            || (0x2000..=0x200a).contains(&u)
            || u == 0x2028
            || u == 0x2029
            || u == 0x202f
            || u == 0x205f
            || u == 0x3000
    };
    for u in 0..=0x10ffffu32 {
        if let Some(c) = char::from_u32(u) {
            assert_eq!(c.is_whitespace(), listed(u), "U+{:04X}", u);
            let s = format!("{}z{}", c, c);
            assert_eq!(trim_whitespace(&s) == "z", listed(u));
        }
    }
}

#[test]
fn decode_hex_errors_are_invalid_digits() {
    for bad in ["0g12", "zz", "-1", "+", "g0", "0+"] {
        if bad.len() % 2 == 0 {
            let e = decode_hex(bad).unwrap_err();
            assert_eq!(*e.kind(), IntErrorKind::InvalidDigit, "{bad}");
        }
    }
    assert_eq!(decode_hex("+f").unwrap(), vec![0x0f]);
}

#[test]
fn decode_hex_reads_back_lower_case_hex() {
    let bytes: Vec<u8> = (0..=255u8).collect();
    let text: String = bytes.iter().map(|b| format!("{:02x}", b)).collect();
    assert_eq!(decode_hex(&text).unwrap(), bytes);
    assert_eq!(text, hex::encode(&bytes));
}
