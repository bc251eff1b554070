use data_encoding::BASE32HEX;
use indexer_store::base32hex::decode;
use indexer_store::decimal::{decimal_digits, padded_digits};
use indexer_store::text::{same_text, split_text, text_of, NumberFault, Utf8Fault};
use indexer_store::transaction_key::{KeyError, TransactionKey};

#[test]
fn base32hex() {
    let encoded = BASE32HEX.encode(b"1692269981257");
    println!("{}", encoded);
    assert_eq!(encoded, "64R3ICHI6OSJIE1H68QJE===");
    let key = TransactionKey::new(0, 1692269981257, "hash");
    assert_eq!(key.to_string(), format!("{}-000000000000-hash", encoded));
}

#[test]
fn key_text_has_three_parts() {
    let key = TransactionKey::new(291, 1692269981257, "CkpZirFuoLVVab6x2ry4j8Ld5gMmQdak7VHW6f5C7VJYE34WAEWqa");
    assert_eq!(
        key.to_string(),
        "64R3ICHI6OSJIE1H68QJE===-000000000291-CkpZirFuoLVVab6x2ry4j8Ld5gMmQdak7VHW6f5C7VJYE34WAEWqa"
    );
    assert_eq!(key.bytes(), key.to_string().into_bytes());
}

#[test]
fn key_gives_its_parts() {
    let key = TransactionKey::new(7, 9, String::from("abc"));
    assert_eq!(key.height(), 7);
    assert_eq!(key.timestamp(), 9);
    assert_eq!(key.hash(), "abc");
    let copy = key.clone();
    assert_eq!(copy.bytes(), key.bytes());
}

#[test]
fn key_of_extreme_numbers() {
    let low = TransactionKey::new(0, 0, "");
    assert_eq!(low.to_string(), "60======-000000000000-");
    let high = TransactionKey::new(u32::MAX, u64::MAX, "h");
    assert_eq!(high.to_string(), "64S38D1M6SQ38C1N6CRJ0E9L6KOJCC9L-004294967295-h");
}

#[test]
fn key_round_trip() {
    for (height, timestamp, hash) in [
        (0u32, 0u64, ""),
        (1, 9, "a"),
        (u32::MAX, u64::MAX, "Ckp"),
        (42, 1692269981257, "h\u{e9}\u{4e2d}\u{1f600}"),
        (42, 12345, "five"),
    ] {
        let key = TransactionKey::new(height, timestamp, hash);
        let bytes = key.bytes();
        let read = TransactionKey::from_slice(&bytes).unwrap();
        assert_eq!(read.height(), height);
        assert_eq!(read.timestamp(), timestamp);
        assert_eq!(read.hash(), hash);
        assert_eq!(read.bytes(), bytes);
    }
}

#[test]
fn key_with_hyphenated_hash_is_not_read_back() {
    let key = TransactionKey::new(1, 2, "a-b");
    match TransactionKey::from_slice(&key.bytes()) {
        Err(KeyError::Shape { message }) => {
            assert_eq!(message, "Invalid transaction key: 68======-000000000001-a-b");
        }
        other => panic!("{:?}", other),
    }
}

#[test]
fn from_slice_rejects_too_few_parts() {
    match TransactionKey::from_slice(b"abc-1") {
        Err(KeyError::Shape { message }) => assert_eq!(message, "Invalid transaction key: abc-1"),
        other => panic!("{:?}", other),
    }
    match TransactionKey::from_slice(b"") {
        Err(KeyError::Shape { message }) => assert_eq!(message, "Invalid transaction key: "),
        other => panic!("{:?}", other),
    }
}

#[test]
fn from_slice_rejects_bytes_that_are_not_utf8() {
    let cases: [(&[u8], usize, Option<usize>); 6] = [
        (&[0x2d, 0xff, 0x2d], 1, Some(1)),
        (&[0x61, 0xe2, 0x82], 1, None),
        (&[0xe2, 0x41], 0, Some(1)),
        (&[0x61, 0x62, 0xf0, 0x9f, 0x98], 2, None),
        (&[0xf4, 0x90, 0x80, 0x80], 0, Some(1)),
        (&[0xc3, 0xa9, 0xc3], 2, None),
    ];
    for (bytes, valid_up_to, error_len) in cases {
        match TransactionKey::from_slice(bytes) {
            Err(KeyError::Utf8(fault)) => {
                assert_eq!(fault, Utf8Fault { valid_up_to, error_len });
            }
            other => panic!("{:?}", other),
        }
    }
}

#[test]
fn from_slice_rejects_bad_timestamp() {
    for (text, expected) in [
        ("", NumberFault::Empty),
        ("abc", NumberFault::InvalidDigit),
        ("-1", NumberFault::InvalidDigit),
        ("+", NumberFault::InvalidDigit),
        ("12x", NumberFault::InvalidDigit),
        ("18446744073709551615x", NumberFault::InvalidDigit),
        ("18446744073709551616", NumberFault::PosOverflow),
        ("+99999999999999999999999", NumberFault::PosOverflow),
    ] {
        let stamp = BASE32HEX.encode(text.as_bytes());
        // the height is no number either, but comes second
        match TransactionKey::from_slice(format!("{}-x-h", stamp).as_bytes()) {
            Err(KeyError::Timestamp(fault)) => assert_eq!(fault, expected),
            other => panic!("{:?}", other),
        }
    }
}

#[test]
fn from_slice_rejects_bad_height() {
    for (height, expected) in [
        ("", NumberFault::Empty),
        ("+", NumberFault::InvalidDigit),
        ("1x", NumberFault::InvalidDigit),
        ("1 ", NumberFault::InvalidDigit),
        ("++1", NumberFault::InvalidDigit),
        ("4294967295x", NumberFault::InvalidDigit),
        ("4294967296", NumberFault::PosOverflow),
    ] {
        let text = format!("64======-{}-h", height);
        match TransactionKey::from_slice(text.as_bytes()) {
            Err(KeyError::Height(fault)) => assert_eq!(fault, expected),
            other => panic!("{:?}", other),
        }
    }
}

#[test]
fn from_slice_takes_unpadded_and_signed_numbers() {
    let stamp = BASE32HEX.encode(b"+0012");
    let key = TransactionKey::from_slice(format!("{}-+7-h", stamp).as_bytes()).unwrap();
    assert_eq!(key.timestamp(), 12);
    assert_eq!(key.height(), 7);
    assert_eq!(key.to_string(), "64P0====-000000000007-h");
    // what was read is written and read again unchanged
    let again = TransactionKey::from_slice(&key.bytes()).unwrap();
    assert_eq!((again.timestamp(), again.height(), again.hash()), (12, 7, "h"));
}

#[test]
fn keys_sort_by_time_then_height_then_hash() {
    let keys = [
        TransactionKey::new(9, 1692269981257, "z"),
        TransactionKey::new(10, 1692269981257, "a"),
        TransactionKey::new(10, 1692269981257, "b"),
        TransactionKey::new(100, 1692269981257, "a"),
        TransactionKey::new(u32::MAX, 1692269981257, "a"),
        TransactionKey::new(0, 1692269981258, "a"),
        TransactionKey::new(0, 1692269981260, "a"),
        TransactionKey::new(0, 2000000000000, "a"),
    ];
    for pair in keys.windows(2) {
        assert!(pair[0].bytes() < pair[1].bytes());
    }
}

#[test]
fn keys_of_different_digit_counts_sort_by_text() {
    let nine = TransactionKey::new(0, 9, "a");
    let ten = TransactionKey::new(0, 10, "a");
    let one = TransactionKey::new(0, 1, "a");
    let many = TransactionKey::new(0, 12345, "a");
    let more = TransactionKey::new(0, 123456, "a");
    assert!(ten.bytes() < nine.bytes());
    assert!(one.bytes() < ten.bytes());
    assert!(many.bytes() < more.bytes());
}

#[test]
fn different_keys_have_different_bytes() {
    let keys = [
        TransactionKey::new(1, 1, "a"),
        TransactionKey::new(1, 1, "b"),
        TransactionKey::new(1, 2, "a"),
        TransactionKey::new(2, 1, "a"),
        TransactionKey::new(1, 1, "a-a"),
    ];
    for (i, a) in keys.iter().enumerate() {
        for (j, b) in keys.iter().enumerate() {
            assert_eq!(i == j, a.bytes() == b.bytes());
        }
    }
}

#[test]
fn decode_takes_concatenated_blocks() {
    assert_eq!(decode(b""), Some(b"".to_vec()));
    assert_eq!(decode(b"C5H66==="), Some(b"abc".to_vec()));
    assert_eq!(decode(b"C4======C9HM6==="), Some(b"abcc".to_vec()));
}

#[test]
fn decode_rejects_other_text() {
    for text in ["C5H66", "C5H67===", "c5h66===", "========", "C5H66==-", "W4======"] {
        assert_eq!(decode(text.as_bytes()), None);
    }
}

#[test]
fn only_decodable_timestamps_are_readable() {
    assert!(TransactionKey::is_readable(&TransactionKey::new(1, 1692269981257, "h").bytes()));
    assert!(TransactionKey::is_readable(b"C5H66===-000000000001-h"));
    assert!(TransactionKey::is_readable(b"-1-h"));
    assert!(TransactionKey::is_readable(b"no key"));
    assert!(TransactionKey::is_readable(&[0xff]));
    assert!(!TransactionKey::is_readable(b"1692269981257-000000000001-h"));
    assert!(!TransactionKey::is_readable(b"C5H67===-000000000001-h"));
    // base32hex of a byte that is not UTF-8
    assert!(!TransactionKey::is_readable(b"VS======-000000000001-h"));
}

#[test]
fn decimal_text() {
    assert_eq!(decimal_digits(0), b"0");
    assert_eq!(decimal_digits(u64::MAX), b"18446744073709551615");
    assert_eq!(padded_digits(42, 12), b"000000000042");
    assert_eq!(padded_digits(12345, 3), b"12345");
    assert_eq!(padded_digits(123, 3), b"123");
}

#[test]
fn text_is_split_at_every_separator() {
    assert_eq!(split_text("a-b--c", b'-'), vec!["a", "b", "", "c"]);
    assert_eq!(split_text("", b'-'), vec![""]);
    assert_eq!(split_text("h\u{e9}-\u{4e2d}", b'-'), vec!["h\u{e9}", "\u{4e2d}"]);
    assert!(same_text("abc", "abc"));
    assert!(!same_text("abc", "abd"));
    assert!(!same_text("abc", "ab"));
    assert_eq!(text_of("h\u{e9}".as_bytes()), "h\u{e9}");
}
