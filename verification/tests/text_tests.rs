//! The text checks on their own: UTF-8 validity and byte substring search.

use microblog::text::{check_utf8, contains_bytes};

#[test]
fn ascii_and_empty_are_valid() {
    assert!(check_utf8(&Vec::new()));
    assert!(check_utf8(&b"plain ascii 123".to_vec()));
}

#[test]
fn well_formed_multibyte_sequences_are_valid() {
    for s in ["café", "δοκιμή", "ツイート", "🐦 bird"] {
        assert!(check_utf8(&s.as_bytes().to_vec()), "{s}");
        assert!(String::from_utf8(s.as_bytes().to_vec()).is_ok());
    }
}

#[test]
fn malformed_sequences_are_rejected() {
    let cases: [&[u8]; 8] = [
        &[0x80],              // lone continuation byte
        &[0xC2],              // truncated two-byte form
        &[0xC0, 0x80],        // overlong encoding
        &[0xE0, 0x80, 0x80],  // overlong three-byte form
        &[0xED, 0xA0, 0x80],  // surrogate
        &[0xF4, 0x90, 0x80, 0x80],  // past the last code point
        &[0xF0, 0x28, 0x8C, 0x28],  // bad continuation bytes
        &[0xFF],              // never a UTF-8 byte
    ];
    for c in cases {
        assert!(!check_utf8(&c.to_vec()), "{c:?}");
        assert!(String::from_utf8(c.to_vec()).is_err(), "{c:?}");
    }
}

#[test]
fn validity_agrees_with_the_standard_decoder_on_mixed_input() {
    let mut bytes = "héllo ".as_bytes().to_vec();
    bytes.push(0xE2);
    bytes.push(0x82);
    bytes.push(0xAC);
    assert!(check_utf8(&bytes));
    assert!(String::from_utf8(bytes).is_ok());
}

#[test]
fn substring_search_finds_runs_anywhere() {
    let hay = b"abcde".to_vec();
    assert!(contains_bytes(&hay, &b"abc".to_vec()));
    assert!(contains_bytes(&hay, &b"cde".to_vec()));
    assert!(contains_bytes(&hay, &b"abcde".to_vec()));
    assert!(contains_bytes(&hay, &Vec::new()));
    assert!(!contains_bytes(&hay, &b"ace".to_vec()));
    assert!(!contains_bytes(&hay, &b"abcdef".to_vec()));
    assert!(!contains_bytes(&Vec::new(), &b"a".to_vec()));
    assert!(contains_bytes(&Vec::new(), &Vec::new()));
}

#[test]
fn substring_search_agrees_with_str_contains() {
    let hay = "the daily news cycle";
    let needles = ["news", "daily news", "cycle", "weekly", "", "the daily news cycle!"];
    for n in needles {
        assert_eq!(
            contains_bytes(&hay.as_bytes().to_vec(), &n.as_bytes().to_vec()),
            hay.contains(n),
            "{n}"
        );
    }
}
