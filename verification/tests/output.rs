use liteapi::bridge::{boundary_text, boundary_texts_ok, contains_nul};
use liteapi::config::{default_bind_addr, strip_scheme};
use liteapi::respond::{render_response, usize_to_decimal};
use liteapi::text::{parse_usize, parse_usize_or_zero};

#[test]
fn success_reply_bytes_for_echoed_method() {
    let expected = b"HTTP/1.1 200 OK\r\nContent-Length: 3\r\nContent-Type: text/plain; charset=utf-8\r\nConnection: close\r\n\r\nGET".to_vec();
    assert_eq!(render_response(&b"GET".to_vec()), expected);
}

#[test]
fn success_reply_with_empty_body() {
    let expected = b"HTTP/1.1 200 OK\r\nContent-Length: 0\r\nContent-Type: text/plain; charset=utf-8\r\nConnection: close\r\n\r\n".to_vec();
    assert_eq!(render_response(&Vec::new()), expected);
}

#[test]
fn decimal_rendering() {
    assert_eq!(usize_to_decimal(0), b"0".to_vec());
    assert_eq!(usize_to_decimal(7), b"7".to_vec());
    assert_eq!(usize_to_decimal(10), b"10".to_vec());
    assert_eq!(usize_to_decimal(12345), b"12345".to_vec());
    assert_eq!(usize_to_decimal(usize::MAX), usize::MAX.to_string().into_bytes());
}

#[test]
fn number_parsing_matches_rust() {
    assert_eq!(parse_usize(&b"42".to_vec()), Some(42));
    assert_eq!(parse_usize(&b"+42".to_vec()), Some(42));
    assert_eq!(parse_usize(&b"0".to_vec()), Some(0));
    assert_eq!(parse_usize(&Vec::new()), None);
    assert_eq!(parse_usize(&b"+".to_vec()), None);
    assert_eq!(parse_usize(&b" 42".to_vec()), None);
    assert_eq!(parse_usize(&b"4a2".to_vec()), None);
    assert_eq!(parse_usize(&b"-1".to_vec()), None);
    assert_eq!(parse_usize(&usize::MAX.to_string().into_bytes()), Some(usize::MAX));
    assert_eq!(parse_usize(&b"18446744073709551616".to_vec()), None);
    assert_eq!(parse_usize_or_zero(&b"oops".to_vec()), 0);
    assert_eq!(parse_usize_or_zero(&b"6080".to_vec()), 6080);
}

#[test]
fn nul_detection_and_textual_sanitizing() {
    assert!(!contains_nul(&b"GET".to_vec()));
    assert!(contains_nul(&vec![71, 0, 84]));
    assert_eq!(boundary_text(&b"abc".to_vec()), b"abc".to_vec());
    assert_eq!(boundary_text(&vec![97, 0, 99]), Vec::<u8>::new());
}

#[test]
fn binary_variant_conversion_check() {
    let ok = b"x".to_vec();
    let bad = vec![0u8];
    assert!(boundary_texts_ok(&ok, &ok, &ok, &ok));
    assert!(!boundary_texts_ok(&bad, &ok, &ok, &ok));
    assert!(!boundary_texts_ok(&ok, &ok, &bad, &ok));
    assert!(!boundary_texts_ok(&ok, &ok, &ok, &bad));
}

#[test]
fn scheme_prefixes_are_stripped() {
    assert_eq!(strip_scheme(b"http://127.0.0.1:6080".to_vec()), b"127.0.0.1:6080".to_vec());
    assert_eq!(strip_scheme(b"https://host:1".to_vec()), b"host:1".to_vec());
    assert_eq!(strip_scheme(b"host:1".to_vec()), b"host:1".to_vec());
    assert_eq!(strip_scheme(b"http://http://x".to_vec()), b"x".to_vec());
    assert_eq!(strip_scheme(Vec::new()), Vec::<u8>::new());
}

#[test]
fn default_address() {
    assert_eq!(default_bind_addr(), b"127.0.0.1:6080".to_vec());
}
