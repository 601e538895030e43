use liteapi::parse::{finish_request, finish_request_v2, line_ends_head, oversize_request,
    parse_head};

fn lines(raw: &[&[u8]]) -> Vec<Vec<u8>> {
    raw.iter().map(|l| l.to_vec()).collect()
}

#[test]
fn get_root_round_trip() {
    let head = parse_head(&b"GET / HTTP/1.1\r\n".to_vec(), &Vec::new()).unwrap();
    assert_eq!(head.method, b"GET".to_vec());
    assert_eq!(head.path, b"/".to_vec());
    assert_eq!(head.headers, Vec::<u8>::new());
    assert_eq!(head.content_length, 0);
    let req = finish_request_v2(head, Vec::new());
    assert_eq!(req.method, b"GET".to_vec());
    assert_eq!(req.path, b"/".to_vec());
    assert_eq!(req.body, Vec::<u8>::new());
    assert!(!req.body_too_large);
}

#[test]
fn missing_path_defaults_to_slash() {
    let head = parse_head(&b"GET\r\n".to_vec(), &Vec::new()).unwrap();
    assert_eq!(head.method, b"GET".to_vec());
    assert_eq!(head.path, b"/".to_vec());
}

#[test]
fn empty_first_line_is_no_request() {
    assert!(parse_head(&Vec::new(), &Vec::new()).is_none());
    assert!(parse_head(&b"\r\n".to_vec(), &Vec::new()).is_none());
    assert!(parse_head(&b"   \r\n".to_vec(), &Vec::new()).is_none());
}

#[test]
fn headers_keep_order_and_case() {
    let hs = lines(&[b"Host: example\r\n", b"X-Tag: A\r\n", b"x-tag: b\r\n"]);
    let head = parse_head(&b"POST /x HTTP/1.1\r\n".to_vec(), &hs).unwrap();
    assert_eq!(head.headers, b"Host: example\nX-Tag: A\nx-tag: b".to_vec());
}

#[test]
fn content_length_lookup_is_case_insensitive() {
    for spelling in
        [&b"CONTENT-LENGTH: 42\r\n"[..], b"content-length: 42\r\n", b"Content-Length: 42\r\n",
        b"cOnTeNt-LeNgTh: 42\r\n"] {
        let head =
            parse_head(&b"POST / HTTP/1.1\r\n".to_vec(), &lines(&[spelling])).unwrap();
        assert_eq!(head.content_length, 42, "spelling {:?}", spelling);
    }
}

#[test]
fn malformed_content_length_defaults_to_zero() {
    for value in [&b"Content-Length: abc\r\n"[..], b"Content-Length:\r\n",
        b"Content-Length: 99999999999999999999999999\r\n", b"Content-Length: -1\r\n",
        b"Content-Length: 4 2\r\n"] {
        let head =
            parse_head(&b"POST / HTTP/1.1\r\n".to_vec(), &lines(&[value])).unwrap();
        assert_eq!(head.content_length, 0, "value {:?}", value);
    }
}

#[test]
fn content_length_value_is_trimmed_and_signed_plus_accepted() {
    let head = parse_head(
        &b"POST / HTTP/1.1\r\n".to_vec(),
        &lines(&[b"Content-Length:   +42  \r\n"]),
    )
    .unwrap();
    assert_eq!(head.content_length, 42);
}

#[test]
fn last_content_length_declaration_wins() {
    let hs = lines(&[b"Content-Length: 1\r\n", b"Content-Length: 2\r\n"]);
    let head = parse_head(&b"POST / HTTP/1.1\r\n".to_vec(), &hs).unwrap();
    assert_eq!(head.content_length, 2);
}

#[test]
fn body_is_carried_through_exactly() {
    let hs = lines(&[b"Content-Length: 5\r\n"]);
    let head = parse_head(&b"POST /u HTTP/1.1\r\n".to_vec(), &hs).unwrap();
    assert_eq!(head.content_length, 5);
    let body = vec![0u8, 159, 1, 0, 255];
    let req = finish_request_v2(head, body.clone());
    assert_eq!(req.body, body);
    assert!(!req.body_too_large);
}

#[test]
fn textual_request_body_is_carried_through() {
    let hs = lines(&[b"Content-Length: 3\r\n"]);
    let head = parse_head(&b"PUT /t HTTP/1.1\r\n".to_vec(), &hs).unwrap();
    let req = finish_request(head, b"abc".to_vec());
    assert_eq!(req.method, b"PUT".to_vec());
    assert_eq!(req.body, b"abc".to_vec());
}

#[test]
fn oversize_request_has_empty_body_and_flag() {
    let hs = lines(&[b"Content-Length: 1000\r\n"]);
    let head = parse_head(&b"POST / HTTP/1.1\r\n".to_vec(), &hs).unwrap();
    let req = oversize_request(head);
    assert!(req.body_too_large);
    assert!(req.body.is_empty());
    assert_eq!(req.method, b"POST".to_vec());
}

#[test]
fn lines_without_line_break_still_parse() {
    // End of stream can cut the head short of its terminators.
    let head = parse_head(&b"GET /x".to_vec(), &lines(&[b"Content-Length: 2"])).unwrap();
    assert_eq!(head.method, b"GET".to_vec());
    assert_eq!(head.path, b"/x".to_vec());
    assert_eq!(head.headers, b"Content-Length: 2".to_vec());
    assert_eq!(head.content_length, 2);
}

#[test]
fn blank_line_detection() {
    assert!(line_ends_head(&b"\r\n".to_vec()));
    assert!(line_ends_head(&b"\n".to_vec()));
    assert!(line_ends_head(&Vec::new()));
    assert!(!line_ends_head(&b"Host: x\r\n".to_vec()));
}
