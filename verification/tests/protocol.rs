//! The request grammar, header lines, response framing and digit
//! rendering, exercised on concrete byte strings.

use hashmine::header::{classify_header_line, HeaderLine};
use hashmine::radix::{parse_dec_usize, render_dec, render_hex_lower, render_hex_upper};
use hashmine::request::parse_request_line;
use hashmine::response::{
    bad_request_response, chunk_for, closing_bytes, log_bad_request, log_not_found, log_ok,
    not_found_response, ok_header, terminator_chunk,
};

fn line(s: &str) -> Vec<u8> {
    s.as_bytes().to_vec()
}

#[test]
fn parse_valid_line() {
    let l = line("POST /api/v1/play?prefix=0a&size=8&offset=0&start=0&end=ff HTTP/1.1");
    let raw = parse_request_line(&l).expect("line must parse");
    assert_eq!(raw.prefix, b"0a".to_vec());
    assert_eq!(raw.size, b"8".to_vec());
    assert_eq!(raw.offset, b"0".to_vec());
    assert_eq!(raw.start, b"0".to_vec());
    assert_eq!(raw.end, b"ff".to_vec());
}

#[test]
fn parse_empty_prefix() {
    let l = line("POST /api/v1/play?prefix=&size=1&offset=2&start=a&end=b HTTP/1.1");
    let raw = parse_request_line(&l).expect("empty prefix is legal");
    assert!(raw.prefix.is_empty());
    assert_eq!(raw.offset, b"2".to_vec());
}

#[test]
fn parse_missing_end_is_rejected() {
    let l = line("POST /api/v1/play?prefix=0a&size=8&offset=0&start=0 HTTP/1.1");
    assert!(parse_request_line(&l).is_none());
}

#[test]
fn parse_wrong_parameter_order_is_rejected() {
    let l = line("POST /api/v1/play?size=8&prefix=0a&offset=0&start=0&end=ff HTTP/1.1");
    assert!(parse_request_line(&l).is_none());
}

#[test]
fn parse_uppercase_hex_is_rejected() {
    let l = line("POST /api/v1/play?prefix=0A&size=8&offset=0&start=0&end=ff HTTP/1.1");
    assert!(parse_request_line(&l).is_none());
}

#[test]
fn parse_empty_numeric_parameter_is_rejected() {
    let l = line("POST /api/v1/play?prefix=0a&size=&offset=0&start=0&end=ff HTTP/1.1");
    assert!(parse_request_line(&l).is_none());
}

#[test]
fn parse_trailing_garbage_is_rejected() {
    let l = line("POST /api/v1/play?prefix=0a&size=8&offset=0&start=0&end=ff HTTP/1.1x");
    assert!(parse_request_line(&l).is_none());
}

#[test]
fn parse_wrong_method_is_rejected() {
    let l = line("GET /api/v1/play?prefix=0a&size=8&offset=0&start=0&end=ff HTTP/1.1");
    assert!(parse_request_line(&l).is_none());
}

#[test]
fn header_end_line() {
    assert_eq!(classify_header_line(&line("\r\n")), HeaderLine::End);
}

#[test]
fn header_content_length() {
    assert_eq!(
        classify_header_line(&line("Content-Length: 42\r\n")),
        HeaderLine::ContentLength(42)
    );
}

#[test]
fn header_name_is_case_insensitive() {
    assert_eq!(
        classify_header_line(&line("CONTENT-LENGTH:7\r\n")),
        HeaderLine::ContentLength(7)
    );
}

#[test]
fn header_other_name_is_ignored() {
    assert_eq!(classify_header_line(&line("Host: example\r\n")), HeaderLine::Other);
}

#[test]
fn header_without_colon_is_malformed() {
    assert_eq!(classify_header_line(&line("nonsense\r\n")), HeaderLine::Malformed);
}

#[test]
fn header_empty_value_is_malformed() {
    assert_eq!(classify_header_line(&line("A: \r\n")), HeaderLine::Malformed);
}

#[test]
fn header_bad_length_value_is_malformed() {
    assert_eq!(classify_header_line(&line("Content-Length: 12x\r\n")), HeaderLine::Malformed);
}

#[test]
fn header_huge_length_value_is_malformed() {
    let l = line("Content-Length: 99999999999999999999999999999999\r\n");
    assert_eq!(classify_header_line(&l), HeaderLine::Malformed);
}

#[test]
fn bounded_responses_are_verbatim() {
    assert_eq!(
        bad_request_response(),
        b"HTTP/1.1 400 Bad Request\r\nContent-Length: 4\r\n\r\n400\n".to_vec()
    );
    assert_eq!(
        not_found_response(),
        b"HTTP/1.1 404 Not Found\r\nContent-Length: 4\r\n\r\n404\n".to_vec()
    );
}

#[test]
fn streaming_frames_are_verbatim() {
    assert_eq!(ok_header(), b"HTTP/1.1 200 OK\r\nTransfer-Encoding: chunked\r\n\r\n".to_vec());
    assert_eq!(terminator_chunk(), b"0\r\n\r\n".to_vec());
}

#[test]
fn zero_matches_close_with_the_no_match_message() {
    assert_eq!(closing_bytes(0), not_found_response());
    assert_eq!(closing_bytes(3), terminator_chunk());
}

#[test]
fn chunk_length_is_uppercase_hex() {
    assert_eq!(chunk_for(&b"ab".to_vec()), b"3\r\nab\n\r\n".to_vec());
    // a 9-digit counter gives a 10-byte chunk body, rendered as "A"
    assert_eq!(chunk_for(&b"123456789".to_vec()), b"A\r\n123456789\n\r\n".to_vec());
}

#[test]
fn log_lines() {
    assert_eq!(log_bad_request(&line("REQ")), b"REQ 400 Bad Request".to_vec());
    assert_eq!(log_not_found(&line("REQ")), b"REQ 404 Not Found".to_vec());
    assert_eq!(log_ok(&line("REQ"), 5), b"REQ 200 OK 5".to_vec());
    assert_eq!(log_ok(&line("REQ"), 0), b"REQ 200 OK 0".to_vec());
}

#[test]
fn digit_rendering() {
    assert_eq!(render_hex_upper(0), b"0".to_vec());
    assert_eq!(render_hex_upper(255), b"FF".to_vec());
    assert_eq!(render_hex_upper(4096), b"1000".to_vec());
    assert_eq!(render_hex_lower(0xdeadbeef), b"deadbeef".to_vec());
    assert_eq!(render_dec(0), b"0".to_vec());
    assert_eq!(render_dec(65535), b"65535".to_vec());
}

#[test]
fn decimal_parsing() {
    assert_eq!(parse_dec_usize(&b"0".to_vec()), Some(0));
    assert_eq!(parse_dec_usize(&b"007".to_vec()), Some(7));
    assert_eq!(parse_dec_usize(&b"18446744073709551615".to_vec()), Some(usize::MAX));
    assert_eq!(parse_dec_usize(&b"18446744073709551616".to_vec()), None);
}
