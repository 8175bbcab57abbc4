//! The search engine end to end: descriptors, buffer padding, window
//! encoding, digests and match enumeration, cross-checked against an
//! independent digest computation.

use hashmine::digest::digest_matches;
use hashmine::engine::{build_buffer, build_descriptor, Search};
use hashmine::request::parse_request_line;
use sha1::{Digest, Sha1};

fn sha1_of(buf: &[u8]) -> Vec<u8> {
    let mut h = Sha1::new();
    h.update(buf);
    h.finalize().to_vec()
}

fn nibbles_of(digest: &[u8]) -> Vec<u8> {
    let mut out = Vec::new();
    for b in digest {
        out.push(b >> 4);
        out.push(b & 0x0f);
    }
    out
}

fn hex_digit(n: u8) -> u8 {
    if n < 10 {
        b'0' + n
    } else {
        b'a' + (n - 10)
    }
}

fn run_search(request_line: &str, body: &[u8]) -> Vec<Vec<u8>> {
    let l = request_line.as_bytes().to_vec();
    let raw = parse_request_line(&l).expect("request line must parse");
    let d = build_descriptor(raw).expect("descriptor must validate");
    let offset = d.offset;
    let size = d.size;
    let buf = build_buffer(body.to_vec(), offset, size);
    let mut s = Search::new(d, buf);
    let mut out = Vec::new();
    while let Some(h) = s.next_match() {
        out.push(h);
    }
    out
}

#[test]
fn empty_range_finds_nothing() {
    let out = run_search(
        "POST /api/v1/play?prefix=&size=8&offset=0&start=5&end=5 HTTP/1.1",
        b"x",
    );
    assert!(out.is_empty());
}

#[test]
fn reversed_range_finds_nothing() {
    let out = run_search(
        "POST /api/v1/play?prefix=&size=2&offset=0&start=7&end=3 HTTP/1.1",
        b"x",
    );
    assert!(out.is_empty());
}

#[test]
fn search_is_deterministic() {
    let line = "POST /api/v1/play?prefix=0&size=8&offset=0&start=0&end=10 HTTP/1.1";
    let first = run_search(line, b"x");
    let second = run_search(line, b"x");
    assert_eq!(first, second);
}

#[test]
fn one_nibble_prefix_scenario() {
    // window of 8 whitespace bytes, counters 0 and 1; a counter matches
    // exactly when its digest's first byte has high nibble 0.
    let mut expected: Vec<Vec<u8>> = Vec::new();
    for counter in 0u8..2u8 {
        let mut buf = vec![0u8; 8];
        for j in 0..8 {
            buf[j] = if counter >> j & 1 == 1 { 0x09 } else { 0x20 };
        }
        if sha1_of(&buf)[0] >> 4 == 0 {
            expected.push(vec![hex_digit(counter)]);
        }
    }
    let out = run_search(
        "POST /api/v1/play?prefix=0&size=8&offset=0&start=0&end=2 HTTP/1.1",
        b"x",
    );
    assert_eq!(out, expected);
}

#[test]
fn matches_agree_with_reference_digest() {
    // every counter in a window of 4 bytes, empty prefix: all must be
    // reported, in increasing order, as lowercase hex.
    let out = run_search(
        "POST /api/v1/play?prefix=&size=4&offset=0&start=0&end=10 HTTP/1.1",
        b"",
    );
    let expected: Vec<Vec<u8>> = (0u8..16).map(|c| vec![hex_digit(c)]).collect();
    assert_eq!(out, expected);
}

#[test]
fn round_trip_of_reported_matches() {
    // re-encode each reported counter independently and check the prefix
    // rule on a freshly computed digest.
    let out = run_search(
        "POST /api/v1/play?prefix=3&size=8&offset=1&start=0&end=100 HTTP/1.1",
        b"seed",
    );
    for h in &out {
        let counter = usize::from_str_radix(std::str::from_utf8(h).unwrap(), 16).unwrap();
        let mut buf = b"seed".to_vec();
        buf.extend(std::iter::repeat(0u8).take(5));
        for j in 0..8 {
            buf[1 + j] = if counter >> j & 1 == 1 { 0x09 } else { 0x20 };
        }
        let digest = sha1_of(&buf);
        assert_eq!(digest[0] >> 4, 0x3, "counter {counter} must satisfy the prefix rule");
    }
    assert!(!out.is_empty(), "a 1-nibble prefix over 256 counters is all but sure to hit");
}

#[test]
fn buffer_padding_is_zero() {
    let buf = build_buffer(b"A".to_vec(), 2, 3);
    assert_eq!(buf, vec![b'A', 0, 0, 0, 0]);
    let untouched = build_buffer(b"hello".to_vec(), 1, 2);
    assert_eq!(untouched, b"hello".to_vec());
}

#[test]
fn padded_gap_hashes_as_zero_bytes() {
    // window [2, 5) over a one-byte body: the byte at index 1 is padding
    // and must hash as zero; check by aiming a prefix at the digest of a
    // manually padded reference buffer.
    let reference = vec![b'A', 0u8, 0x20, 0x20, 0x20];  // counter 0: three spaces
    let digest = sha1_of(&reference);
    let n = nibbles_of(&digest);
    let prefix: String = n[..2].iter().map(|d| hex_digit(*d) as char).collect();
    let line = format!(
        "POST /api/v1/play?prefix={prefix}&size=3&offset=2&start=0&end=1 HTTP/1.1"
    );
    let out = run_search(&line, b"A");
    assert_eq!(out, vec![b"0".to_vec()]);
}

#[test]
fn empty_window_matches_all_or_none() {
    // size 0: every counter hashes the same empty buffer; sha1 of the
    // empty input starts with nibble 0xd.
    let all = run_search(
        "POST /api/v1/play?prefix=d&size=0&offset=0&start=0&end=3 HTTP/1.1",
        b"",
    );
    assert_eq!(all, vec![b"0".to_vec(), b"1".to_vec(), b"2".to_vec()]);
    let none = run_search(
        "POST /api/v1/play?prefix=a&size=0&offset=0&start=0&end=3 HTTP/1.1",
        b"",
    );
    assert!(none.is_empty());
}

#[test]
fn counters_beyond_machine_words() {
    // the range [16^18 - 1, 16^18 + 1) lies beyond 64 bits
    let out = run_search(
        "POST /api/v1/play?prefix=&size=4&offset=0&start=ffffffffffffffffff&end=1000000000000000001 HTTP/1.1",
        b"",
    );
    assert_eq!(
        out,
        vec![b"ffffffffffffffffff".to_vec(), b"1000000000000000000".to_vec()]
    );
}

#[test]
fn oversized_prefix_is_rejected() {
    let p = "0".repeat(41);
    let line = format!("POST /api/v1/play?prefix={p}&size=1&offset=0&start=0&end=1 HTTP/1.1");
    let l = line.as_bytes().to_vec();
    let raw = parse_request_line(&l).expect("the line itself is well-formed");
    assert!(build_descriptor(raw).is_none());
}

#[test]
fn forty_nibble_prefix_is_accepted() {
    let digest = sha1_of(&[0x20u8; 2]);
    let p: String = nibbles_of(&digest).iter().map(|d| hex_digit(*d) as char).collect();
    let line = format!("POST /api/v1/play?prefix={p}&size=2&offset=0&start=0&end=1 HTTP/1.1");
    let out = run_search(&line, b"");
    assert_eq!(out, vec![b"0".to_vec()]);
}

#[test]
fn oversized_size_is_rejected() {
    let line = "POST /api/v1/play?prefix=&size=99999999999999999999999999&offset=0&start=0&end=1 HTTP/1.1";
    let l = line.as_bytes().to_vec();
    let raw = parse_request_line(&l).expect("the line itself is well-formed");
    assert!(build_descriptor(raw).is_none());
}

#[test]
fn odd_and_even_prefix_nibble_counts() {
    let digest = sha1_of(b"whatever");
    let n = nibbles_of(&digest);
    // odd length: the low nibble of the second byte is not constrained
    let odd: Vec<u8> = vec![hex_digit(n[0]), hex_digit(n[1]), hex_digit(n[2])];
    assert!(digest_matches(&odd, &digest));
    let mut tampered = digest.clone();
    tampered[1] = (tampered[1] & 0xf0) | (tampered[1].wrapping_add(1) & 0x0f);
    assert!(
        digest_matches(&odd, &tampered),
        "an odd prefix must ignore the low nibble of its final byte"
    );
    // even length: the same tampering must now break the match
    let even: Vec<u8> = vec![
        hex_digit(n[0]),
        hex_digit(n[1]),
        hex_digit(n[2]),
        hex_digit(n[3]),
    ];
    assert!(digest_matches(&even, &digest));
    assert!(
        !digest_matches(&even, &tampered),
        "an even prefix must check the low nibble of its final byte"
    );
}
