//! Serialization of the three responses and of the per-request log lines.
//! Rejection and no-match outcomes are bounded messages with an exact
//! length header; found matches stream as chunked framing, each chunk the
//! counter in lowercase hex plus a newline, closed by a zero-length chunk.

use vstd::prelude::*;
use crate::radix::{dec_repr, hex_repr_upper, render_hex_upper};

verus! {

/// `"HTTP/1.1 400 Bad Request\r\nContent-Length: 4\r\n\r\n400\n"` as bytes.
pub open spec fn bad_request_lit() -> Seq<u8> {
    seq![72u8, 84u8, 84u8, 80u8, 47u8, 49u8, 46u8, 49u8, 32u8, 52u8, 48u8, 48u8, 32u8, 66u8,
        97u8, 100u8, 32u8, 82u8, 101u8, 113u8, 117u8, 101u8, 115u8, 116u8, 13u8, 10u8, 67u8,
        111u8, 110u8, 116u8, 101u8, 110u8, 116u8, 45u8, 76u8, 101u8, 110u8, 103u8, 116u8, 104u8,
        58u8, 32u8, 52u8, 13u8, 10u8, 13u8, 10u8, 52u8, 48u8, 48u8, 10u8]
}

/// `"HTTP/1.1 404 Not Found\r\nContent-Length: 4\r\n\r\n404\n"` as bytes.
pub open spec fn not_found_lit() -> Seq<u8> {
    seq![72u8, 84u8, 84u8, 80u8, 47u8, 49u8, 46u8, 49u8, 32u8, 52u8, 48u8, 52u8, 32u8, 78u8,
        111u8, 116u8, 32u8, 70u8, 111u8, 117u8, 110u8, 100u8, 13u8, 10u8, 67u8, 111u8, 110u8,
        116u8, 101u8, 110u8, 116u8, 45u8, 76u8, 101u8, 110u8, 103u8, 116u8, 104u8, 58u8, 32u8,
        52u8, 13u8, 10u8, 13u8, 10u8, 52u8, 48u8, 52u8, 10u8]
}

/// `"HTTP/1.1 200 OK\r\nTransfer-Encoding: chunked\r\n\r\n"` as bytes: the
/// status line and framing marker sent once the first match exists.
pub open spec fn ok_header_lit() -> Seq<u8> {
    seq![72u8, 84u8, 84u8, 80u8, 47u8, 49u8, 46u8, 49u8, 32u8, 50u8, 48u8, 48u8, 32u8, 79u8,
        75u8, 13u8, 10u8, 84u8, 114u8, 97u8, 110u8, 115u8, 102u8, 101u8, 114u8, 45u8, 69u8,
        110u8, 99u8, 111u8, 100u8, 105u8, 110u8, 103u8, 58u8, 32u8, 99u8, 104u8, 117u8, 110u8,
        107u8, 101u8, 100u8, 13u8, 10u8, 13u8, 10u8]
}

/// `"0\r\n\r\n"` as bytes: the zero-length chunk that closes the stream.
pub open spec fn terminator_lit() -> Seq<u8> {
    seq![48u8, 13u8, 10u8, 13u8, 10u8]
}

/// `"400 Bad Request"` as bytes, for the log line.
pub open spec fn status_bad_lit() -> Seq<u8> {
    seq![52u8, 48u8, 48u8, 32u8, 66u8, 97u8, 100u8, 32u8, 82u8, 101u8, 113u8, 117u8, 101u8,
        115u8, 116u8]
}

/// `"404 Not Found"` as bytes, for the log line.
pub open spec fn status_not_found_lit() -> Seq<u8> {
    seq![52u8, 48u8, 52u8, 32u8, 78u8, 111u8, 116u8, 32u8, 70u8, 111u8, 117u8, 110u8, 100u8]
}

/// `" 200 OK "` as bytes, between the request line and the match count.
pub open spec fn ok_count_infix_lit() -> Seq<u8> {
    seq![32u8, 50u8, 48u8, 48u8, 32u8, 79u8, 75u8, 32u8]
}

/// One chunk for a match whose lowercase hex digits are `h`: the chunk
/// body is `h` plus a newline, preceded by the body's byte count in
/// uppercase hex and a line terminator, and closed by another one.
pub open spec fn chunk_spec(h: Seq<u8>) -> Seq<u8> {
    hex_repr_upper(h.len() + 1) + seq![13u8, 10u8] + h + seq![10u8] + seq![13u8, 10u8]
}

/// Log line for a bounded response: the request line, a space, the status.
pub open spec fn log_line_spec(req: Seq<u8>, status: Seq<u8>) -> Seq<u8> {
    req + seq![32u8] + status
}

/// Log line for a successful search: the request line, `" 200 OK "`, and
/// the number of matches in decimal.
pub open spec fn log_line_ok_spec(req: Seq<u8>, found: nat) -> Seq<u8> {
    req + ok_count_infix_lit() + dec_repr(found)
}

/// Append all of `src` to `dst`.
fn push_all(dst: &mut Vec<u8>, src: &Vec<u8>)
    ensures
        final(dst)@ =~= old(dst)@ + src@,
{
    let mut i: usize = 0;
    while i < src.len()
        invariant
            0 <= i <= src@.len(),
            dst@ =~= old(dst)@ + src@.take(i as int),
        decreases src@.len() - i,
    {
        let ghost before = dst@;
        dst.push(src[i]);
        proof {
            assert(dst@ =~= before.push(src@[i as int]));
            assert(old(dst)@ + src@.take(i + 1) =~= (old(dst)@ + src@.take(i as int)).push(
                src@[i as int],
            ));
        }
        i = i + 1;
    }
    proof {
        assert(src@.take(src@.len() as int) =~= src@);
    }
}

/// The bounded rejection message for a start line that matched nothing.
pub fn bad_request_response() -> (r: Vec<u8>)
    ensures
        r@ == bad_request_lit(),
{
    let r: Vec<u8> = vec![72u8, 84u8, 84u8, 80u8, 47u8, 49u8, 46u8, 49u8, 32u8, 52u8, 48u8, 48u8,
        32u8, 66u8, 97u8, 100u8, 32u8, 82u8, 101u8, 113u8, 117u8, 101u8, 115u8, 116u8, 13u8,
        10u8, 67u8, 111u8, 110u8, 116u8, 101u8, 110u8, 116u8, 45u8, 76u8, 101u8, 110u8, 103u8,
        116u8, 104u8, 58u8, 32u8, 52u8, 13u8, 10u8, 13u8, 10u8, 52u8, 48u8, 48u8, 10u8];
    proof {
        assert(r@ =~= bad_request_lit());
    }
    r
}

/// The bounded no-match message for a search that found nothing.
pub fn not_found_response() -> (r: Vec<u8>)
    ensures
        r@ == not_found_lit(),
{
    let r: Vec<u8> = vec![72u8, 84u8, 84u8, 80u8, 47u8, 49u8, 46u8, 49u8, 32u8, 52u8, 48u8, 52u8,
        32u8, 78u8, 111u8, 116u8, 32u8, 70u8, 111u8, 117u8, 110u8, 100u8, 13u8, 10u8, 67u8,
        111u8, 110u8, 116u8, 101u8, 110u8, 116u8, 45u8, 76u8, 101u8, 110u8, 103u8, 116u8, 104u8,
        58u8, 32u8, 52u8, 13u8, 10u8, 13u8, 10u8, 52u8, 48u8, 52u8, 10u8];
    proof {
        assert(r@ =~= not_found_lit());
    }
    r
}

/// The streaming status line and chunked-framing marker, sent before the
/// first chunk.
pub fn ok_header() -> (r: Vec<u8>)
    ensures
        r@ == ok_header_lit(),
{
    let r: Vec<u8> = vec![72u8, 84u8, 84u8, 80u8, 47u8, 49u8, 46u8, 49u8, 32u8, 50u8, 48u8, 48u8,
        32u8, 79u8, 75u8, 13u8, 10u8, 84u8, 114u8, 97u8, 110u8, 115u8, 102u8, 101u8, 114u8, 45u8,
        69u8, 110u8, 99u8, 111u8, 100u8, 105u8, 110u8, 103u8, 58u8, 32u8, 99u8, 104u8, 117u8,
        110u8, 107u8, 101u8, 100u8, 13u8, 10u8, 13u8, 10u8];
    proof {
        assert(r@ =~= ok_header_lit());
    }
    r
}

/// The zero-length chunk plus trailing empty line that ends the stream.
pub fn terminator_chunk() -> (r: Vec<u8>)
    ensures
        r@ == terminator_lit(),
{
    let r: Vec<u8> = vec![48u8, 13u8, 10u8, 13u8, 10u8];
    proof {
        assert(r@ =~= terminator_lit());
    }
    r
}

/// Frame one match, given as its lowercase hex digits, as one chunk.
pub fn chunk_for(h: &Vec<u8>) -> (r: Vec<u8>)
    requires
        h@.len() < usize::MAX,
    ensures
        r@ == chunk_spec(h@),
{
    let mut r = render_hex_upper(h.len() + 1);
    r.push(13);
    r.push(10);
    push_all(&mut r, h);
    r.push(10);
    r.push(13);
    r.push(10);
    proof {
        assert(r@ =~= chunk_spec(h@));
    }
    r
}

/// What closes a search's response: a run that streamed no chunk owes the
/// whole bounded no-match message, one that streamed matches owes the
/// zero-length chunk that ends the stream.
pub fn closing_bytes(found: usize) -> (r: Vec<u8>)
    ensures
        found == 0 ==> r@ == not_found_lit(),
        found > 0 ==> r@ == terminator_lit(),
{
    if found == 0 {
        not_found_response()
    } else {
        terminator_chunk()
    }
}

/// The log line for a rejected request.
pub fn log_bad_request(req: &Vec<u8>) -> (r: Vec<u8>)
    ensures
        r@ == log_line_spec(req@, status_bad_lit()),
{
    let mut r: Vec<u8> = Vec::new();
    push_all(&mut r, req);
    r.push(32);
    let status: Vec<u8> = vec![52u8, 48u8, 48u8, 32u8, 66u8, 97u8, 100u8, 32u8, 82u8, 101u8,
        113u8, 117u8, 101u8, 115u8, 116u8];
    push_all(&mut r, &status);
    proof {
        assert(status@ =~= status_bad_lit());
        assert(r@ =~= log_line_spec(req@, status_bad_lit()));
    }
    r
}

/// The log line for a search that found nothing.
pub fn log_not_found(req: &Vec<u8>) -> (r: Vec<u8>)
    ensures
        r@ == log_line_spec(req@, status_not_found_lit()),
{
    let mut r: Vec<u8> = Vec::new();
    push_all(&mut r, req);
    r.push(32);
    let status: Vec<u8> = vec![52u8, 48u8, 52u8, 32u8, 78u8, 111u8, 116u8, 32u8, 70u8, 111u8,
        117u8, 110u8, 100u8];
    push_all(&mut r, &status);
    proof {
        assert(status@ =~= status_not_found_lit());
        assert(r@ =~= log_line_spec(req@, status_not_found_lit()));
    }
    r
}

/// The log line for a search that streamed `found` matches.
pub fn log_ok(req: &Vec<u8>, found: usize) -> (r: Vec<u8>)
    ensures
        r@ == log_line_ok_spec(req@, found as nat),
{
    let mut r: Vec<u8> = Vec::new();
    push_all(&mut r, req);
    let infix: Vec<u8> = vec![32u8, 50u8, 48u8, 48u8, 32u8, 79u8, 75u8, 32u8];
    push_all(&mut r, &infix);
    let count = crate::radix::render_dec(found);
    push_all(&mut r, &count);
    proof {
        assert(infix@ =~= ok_count_infix_lit());
        assert(r@ =~= log_line_ok_spec(req@, found as nat));
    }
    r
}

} // verus!
