//! The request start line: one exact shape is accepted, an operation name,
//! a fixed resource path, five query parameters in a fixed order, and a
//! protocol-version token.  `parse_request_line` recognises exactly that
//! shape and hands back the five raw parameter strings; any other line is
//! reported as no match.

use vstd::prelude::*;
use crate::radix::{all_dec, all_hex, dec_digit, hex_digit, is_dec_digit, is_hex_digit};

verus! {

/// `"POST /api/v1/play?prefix="` as bytes.
pub open spec fn head_lit() -> Seq<u8> {
    seq![80u8, 79u8, 83u8, 84u8, 32u8, 47u8, 97u8, 112u8, 105u8, 47u8, 118u8, 49u8, 47u8, 112u8,
        108u8, 97u8, 121u8, 63u8, 112u8, 114u8, 101u8, 102u8, 105u8, 120u8, 61u8]
}

/// `"&size="` as bytes.
pub open spec fn size_lit() -> Seq<u8> {
    seq![38u8, 115u8, 105u8, 122u8, 101u8, 61u8]
}

/// `"&offset="` as bytes.
pub open spec fn offset_lit() -> Seq<u8> {
    seq![38u8, 111u8, 102u8, 102u8, 115u8, 101u8, 116u8, 61u8]
}

/// `"&start="` as bytes.
pub open spec fn start_lit() -> Seq<u8> {
    seq![38u8, 115u8, 116u8, 97u8, 114u8, 116u8, 61u8]
}

/// `"&end="` as bytes.
pub open spec fn end_lit() -> Seq<u8> {
    seq![38u8, 101u8, 110u8, 100u8, 61u8]
}

/// `" HTTP/1.1"` as bytes.
pub open spec fn tail_lit() -> Seq<u8> {
    seq![32u8, 72u8, 84u8, 84u8, 80u8, 47u8, 49u8, 46u8, 49u8]
}

/// The five raw parameter strings of an accepted start line, still as the
/// digit strings that stood in the line.
pub struct RawRequest {
    pub prefix: Vec<u8>,
    pub size: Vec<u8>,
    pub offset: Vec<u8>,
    pub start: Vec<u8>,
    pub end: Vec<u8>,
}

/// `s` splits exactly into the fixed tokens and the five parameter
/// strings, each of its digit class, the numeric ones nonempty.
pub open spec fn play_decomposition(
    s: Seq<u8>,
    p: Seq<u8>,
    sz: Seq<u8>,
    o: Seq<u8>,
    a: Seq<u8>,
    b: Seq<u8>,
) -> bool {
    let c0 = head_lit().len() as int;
    let c1 = c0 + p.len();
    let c2 = c1 + size_lit().len();
    let c3 = c2 + sz.len();
    let c4 = c3 + offset_lit().len();
    let c5 = c4 + o.len();
    let c6 = c5 + start_lit().len();
    let c7 = c6 + a.len();
    let c8 = c7 + end_lit().len();
    let c9 = c8 + b.len();
    &&& all_hex(p)
    &&& sz.len() > 0 && all_dec(sz)
    &&& o.len() > 0 && all_dec(o)
    &&& a.len() > 0 && all_hex(a)
    &&& b.len() > 0 && all_hex(b)
    &&& s.len() == c9 + tail_lit().len()
    &&& s.subrange(0, c0) == head_lit()
    &&& s.subrange(c0, c1) == p
    &&& s.subrange(c1, c2) == size_lit()
    &&& s.subrange(c2, c3) == sz
    &&& s.subrange(c3, c4) == offset_lit()
    &&& s.subrange(c4, c5) == o
    &&& s.subrange(c5, c6) == start_lit()
    &&& s.subrange(c6, c7) == a
    &&& s.subrange(c7, c8) == end_lit()
    &&& s.subrange(c8, c9) == b
    &&& s.subrange(c9, s.len() as int) == tail_lit()
}

/// `s` is an accepted start line: some choice of the five parameter
/// strings decomposes it.
pub open spec fn is_play_line(s: Seq<u8>) -> bool {
    exists|p: Seq<u8>, sz: Seq<u8>, o: Seq<u8>, a: Seq<u8>, b: Seq<u8>|
        play_decomposition(s, p, sz, o, a, b)
}

/// `b` belongs to the digit class picked by `hex`.
pub open spec fn class_ok(b: u8, hex: bool) -> bool {
    if hex {
        is_hex_digit(b)
    } else {
        is_dec_digit(b)
    }
}

/// First position at or after `pos` that is not a digit of the class, or
/// the end of `s`: the end of the maximal digit run starting at `pos`.
pub open spec fn run_end(s: Seq<u8>, pos: int, hex: bool) -> int
    decreases s.len() - pos,
{
    if pos < s.len() && class_ok(s[pos], hex) {
        run_end(s, pos + 1, hex)
    } else {
        pos
    }
}

/// A run of class digits on `[pos, e)` that stops at `e` (end of string or
/// a byte outside the class) is the maximal run.
proof fn lemma_run_end_exact(s: Seq<u8>, pos: int, e: int, hex: bool)
    requires
        0 <= pos <= e <= s.len(),
        forall|k: int| pos <= k < e ==> class_ok(#[trigger] s[k], hex),
        e == s.len() || !class_ok(s[e], hex),
    ensures
        run_end(s, pos, hex) == e,
    decreases e - pos,
{
    if pos < e {
        lemma_run_end_exact(s, pos + 1, e, hex);
    }
}

/// Executable test for membership in the digit class picked by `hex`.
fn class_check(b: u8, hex: bool) -> (r: bool)
    ensures
        r == class_ok(b, hex),
{
    if hex {
        hex_digit(b)
    } else {
        dec_digit(b)
    }
}

/// Walk the maximal run of class digits from `pos`.
fn scan_run(s: &Vec<u8>, pos: usize, hex: bool) -> (j: usize)
    requires
        pos <= s@.len(),
    ensures
        pos <= j <= s@.len(),
        j == run_end(s@, pos as int, hex),
        forall|k: int| pos <= k < j ==> class_ok(#[trigger] s@[k], hex),
    decreases s@.len() - pos,
{
    let mut i: usize = pos;
    while i < s.len() && class_check(s[i], hex)
        invariant
            pos <= i <= s@.len(),
            run_end(s@, pos as int, hex) == run_end(s@, i as int, hex),
            forall|k: int| pos <= k < i ==> class_ok(#[trigger] s@[k], hex),
        decreases s@.len() - i,
    {
        i = i + 1;
    }
    i
}

/// Does `tok` stand verbatim at `pos` in `s`?
fn token_at(s: &Vec<u8>, pos: usize, tok: &Vec<u8>) -> (r: bool)
    requires
        pos <= s@.len(),
    ensures
        r == (pos + tok@.len() <= s@.len() && s@.subrange(
            pos as int,
            pos + tok@.len(),
        ) =~= tok@),
{
    if s.len() - pos < tok.len() {
        return false;
    }
    let mut i: usize = 0;
    while i < tok.len()
        invariant
            0 <= i <= tok@.len(),
            pos + tok@.len() <= s@.len() <= usize::MAX,
            forall|k: int| 0 <= k < i ==> s@[pos + k] == tok@[k],
        decreases tok@.len() - i,
    {
        if s[pos + i] != tok[i] {
            return false;
        }
        i = i + 1;
    }
    proof {
        assert(s@.subrange(pos as int, pos + tok@.len()) =~= tok@);
    }
    true
}

/// Copy `s[lo..hi]` out as a fresh vector.
pub(crate) fn sub_vec(s: &Vec<u8>, lo: usize, hi: usize) -> (r: Vec<u8>)
    requires
        lo <= hi <= s@.len(),
    ensures
        r@ =~= s@.subrange(lo as int, hi as int),
{
    let mut r: Vec<u8> = Vec::new();
    let mut i: usize = lo;
    while i < hi
        invariant
            lo <= i <= hi <= s@.len(),
            r@.len() == i - lo,
            forall|k: int| 0 <= k < r@.len() ==> r@[k] == s@[lo + k],
        decreases hi - i,
    {
        r.push(s[i]);
        i = i + 1;
    }
    r
}

/// `"POST /api/v1/play?prefix="` as a runtime vector.
fn head_token() -> (r: Vec<u8>)
    ensures
        r@ =~= head_lit(),
{
    let r: Vec<u8> = vec![80u8, 79u8, 83u8, 84u8, 32u8, 47u8, 97u8, 112u8, 105u8, 47u8, 118u8,
        49u8, 47u8, 112u8, 108u8, 97u8, 121u8, 63u8, 112u8, 114u8, 101u8, 102u8, 105u8, 120u8,
        61u8];
    proof {
        assert(r@ =~= head_lit());
    }
    r
}

/// `"&size="` as a runtime vector.
fn size_token() -> (r: Vec<u8>)
    ensures
        r@ =~= size_lit(),
{
    let r: Vec<u8> = vec![38u8, 115u8, 105u8, 122u8, 101u8, 61u8];
    proof {
        assert(r@ =~= size_lit());
    }
    r
}

/// `"&offset="` as a runtime vector.
fn offset_token() -> (r: Vec<u8>)
    ensures
        r@ =~= offset_lit(),
{
    let r: Vec<u8> = vec![38u8, 111u8, 102u8, 102u8, 115u8, 101u8, 116u8, 61u8];
    proof {
        assert(r@ =~= offset_lit());
    }
    r
}

/// `"&start="` as a runtime vector.
fn start_token() -> (r: Vec<u8>)
    ensures
        r@ =~= start_lit(),
{
    let r: Vec<u8> = vec![38u8, 115u8, 116u8, 97u8, 114u8, 116u8, 61u8];
    proof {
        assert(r@ =~= start_lit());
    }
    r
}

/// `"&end="` as a runtime vector.
fn end_token() -> (r: Vec<u8>)
    ensures
        r@ =~= end_lit(),
{
    let r: Vec<u8> = vec![38u8, 101u8, 110u8, 100u8, 61u8];
    proof {
        assert(r@ =~= end_lit());
    }
    r
}

/// `" HTTP/1.1"` as a runtime vector.
fn tail_token() -> (r: Vec<u8>)
    ensures
        r@ =~= tail_lit(),
{
    let r: Vec<u8> = vec![32u8, 72u8, 84u8, 84u8, 80u8, 47u8, 49u8, 46u8, 49u8];
    proof {
        assert(r@ =~= tail_lit());
    }
    r
}

/// On an accepted line the parameter boundaries are forced: each digit
/// run is maximal, because the token that follows it starts with a byte
/// outside the digit class.  The five segments cut at those maximal runs
/// are a decomposition.
proof fn lemma_play_positions(s: Seq<u8>)
    requires
        is_play_line(s),
    ensures
        ({
            let e1 = run_end(s, head_lit().len() as int, true);
            let e2 = run_end(s, e1 + size_lit().len(), false);
            let e3 = run_end(s, e2 + offset_lit().len(), false);
            let e4 = run_end(s, e3 + start_lit().len(), true);
            let e5 = run_end(s, e4 + end_lit().len(), true);
            play_decomposition(
                s,
                s.subrange(head_lit().len() as int, e1),
                s.subrange(e1 + size_lit().len(), e2),
                s.subrange(e2 + offset_lit().len(), e3),
                s.subrange(e3 + start_lit().len(), e4),
                s.subrange(e4 + end_lit().len(), e5),
            )
        }),
{
    let (p, sz, o, a, b): (Seq<u8>, Seq<u8>, Seq<u8>, Seq<u8>, Seq<u8>) = choose|
        p: Seq<u8>,
        sz: Seq<u8>,
        o: Seq<u8>,
        a: Seq<u8>,
        b: Seq<u8>,
    | play_decomposition(s, p, sz, o, a, b);
    let c0 = head_lit().len() as int;
    let c1 = c0 + p.len();
    let c2 = c1 + size_lit().len();
    let c3 = c2 + sz.len();
    let c4 = c3 + offset_lit().len();
    let c5 = c4 + o.len();
    let c6 = c5 + start_lit().len();
    let c7 = c6 + a.len();
    let c8 = c7 + end_lit().len();
    let c9 = c8 + b.len();
    assert forall|k: int| c0 <= k < c1 implies class_ok(#[trigger] s[k], true) by {
        assert(p[k - c0] == s.subrange(c0, c1)[k - c0]);
    }
    assert(s[c1] == size_lit()[0]);
    lemma_run_end_exact(s, c0, c1, true);
    assert forall|k: int| c2 <= k < c3 implies class_ok(#[trigger] s[k], false) by {
        assert(sz[k - c2] == s.subrange(c2, c3)[k - c2]);
    }
    assert(s[c3] == offset_lit()[0]);
    lemma_run_end_exact(s, c2, c3, false);
    assert forall|k: int| c4 <= k < c5 implies class_ok(#[trigger] s[k], false) by {
        assert(o[k - c4] == s.subrange(c4, c5)[k - c4]);
    }
    assert(s[c5] == start_lit()[0]);
    lemma_run_end_exact(s, c4, c5, false);
    assert forall|k: int| c6 <= k < c7 implies class_ok(#[trigger] s[k], true) by {
        assert(a[k - c6] == s.subrange(c6, c7)[k - c6]);
    }
    assert(s[c7] == end_lit()[0]);
    lemma_run_end_exact(s, c6, c7, true);
    assert forall|k: int| c8 <= k < c9 implies class_ok(#[trigger] s[k], true) by {
        assert(b[k - c8] == s.subrange(c8, c9)[k - c8]);
    }
    assert(s[c9] == tail_lit()[0]);
    lemma_run_end_exact(s, c8, c9, true);
    assert(s.subrange(c0, c1) =~= p);
    assert(s.subrange(c2, c3) =~= sz);
    assert(s.subrange(c4, c5) =~= o);
    assert(s.subrange(c6, c7) =~= a);
    assert(s.subrange(c8, c9) =~= b);
}

/// Recognise the one accepted start line shape.  `Some` carries the five
/// raw parameter strings of the (then unique) decomposition; `None` says
/// that no decomposition of `s` exists at all.
pub fn parse_request_line(s: &Vec<u8>) -> (r: Option<RawRequest>)
    ensures
        match r {
            Some(q) => play_decomposition(s@, q.prefix@, q.size@, q.offset@, q.start@, q.end@),
            None => !is_play_line(s@),
        },
{
    let n: usize = s.len();
    let head = head_token();
    if !token_at(s, 0, &head) {
        proof {
            if is_play_line(s@) {
                lemma_play_positions(s@);
            }
        }
        return None;
    }
    let c0: usize = 25;
    let e1 = scan_run(s, c0, true);
    let tok_size = size_token();
    if !token_at(s, e1, &tok_size) {
        proof {
            if is_play_line(s@) {
                lemma_play_positions(s@);
            }
        }
        return None;
    }
    let c2 = e1 + 6;
    let e2 = scan_run(s, c2, false);
    let tok_offset = offset_token();
    if e2 == c2 || !token_at(s, e2, &tok_offset) {
        proof {
            if is_play_line(s@) {
                lemma_play_positions(s@);
            }
        }
        return None;
    }
    let c4 = e2 + 8;
    let e3 = scan_run(s, c4, false);
    let tok_start = start_token();
    if e3 == c4 || !token_at(s, e3, &tok_start) {
        proof {
            if is_play_line(s@) {
                lemma_play_positions(s@);
            }
        }
        return None;
    }
    let c6 = e3 + 7;
    let e4 = scan_run(s, c6, true);
    let tok_end = end_token();
    if e4 == c6 || !token_at(s, e4, &tok_end) {
        proof {
            if is_play_line(s@) {
                lemma_play_positions(s@);
            }
        }
        return None;
    }
    let c8 = e4 + 5;
    let e5 = scan_run(s, c8, true);
    let tok_tail = tail_token();
    if e5 == c8 || !token_at(s, e5, &tok_tail) || e5 + 9 != n {
        proof {
            if is_play_line(s@) {
                lemma_play_positions(s@);
            }
        }
        return None;
    }
    let q = RawRequest {
        prefix: sub_vec(s, c0, e1),
        size: sub_vec(s, c2, e2),
        offset: sub_vec(s, c4, e3),
        start: sub_vec(s, c6, e4),
        end: sub_vec(s, c8, e5),
    };
    proof {
        assert(s@.subrange(0, 25) =~= head_lit());
        assert(s@.subrange(e1 as int, e1 + 6) =~= size_lit());
        assert(s@.subrange(e2 as int, e2 + 8) =~= offset_lit());
        assert(s@.subrange(e3 as int, e3 + 7) =~= start_lit());
        assert(s@.subrange(e4 as int, e4 + 5) =~= end_lit());
        assert(s@.subrange(e5 as int, s@.len() as int) =~= tail_lit());
    }
    Some(q)
}

} // verus!
