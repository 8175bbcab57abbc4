//! Header lines.  Each line splits into a name and a value on the first
//! colon; names are matched case-insensitively, and the only name that is
//! consumed is the one carrying the declared body length.  The empty line
//! closes the header section.

use vstd::prelude::*;
use crate::radix::{all_dec, dec_seq_val, parse_dec_usize};
use crate::request::sub_vec;

verus! {

/// `"\r\n"` as bytes.
pub open spec fn crlf() -> Seq<u8> {
    seq![13u8, 10u8]
}

/// `"content-length"` as bytes.
pub open spec fn content_length_lit() -> Seq<u8> {
    seq![99u8, 111u8, 110u8, 116u8, 101u8, 110u8, 116u8, 45u8, 108u8, 101u8, 110u8, 103u8, 116u8,
        104u8]
}

/// ASCII uppercase letters folded to lowercase; all else unchanged.
pub open spec fn ascii_lower(b: u8) -> u8 {
    if 65 <= b <= 90 {
        (b + 32) as u8
    } else {
        b
    }
}

/// First position at or after `pos` holding `b`, or the end of `s`.
pub open spec fn find_from(s: Seq<u8>, pos: int, b: u8) -> int
    decreases s.len() - pos,
{
    if pos < s.len() {
        if s[pos] == b {
            pos
        } else {
            find_from(s, pos + 1, b)
        }
    } else {
        pos
    }
}

/// End of the run of spaces starting at `pos`.
pub open spec fn space_end(s: Seq<u8>, pos: int) -> int
    decreases s.len() - pos,
{
    if pos < s.len() && s[pos] == 32 {
        space_end(s, pos + 1)
    } else {
        pos
    }
}

/// Position of the first colon of a header line.
pub open spec fn colon_pos(s: Seq<u8>) -> int {
    find_from(s, 0, 58)
}

/// Position where the value of a header line begins: after the first
/// colon and any run of spaces.
pub open spec fn value_start(s: Seq<u8>) -> int {
    space_end(s, colon_pos(s) + 1)
}

/// The name of a header line: everything before the first colon.
pub open spec fn header_name(s: Seq<u8>) -> Seq<u8> {
    s.subrange(0, colon_pos(s))
}

/// The value of a header line: everything after the colon and the spaces
/// that follow it, up to the closing `"\r\n"`.
pub open spec fn header_value(s: Seq<u8>) -> Seq<u8> {
    s.subrange(value_start(s), s.len() - 2)
}

/// A well-formed header line: closed by `"\r\n"`, a nonempty name before
/// the first colon, and a nonempty value free of `'\r'` and `'\n'`.
pub open spec fn well_formed_header(s: Seq<u8>) -> bool {
    &&& s.len() >= 2
    &&& s[s.len() - 2] == 13 && s[s.len() - 1] == 10
    &&& 1 <= colon_pos(s) < s.len() - 2
    &&& value_start(s) < s.len() - 2
    &&& forall|k: int|
        value_start(s) <= k < s.len() - 2 ==> #[trigger] s[k] != 13 && s[k] != 10
}

/// The name names the body-length header, compared case-insensitively.
pub open spec fn is_content_length_name(n: Seq<u8>) -> bool {
    n.len() == content_length_lit().len() && forall|i: int|
        0 <= i < n.len() ==> ascii_lower(#[trigger] n[i]) == content_length_lit()[i]
}

/// What one header line means to the framer.
#[derive(Debug, PartialEq, Eq, Structural)]
pub enum HeaderLine {
    /// The empty line that closes the header section.
    End,
    /// A well-formed body-length header and the length it declares.
    ContentLength(usize),
    /// Any other well-formed header; read and ignored.
    Other,
    /// A line that is no header at all, or a body-length header whose
    /// value is not a machine-sized decimal number.
    Malformed,
}

/// The meaning of one header line.
pub open spec fn spec_classify(s: Seq<u8>) -> HeaderLine {
    if s == crlf() {
        HeaderLine::End
    } else if !well_formed_header(s) {
        HeaderLine::Malformed
    } else if is_content_length_name(header_name(s)) {
        if all_dec(header_value(s)) && dec_seq_val(header_value(s)) <= usize::MAX {
            HeaderLine::ContentLength(dec_seq_val(header_value(s)) as usize)
        } else {
            HeaderLine::Malformed
        }
    } else {
        HeaderLine::Other
    }
}

/// Find the first occurrence of `b` at or after `from`.
fn find_byte(s: &Vec<u8>, from: usize, b: u8) -> (j: usize)
    requires
        from <= s@.len(),
    ensures
        from <= j <= s@.len(),
        j == find_from(s@, from as int, b),
        j < s@.len() ==> s@[j as int] == b,
    decreases s@.len() - from,
{
    let mut i: usize = from;
    while i < s.len() && s[i] != b
        invariant
            from <= i <= s@.len(),
            find_from(s@, from as int, b) == find_from(s@, i as int, b),
        decreases s@.len() - i,
    {
        i = i + 1;
    }
    i
}

/// Skip the run of spaces starting at `from`.
fn skip_spaces(s: &Vec<u8>, from: usize) -> (j: usize)
    requires
        from <= s@.len(),
    ensures
        from <= j <= s@.len(),
        j == space_end(s@, from as int),
    decreases s@.len() - from,
{
    let mut i: usize = from;
    while i < s.len() && s[i] == 32
        invariant
            from <= i <= s@.len(),
            space_end(s@, from as int) == space_end(s@, i as int),
        decreases s@.len() - i,
    {
        i = i + 1;
    }
    i
}

/// Classify one header line, exactly as `spec_classify` reads it.
pub fn classify_header_line(line: &Vec<u8>) -> (r: HeaderLine)
    ensures
        r == spec_classify(line@),
{
    let n: usize = line.len();
    if n == 2 && line[0] == 13 && line[1] == 10 {
        proof {
            assert(line@ =~= crlf());
        }
        return HeaderLine::End;
    }
    proof {
        assert(line@ != crlf()) by {
            if line@ == crlf() {
                assert(line@[0] == 13 && line@[1] == 10);
            }
        }
    }
    if n < 2 || line[n - 2] != 13 || line[n - 1] != 10 {
        return HeaderLine::Malformed;
    }
    let colon = find_byte(line, 0, 58);
    if colon == 0 || colon >= n {
        return HeaderLine::Malformed;
    }
    let vstart = skip_spaces(line, colon + 1);
    if vstart >= n - 2 {
        return HeaderLine::Malformed;
    }
    if !range_clean(line, vstart, n - 2) {
        return HeaderLine::Malformed;
    }
    if !name_is_content_length(line, colon) {
        return HeaderLine::Other;
    }
    let value = sub_vec(line, vstart, n - 2);
    if !vec_all_dec(&value) {
        return HeaderLine::Malformed;
    }
    match parse_dec_usize(&value) {
        Some(v) => HeaderLine::ContentLength(v),
        None => HeaderLine::Malformed,
    }
}

/// No byte of `s[lo..hi]` is `'\r'` or `'\n'`.
fn range_clean(s: &Vec<u8>, lo: usize, hi: usize) -> (r: bool)
    requires
        lo <= hi <= s@.len(),
    ensures
        r == forall|k: int| lo <= k < hi ==> #[trigger] s@[k] != 13 && s@[k] != 10,
{
    let mut k: usize = lo;
    while k < hi
        invariant
            lo <= k <= hi <= s@.len(),
            forall|j: int| lo <= j < k ==> #[trigger] s@[j] != 13 && s@[j] != 10,
        decreases hi - k,
    {
        if s[k] == 13 || s[k] == 10 {
            return false;
        }
        k = k + 1;
    }
    true
}

/// Does the name `line[0..colon]` match the body-length header name,
/// case-insensitively?
fn name_is_content_length(line: &Vec<u8>, colon: usize) -> (r: bool)
    requires
        colon <= line@.len(),
    ensures
        r == is_content_length_name(line@.subrange(0, colon as int)),
{
    let cl = content_length_token();
    if colon != cl.len() {
        return false;
    }
    let mut i: usize = 0;
    while i < colon
        invariant
            0 <= i <= colon,
            colon <= line@.len(),
            colon == content_length_lit().len(),
            cl@ == content_length_lit(),
            forall|j: int| 0 <= j < i ==> ascii_lower(#[trigger] line@[j]) == content_length_lit()[j],
        decreases colon - i,
    {
        let b = line[i];
        let low: u8 = if 65 <= b && b <= 90 {
            b + 32
        } else {
            b
        };
        if low != cl[i] {
            proof {
                assert(line@.subrange(0, colon as int)[i as int] == line@[i as int]);
            }
            return false;
        }
        i = i + 1;
    }
    true
}

/// Is every byte of `v` a decimal digit?
fn vec_all_dec(v: &Vec<u8>) -> (r: bool)
    ensures
        r == all_dec(v@),
{
    let mut k: usize = 0;
    while k < v.len()
        invariant
            0 <= k <= v@.len(),
            forall|j: int| 0 <= j < k ==> crate::radix::is_dec_digit(#[trigger] v@[j]),
        decreases v@.len() - k,
    {
        let b = v[k];
        if b < 48 || b > 57 {
            return false;
        }
        k = k + 1;
    }
    true
}

/// `"content-length"` as a runtime vector.
fn content_length_token() -> (r: Vec<u8>)
    ensures
        r@ == content_length_lit(),
{
    let r: Vec<u8> = vec![99u8, 111u8, 110u8, 116u8, 101u8, 110u8, 116u8, 45u8, 108u8, 101u8,
        110u8, 103u8, 116u8, 104u8];
    proof {
        assert(r@ =~= content_length_lit());
    }
    r
}

} // verus!
