//! Digit classes and the numeric value / textual rendering of hex and
//! decimal digit strings, as they appear in the request grammar and in
//! the chunked response framing.

use vstd::prelude::*;

verus! {

/// A decimal digit in ASCII.
pub open spec fn is_dec_digit(b: u8) -> bool {
    48 <= b <= 57
}

/// A hexadecimal digit in its lowercase ASCII form.
pub open spec fn is_hex_digit(b: u8) -> bool {
    is_dec_digit(b) || (97 <= b <= 102)
}

/// Numeric value of one lowercase hex digit byte.
pub open spec fn nibble_val(b: u8) -> nat
    recommends
        is_hex_digit(b),
{
    if b <= 57 {
        (b - 48) as nat
    } else {
        (b - 87) as nat
    }
}

/// Numeric value of one decimal digit byte.
pub open spec fn dec_digit_val(b: u8) -> nat
    recommends
        is_dec_digit(b),
{
    (b - 48) as nat
}

/// Every byte of `s` is a lowercase hex digit.
pub open spec fn all_hex(s: Seq<u8>) -> bool {
    forall|i: int| 0 <= i < s.len() ==> is_hex_digit(#[trigger] s[i])
}

/// Every byte of `s` is a decimal digit.
pub open spec fn all_dec(s: Seq<u8>) -> bool {
    forall|i: int| 0 <= i < s.len() ==> is_dec_digit(#[trigger] s[i])
}

/// Value of a big-endian string of lowercase hex digits.
pub open spec fn hex_seq_val(s: Seq<u8>) -> nat
    decreases s.len(),
{
    if s.len() == 0 {
        0
    } else {
        hex_seq_val(s.drop_last()) * 16 + nibble_val(s.last())
    }
}

/// Value of a big-endian string of decimal digits.
pub open spec fn dec_seq_val(s: Seq<u8>) -> nat
    decreases s.len(),
{
    if s.len() == 0 {
        0
    } else {
        dec_seq_val(s.drop_last()) * 10 + dec_digit_val(s.last())
    }
}

/// Lowercase hex digit byte for a value below 16.
pub open spec fn hex_digit_lower(d: nat) -> u8
    recommends
        d < 16,
{
    if d < 10 {
        (48 + d) as u8
    } else {
        (87 + d) as u8
    }
}

/// Uppercase hex digit byte for a value below 16.
pub open spec fn hex_digit_upper(d: nat) -> u8
    recommends
        d < 16,
{
    if d < 10 {
        (48 + d) as u8
    } else {
        (55 + d) as u8
    }
}

/// Digits of `n` in base 16, lowercase, most significant first; empty for 0.
pub open spec fn hex_digits_lower(n: nat) -> Seq<u8>
    decreases n,
{
    if n == 0 {
        Seq::empty()
    } else {
        hex_digits_lower(n / 16).push(hex_digit_lower(n % 16))
    }
}

/// Digits of `n` in base 16, uppercase, most significant first; empty for 0.
pub open spec fn hex_digits_upper(n: nat) -> Seq<u8>
    decreases n,
{
    if n == 0 {
        Seq::empty()
    } else {
        hex_digits_upper(n / 16).push(hex_digit_upper(n % 16))
    }
}

/// Canonical lowercase hex rendering of `n`: no leading zeros, `"0"` for 0.
pub open spec fn hex_repr(n: nat) -> Seq<u8> {
    if n == 0 {
        seq![48u8]
    } else {
        hex_digits_lower(n)
    }
}

/// Canonical uppercase hex rendering of `n`: no leading zeros, `"0"` for 0.
pub open spec fn hex_repr_upper(n: nat) -> Seq<u8> {
    if n == 0 {
        seq![48u8]
    } else {
        hex_digits_upper(n)
    }
}

/// Digits of `n` in base 10, most significant first; empty for 0.
pub open spec fn dec_digits(n: nat) -> Seq<u8>
    decreases n,
{
    if n == 0 {
        Seq::empty()
    } else {
        dec_digits(n / 10).push((48 + n % 10) as u8)
    }
}

/// Canonical decimal rendering of `n`: no leading zeros, `"0"` for 0.
pub open spec fn dec_repr(n: nat) -> Seq<u8> {
    if n == 0 {
        seq![48u8]
    } else {
        dec_digits(n)
    }
}

/// Executable test for a lowercase hex digit.
pub fn hex_digit(b: u8) -> (r: bool)
    ensures
        r == is_hex_digit(b),
{
    (48 <= b && b <= 57) || (97 <= b && b <= 102)
}

/// Executable test for a decimal digit.
pub fn dec_digit(b: u8) -> (r: bool)
    ensures
        r == is_dec_digit(b),
{
    48 <= b && b <= 57
}

/// A prefix of a digit string never has a larger value than the whole.
proof fn lemma_dec_val_take_le(s: Seq<u8>, j: int)
    requires
        0 <= j <= s.len(),
    ensures
        dec_seq_val(s.take(j)) <= dec_seq_val(s),
    decreases s.len(),
{
    if j < s.len() {
        assert(s.drop_last().take(j) =~= s.take(j));
        lemma_dec_val_take_le(s.drop_last(), j);
        assert(dec_seq_val(s) == dec_seq_val(s.drop_last()) * 10 + dec_digit_val(s.last()));
    } else {
        assert(s.take(j) =~= s);
    }
}

/// Parse a nonempty decimal digit string into a `usize`, detecting overflow.
pub fn parse_dec_usize(s: &Vec<u8>) -> (r: Option<usize>)
    requires
        s@.len() > 0,
        all_dec(s@),
    ensures
        match r {
            Some(v) => v == dec_seq_val(s@),
            None => dec_seq_val(s@) > usize::MAX,
        },
{
    let mut acc: usize = 0;
    let mut i: usize = 0;
    while i < s.len()
        invariant
            0 <= i <= s@.len(),
            all_dec(s@),
            acc == dec_seq_val(s@.take(i as int)),
        decreases s@.len() - i,
    {
        let d: u8 = s[i] - 48;
        proof {
            assert(s@.take(i + 1).drop_last() =~= s@.take(i as int));
            assert(s@.take(i + 1).last() == s@[i as int]);
        }
        match acc.checked_mul(10) {
            Some(t) => {
                match t.checked_add(d as usize) {
                    Some(n) => {
                        acc = n;
                    },
                    None => {
                        proof {
                            lemma_dec_val_take_le(s@, i + 1);
                        }
                        return None;
                    },
                }
            },
            None => {
                proof {
                    lemma_dec_val_take_le(s@, i + 1);
                }
                return None;
            },
        }
        i = i + 1;
    }
    proof {
        assert(s@.take(s@.len() as int) =~= s@);
    }
    Some(acc)
}

/// Reverse of a byte vector.
fn reversed(v: &Vec<u8>) -> (r: Vec<u8>)
    ensures
        r@ =~= v@.reverse(),
{
    let mut r: Vec<u8> = Vec::new();
    let mut i: usize = v.len();
    while i > 0
        invariant
            0 <= i <= v@.len(),
            r@.len() == v@.len() - i,
            forall|k: int| 0 <= k < r@.len() ==> r@[k] == v@[v@.len() - 1 - k],
        decreases i,
    {
        i = i - 1;
        r.push(v[i]);
    }
    r
}

/// Shared core of the hex/decimal renderers: digits of `n` in `base`,
/// least significant first, using lowercase (`upper == false`) or
/// uppercase (`upper == true`) hex digit bytes.
fn digits_lsb_first(n: usize, base: usize, upper: bool) -> (r: Vec<u8>)
    requires
        base == 10 || base == 16,
    ensures
        base == 16 && !upper ==> r@ =~= hex_digits_lower(n as nat),
        base == 16 && upper ==> r@ =~= hex_digits_upper(n as nat),
        base == 10 ==> r@ =~= dec_digits(n as nat),
{
    let mut acc: Vec<u8> = Vec::new();
    let mut m: usize = n;
    while m > 0
        invariant
            base == 10 || base == 16,
            base == 16 && !upper ==> hex_digits_lower(n as nat) =~= hex_digits_lower(
                m as nat,
            ) + acc@.reverse(),
            base == 16 && upper ==> hex_digits_upper(n as nat) =~= hex_digits_upper(
                m as nat,
            ) + acc@.reverse(),
            base == 10 ==> dec_digits(n as nat) =~= dec_digits(m as nat) + acc@.reverse(),
        decreases m,
    {
        let d: usize = m % base;
        let b: u8 = if base == 10 || d < 10 {
            (48 + d) as u8
        } else if upper {
            (55 + d) as u8
        } else {
            (87 + d) as u8
        };
        let ghost acc0 = acc@;
        acc.push(b);
        proof {
            assert(acc@.reverse() =~= seq![b] + acc0.reverse());
        }
        m = m / base;
    }
    proof {
        assert(Seq::<u8>::empty() + acc@.reverse() =~= acc@.reverse());
    }
    reversed(&acc)
}

/// Render `n` in lowercase hexadecimal.
pub fn render_hex_lower(n: usize) -> (r: Vec<u8>)
    ensures
        r@ =~= hex_repr(n as nat),
{
    if n == 0 {
        let mut r: Vec<u8> = Vec::new();
        r.push(48);
        r
    } else {
        digits_lsb_first(n, 16, false)
    }
}

/// Render `n` in uppercase hexadecimal, as chunk lengths are framed.
pub fn render_hex_upper(n: usize) -> (r: Vec<u8>)
    ensures
        r@ =~= hex_repr_upper(n as nat),
{
    if n == 0 {
        let mut r: Vec<u8> = Vec::new();
        r.push(48);
        r
    } else {
        digits_lsb_first(n, 16, true)
    }
}

/// Render `n` in decimal, as match counts are logged.
pub fn render_dec(n: usize) -> (r: Vec<u8>)
    ensures
        r@ =~= dec_repr(n as nat),
{
    if n == 0 {
        let mut r: Vec<u8> = Vec::new();
        r.push(48);
        r
    } else {
        digits_lsb_first(n, 10, false)
    }
}

} // verus!
