//! The prefix rule: a digest matches a hex-nibble prefix when its leading
//! nibbles, read high nibble first within each byte, are exactly the
//! prefix's digits.  A prefix of odd length therefore constrains only the
//! high nibble of its final digest byte.

use vstd::prelude::*;
use sha1::Digest;
use crate::radix::{all_hex, is_hex_digit, nibble_val};

verus! {

/// The 160-bit digest of a byte sequence; a pure function of the bytes.
pub uninterp spec fn sha1_of(data: Seq<u8>) -> Seq<u8>;

/// Relies on sha1::Sha1 through the Digest trait (`new`, `update`,
/// `finalize`): the digest is 20 bytes and depends on the input bytes
/// alone.
#[verifier::external_body]
pub(crate) fn sha1_digest(data: &Vec<u8>) -> (r: Vec<u8>)
    ensures
        r@ == sha1_of(data@),
        r@.len() == 20,
{
    let mut h = sha1::Sha1::new();
    h.update(data.as_slice());
    h.finalize().to_vec()
}

/// Nibble `j` of a digest: the high half of byte `j / 2` for even `j`,
/// the low half for odd `j`.
pub open spec fn digest_nibble(d: Seq<u8>, j: int) -> nat
    recommends
        0 <= j < 2 * d.len(),
{
    if j % 2 == 0 {
        (d[j / 2] >> 4u8) as nat
    } else {
        (d[j / 2] & 0x0fu8) as nat
    }
}

/// The digest `d` starts with the nibbles that the hex digits `p` spell.
pub open spec fn prefix_matches(p: Seq<u8>, d: Seq<u8>) -> bool {
    &&& p.len() <= 2 * d.len()
    &&& forall|j: int| 0 <= j < p.len() ==> digest_nibble(d, j) == nibble_val(#[trigger] p[j])
}

/// Numeric value of one lowercase hex digit byte.
pub fn nibble_of(b: u8) -> (r: u8)
    requires
        is_hex_digit(b),
    ensures
        r as nat == nibble_val(b),
{
    if b <= 57 {
        b - 48
    } else {
        b - 87
    }
}

/// Decide the prefix rule for a whole digest.
pub fn digest_matches(prefix: &Vec<u8>, digest: &Vec<u8>) -> (r: bool)
    requires
        all_hex(prefix@),
        prefix@.len() <= 2 * digest@.len(),
    ensures
        r == prefix_matches(prefix@, digest@),
{
    let mut j: usize = 0;
    while j < prefix.len()
        invariant
            0 <= j <= prefix@.len(),
            all_hex(prefix@),
            prefix@.len() <= 2 * digest@.len(),
            forall|k: int|
                0 <= k < j ==> digest_nibble(digest@, k) == nibble_val(#[trigger] prefix@[k]),
        decreases prefix@.len() - j,
    {
        let byte = digest[j / 2];
        let nib: u8 = if j % 2 == 0 {
            byte >> 4u8
        } else {
            byte & 0x0fu8
        };
        if nib != nibble_of(prefix[j]) {
            return false;
        }
        j = j + 1;
    }
    true
}

/// A prefix of odd length ignores the low nibble of its final comparison
/// byte: two digests that differ at most there match it alike.
pub proof fn lemma_odd_prefix_ignores_low_nibble(p: Seq<u8>, d1: Seq<u8>, d2: Seq<u8>)
    requires
        p.len() % 2 == 1,
        d1.len() == d2.len(),
        p.len() <= 2 * d1.len(),
        forall|k: int| 0 <= k < d1.len() && k != (p.len() - 1) / 2 ==> d1[k] == #[trigger] d2[k],
        d1[(p.len() - 1) / 2] >> 4u8 == d2[(p.len() - 1) / 2] >> 4u8,
    ensures
        prefix_matches(p, d1) == prefix_matches(p, d2),
{
    assert forall|j: int| 0 <= j < p.len() implies digest_nibble(d1, j) == digest_nibble(
        d2,
        j,
    ) by {
        if j / 2 == (p.len() - 1) / 2 {
            assert(j % 2 == 0);
        }
    }
}

/// A prefix of even length constrains the full final comparison byte: a
/// digest whose corresponding low nibble deviates does not match.
pub proof fn lemma_even_prefix_checks_low_nibble(p: Seq<u8>, d: Seq<u8>)
    requires
        p.len() % 2 == 0,
        p.len() > 0,
        p.len() <= 2 * d.len(),
        digest_nibble(d, p.len() - 1) != nibble_val(p[p.len() - 1]),
    ensures
        !prefix_matches(p, d),
{
}

} // verus!
