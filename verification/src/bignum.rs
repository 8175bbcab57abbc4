//! The arbitrary-precision counter.  Counters may vastly exceed machine
//! words, so they live in `num_bigint::BigUint`; this module declares that
//! type and the four operations the search loop needs, each stated over
//! the mathematical value `big_value` of the counter.

use vstd::prelude::*;
use crate::radix::{all_hex, hex_repr, hex_seq_val};

verus! {

#[verifier::external_type_specification]
#[verifier::external_body]
pub struct ExBigUint(num_bigint::BigUint);

/// The non-negative integer a `BigUint` holds.
pub uninterp spec fn big_value(b: num_bigint::BigUint) -> nat;

/// Relies on num_bigint::BigUint::parse_bytes with radix 16: on a nonempty
/// string of lowercase hex digits it returns the number those digits
/// spell, big-endian.
#[verifier::external_body]
pub(crate) fn big_from_hex(s: &Vec<u8>) -> (r: num_bigint::BigUint)
    requires
        s@.len() > 0,
        all_hex(s@),
    ensures
        big_value(r) == hex_seq_val(s@),
{
    num_bigint::BigUint::parse_bytes(s.as_slice(), 16).unwrap()
}

/// Relies on the `Ord` order of num_bigint::BigUint, which is the numeric
/// order.
#[verifier::external_body]
pub(crate) fn big_lt(a: &num_bigint::BigUint, b: &num_bigint::BigUint) -> (r: bool)
    ensures
        r == (big_value(*a) < big_value(*b)),
{
    a < b
}

/// Relies on num_bigint::BigUint::bit: whether bit `j` of the value is
/// set, bit 0 the least significant.
#[verifier::external_body]
pub(crate) fn big_bit(i: &num_bigint::BigUint, j: u64) -> (r: bool)
    ensures
        r == (big_value(*i) / vstd::arithmetic::power2::pow2(j as nat) % 2 == 1),
{
    i.bit(j)
}

/// Relies on the `AddAssign<u8>` addition of num_bigint::BigUint.
#[verifier::external_body]
pub(crate) fn big_inc(i: &mut num_bigint::BigUint)
    ensures
        big_value(*final(i)) == big_value(*old(i)) + 1,
{
    *i += 1u8;
}

/// Relies on num_bigint::BigUint::to_str_radix with radix 16: the value in
/// lowercase hex, no leading zeros, `"0"` for zero.
#[verifier::external_body]
pub(crate) fn big_to_hex(i: &num_bigint::BigUint) -> (r: Vec<u8>)
    ensures
        r@ == hex_repr(big_value(*i)),
{
    i.to_str_radix(16).into_bytes()
}

} // verus!
