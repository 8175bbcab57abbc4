//! The prefix search engine.  A run owns a payload buffer, a bit window
//! inside it, a hex-nibble prefix and a counter range; it enumerates the
//! counters in `[start, end)` in increasing order and yields each one
//! whose digest of the whole encoded buffer matches the prefix.

use vstd::prelude::*;
use crate::bignum::{big_bit, big_from_hex, big_inc, big_lt, big_to_hex, big_value};
use crate::digest::{digest_matches, prefix_matches, sha1_digest, sha1_of};
use crate::radix::{all_dec, all_hex, dec_seq_val, hex_repr, hex_seq_val, parse_dec_usize};
use crate::request::RawRequest;

verus! {

/// Bit `j` of `n`, bit 0 the least significant.
pub open spec fn nat_bit(n: nat, j: nat) -> bool {
    n / vstd::arithmetic::power2::pow2(j) % 2 == 1
}

/// The byte written for one window bit: tab for a set bit, space for a
/// clear one.
pub open spec fn window_byte(i: nat, j: nat) -> u8 {
    if nat_bit(i, j) {
        9u8
    } else {
        32u8
    }
}

/// `buf` with the counter `i` encoded into the window: byte `off + j`
/// carries bit `j` of `i` for `j` in `[0, size)`, all else untouched.
pub open spec fn encode_window(buf: Seq<u8>, off: int, size: int, i: nat) -> Seq<u8> {
    Seq::new(
        buf.len(),
        |k: int|
            if off <= k < off + size {
                window_byte(i, (k - off) as nat)
            } else {
                buf[k]
            },
    )
}

/// Counter `i` matches: the digest of the buffer with `i` encoded into
/// the window starts with the prefix nibbles `p`.
pub open spec fn counter_matches(buf: Seq<u8>, off: int, size: int, p: Seq<u8>, i: nat) -> bool {
    prefix_matches(p, sha1_of(encode_window(buf, off, size, i)))
}

/// An empty range holds no matching counter: with `start == end` a run
/// yields nothing, so nothing but the bounded no-match response is owed.
pub proof fn lemma_empty_range(buf: Seq<u8>, off: int, size: int, p: Seq<u8>, s: nat, e: nat)
    requires
        s == e,
    ensures
        forall|k: nat| s <= k < e ==> !counter_matches(buf, off, size, p, k),
{
}

/// The digest of one attempt is a pure function of the full buffer: the
/// same counter encoded into the same buffer hashes the same, however
/// the two buffer values were produced.
pub proof fn lemma_same_counter_same_digest(
    b1: Seq<u8>,
    b2: Seq<u8>,
    off: int,
    size: int,
    p: Seq<u8>,
    i: nat,
)
    requires
        b1 =~= b2,
    ensures
        sha1_of(encode_window(b1, off, size, i)) == sha1_of(encode_window(b2, off, size, i)),
        counter_matches(b1, off, size, p, i) == counter_matches(b2, off, size, p, i),
{
    assert(encode_window(b1, off, size, i) =~= encode_window(b2, off, size, i));
}

/// Round trip: a counter that matches does so by the prefix rule on the
/// digest of the buffer with exactly its bits re-encoded into the window.
pub proof fn lemma_round_trip(buf: Seq<u8>, off: int, size: int, p: Seq<u8>, i: nat)
    requires
        counter_matches(buf, off, size, p, i),
    ensures
        prefix_matches(p, sha1_of(encode_window(buf, off, size, i))),
{
}

/// A parsed and validated operation descriptor: the prefix as hex
/// nibbles, the window, and the counter range.
pub struct Descriptor {
    pub prefix: Vec<u8>,
    pub size: usize,
    pub offset: usize,
    pub start: num_bigint::BigUint,
    pub end: num_bigint::BigUint,
}

/// Validate the raw parameter strings of a start line into a descriptor.
/// Rejected are exactly: a prefix of more than 40 nibbles (longer than
/// the digest), and a size, offset or window end beyond machine range.
pub fn build_descriptor(raw: RawRequest) -> (r: Option<Descriptor>)
    requires
        all_hex(raw.prefix@),
        raw.size@.len() > 0 && all_dec(raw.size@),
        raw.offset@.len() > 0 && all_dec(raw.offset@),
        raw.start@.len() > 0 && all_hex(raw.start@),
        raw.end@.len() > 0 && all_hex(raw.end@),
    ensures
        match r {
            Some(d) => {
                &&& d.prefix@ == raw.prefix@
                &&& d.prefix@.len() <= 40
                &&& d.size == dec_seq_val(raw.size@)
                &&& d.offset == dec_seq_val(raw.offset@)
                &&& d.offset + d.size <= usize::MAX
                &&& big_value(d.start) == hex_seq_val(raw.start@)
                &&& big_value(d.end) == hex_seq_val(raw.end@)
            },
            None => {
                ||| raw.prefix@.len() > 40
                ||| dec_seq_val(raw.size@) > usize::MAX
                ||| dec_seq_val(raw.offset@) > usize::MAX
                ||| dec_seq_val(raw.offset@) + dec_seq_val(raw.size@) > usize::MAX
            },
        },
{
    if raw.prefix.len() > 40 {
        return None;
    }
    let size = match parse_dec_usize(&raw.size) {
        Some(v) => v,
        None => {
            return None;
        },
    };
    let offset = match parse_dec_usize(&raw.offset) {
        Some(v) => v,
        None => {
            return None;
        },
    };
    if usize::MAX - offset < size {
        return None;
    }
    let start = big_from_hex(&raw.start);
    let end = big_from_hex(&raw.end);
    Some(Descriptor { prefix: raw.prefix, size, offset, start, end })
}

/// The payload buffer: the declared body, extended with zero bytes
/// wherever the window reaches past it.
#[verifier::loop_isolation(false)]
pub fn build_buffer(body: Vec<u8>, offset: usize, size: usize) -> (r: Vec<u8>)
    requires
        offset + size <= usize::MAX,
    ensures
        r@.len() == if body@.len() >= offset + size {
            body@.len() as int
        } else {
            offset + size
        },
        forall|k: int| 0 <= k < body@.len() ==> r@[k] == body@[k],
        forall|k: int| body@.len() <= k < r@.len() ==> r@[k] == 0,
{
    let ghost b0 = body@;
    let mut r = body;
    let goal: usize = offset + size;
    while r.len() < goal
        invariant
            r@.len() >= b0.len(),
            r@.len() <= if b0.len() >= goal {
                b0.len() as int
            } else {
                goal as int
            },
            forall|k: int| 0 <= k < b0.len() ==> r@[k] == b0[k],
            forall|k: int| b0.len() <= k < r@.len() ==> r@[k] == 0,
        decreases goal - r@.len(),
    {
        r.push(0);
    }
    r
}

/// One search run.  `base` remembers the buffer as it was built; the live
/// buffer differs from it only inside the window, which every attempt
/// overwrites whole.
pub struct Search {
    body: Vec<u8>,
    offset: usize,
    size: usize,
    prefix: Vec<u8>,
    cur: num_bigint::BigUint,
    end: num_bigint::BigUint,
    base: Ghost<Seq<u8>>,
}

impl Search {
    /// The buffer the run was built over.
    pub closed spec fn base(self) -> Seq<u8> {
        self.base@
    }

    /// The window's first byte.
    pub closed spec fn off(self) -> int {
        self.offset as int
    }

    /// The window's width in bytes (= bits of the counter).
    pub closed spec fn sz(self) -> int {
        self.size as int
    }

    /// The prefix as hex nibbles.
    pub closed spec fn pfx(self) -> Seq<u8> {
        self.prefix@
    }

    /// The next counter to try.
    pub closed spec fn cur_val(self) -> nat {
        big_value(self.cur)
    }

    /// The exclusive upper end of the range.
    pub closed spec fn end_val(self) -> nat {
        big_value(self.end)
    }

    /// The run's invariant: the window lies inside the buffer, the prefix
    /// is at most the digest's 40 nibbles, and the live buffer agrees
    /// with `base` outside the window.
    pub closed spec fn wf(self) -> bool {
        &&& all_hex(self.prefix@)
        &&& self.prefix@.len() <= 40
        &&& self.offset + self.size <= self.body@.len()
        &&& self.body@.len() == self.base@.len()
        &&& forall|k: int|
            0 <= k < self.body@.len() && !(self.off() <= k < self.off() + self.sz())
                ==> self.body@[k] == #[trigger] self.base@[k]
    }

    /// Start a run of `d` over `body`.
    pub fn new(d: Descriptor, body: Vec<u8>) -> (s: Search)
        requires
            all_hex(d.prefix@),
            d.prefix@.len() <= 40,
            d.offset + d.size <= body@.len(),
        ensures
            s.wf(),
            s.base() == body@,
            s.off() == d.offset,
            s.sz() == d.size,
            s.pfx() == d.prefix@,
            s.cur_val() == big_value(d.start),
            s.end_val() == big_value(d.end),
    {
        let ghost base = body@;
        Search {
            body,
            offset: d.offset,
            size: d.size,
            prefix: d.prefix,
            cur: d.start,
            end: d.end,
            base: Ghost(base),
        }
    }

    /// Encode the counter into the window: byte `offset + j` becomes tab
    /// or space after bit `j` of `cur`.
    #[verifier::loop_isolation(false)]
    fn fill_window(&mut self)
        requires
            old(self).wf(),
        ensures
            final(self).wf(),
            final(self).body@ =~= encode_window(
                old(self).base(),
                old(self).off(),
                old(self).sz(),
                old(self).cur_val(),
            ),
            final(self).base() == old(self).base(),
            final(self).off() == old(self).off(),
            final(self).sz() == old(self).sz(),
            final(self).pfx() == old(self).pfx(),
            final(self).cur_val() == old(self).cur_val(),
            final(self).end_val() == old(self).end_val(),
    {
        let ghost s0 = *self;
        // reading the length once puts the buffer's machine-size bound in
        // scope for the index arithmetic below
        let _buf_len: usize = self.body.len();
        let mut j: usize = 0;
        while j < self.size
            invariant
                s0.wf(),
                0 <= j <= self.size,
                self.offset == s0.offset,
                self.size == s0.size,
                self.prefix == s0.prefix,
                self.base == s0.base,
                self.cur == s0.cur,
                self.end == s0.end,
                self.body@.len() == s0.body@.len(),
                self.offset + self.size <= self.body@.len(),
                forall|k: int|
                    0 <= k < self.body@.len() && !(self.off() <= k < self.off() + j)
                        ==> self.body@[k] == #[trigger] s0.body@[k],
                forall|k: int|
                    self.off() <= k < self.off() + j ==> #[trigger] self.body@[k] == window_byte(
                        big_value(self.cur),
                        (k - self.off()) as nat,
                    ),
            decreases self.size - j,
        {
            let bit = big_bit(&self.cur, j as u64);
            let b: u8 = if bit {
                9
            } else {
                32
            };
            self.body.set(self.offset + j, b);
            proof {
                assert(b == window_byte(big_value(self.cur), j as nat));
            }
            j = j + 1;
        }
        proof {
            assert(self.body@ =~= encode_window(s0.base(), s0.off(), s0.sz(), s0.cur_val()));
        }
    }

    /// Advance to the next matching counter at or after `cur` and yield
    /// its lowercase hex digits, leaving `cur` just past it; or exhaust
    /// the range and yield nothing.  Matches come in strictly increasing
    /// counter order and none is skipped.
    #[verifier::loop_isolation(false)]
    pub fn next_match(&mut self) -> (r: Option<Vec<u8>>)
        requires
            old(self).wf(),
        ensures
            final(self).wf(),
            final(self).base() == old(self).base(),
            final(self).off() == old(self).off(),
            final(self).sz() == old(self).sz(),
            final(self).pfx() == old(self).pfx(),
            final(self).end_val() == old(self).end_val(),
            match r {
                Some(h) => {
                    &&& old(self).cur_val() < final(self).cur_val() <= old(self).end_val()
                    &&& counter_matches(
                        old(self).base(),
                        old(self).off(),
                        old(self).sz(),
                        old(self).pfx(),
                        (final(self).cur_val() - 1) as nat,
                    )
                    &&& forall|k: nat|
                        old(self).cur_val() <= k < final(self).cur_val() - 1
                            ==> !counter_matches(
                            old(self).base(),
                            old(self).off(),
                            old(self).sz(),
                            old(self).pfx(),
                            k,
                        )
                    &&& h@ == hex_repr((final(self).cur_val() - 1) as nat)
                },
                None => {
                    &&& forall|k: nat|
                        old(self).cur_val() <= k < old(self).end_val() ==> !counter_matches(
                            old(self).base(),
                            old(self).off(),
                            old(self).sz(),
                            old(self).pfx(),
                            k,
                        )
                    &&& final(self).cur_val() == if old(self).cur_val() >= old(self).end_val() {
                        old(self).cur_val()
                    } else {
                        old(self).end_val()
                    }
                },
            },
    {
        let ghost s0 = *self;
        while big_lt(&self.cur, &self.end)
            invariant
                self.wf(),
                self.base() == s0.base(),
                self.off() == s0.off(),
                self.sz() == s0.sz(),
                self.pfx() == s0.pfx(),
                self.end_val() == s0.end_val(),
                s0.cur_val() <= self.cur_val(),
                self.cur_val() <= self.end_val() || self.cur_val() == s0.cur_val(),
                forall|k: nat|
                    s0.cur_val() <= k < self.cur_val() ==> !counter_matches(
                        s0.base(),
                        s0.off(),
                        s0.sz(),
                        s0.pfx(),
                        k,
                    ),
            decreases self.end_val() - self.cur_val(),
        {
            self.fill_window();
            let digest = sha1_digest(&self.body);
            let found = digest_matches(&self.prefix, &digest);
            if found {
                let h = big_to_hex(&self.cur);
                big_inc(&mut self.cur);
                return Some(h);
            }
            big_inc(&mut self.cur);
        }
        None
    }
}

} // verus!
