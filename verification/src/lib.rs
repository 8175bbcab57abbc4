//! A verified search engine for vanity hash prefixes: a payload carries a
//! window of whitespace bytes that encode a counter bit by bit, and the
//! engine enumerates the counter values whose digest of the whole payload
//! starts with a requested hex-nibble prefix.  The surrounding request
//! grammar, response framing and log lines are verified here as well.

pub mod bignum;
pub mod digest;
pub mod engine;
pub mod header;
pub mod radix;
pub mod request;
pub mod response;
