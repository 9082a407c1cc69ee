//! Laws that relate the operations to one another.

use vstd::prelude::*;
use crate::codec::{
    hex_bytes_of,
    hex_digit_char,
    hex_digits,
    hex_of,
    hex_val_of,
    is_hex_digit_char,
    is_hex_string,
};
use crate::tools::CalculateHash;
use crate::state::ServerState;
use crate::wrappers::sha256_of;

verus! {

/// Hashing is deterministic: equal byte ranges always give equal
/// digests, and therefore equal hex reports.
pub proof fn lemma_hash_deterministic(a: Seq<u8>, b: Seq<u8>)
    requires
        a == b,
    ensures
        sha256_of(a) == sha256_of(b),
        hex_of(sha256_of(a)) == hex_of(sha256_of(b)),
{
}

/// Hashing with no arguments reports the digest of the whole buffer:
/// the same digest as an explicit range from zero over the full length.
pub proof fn lemma_hash_default_is_full_range(
    s: ServerState,
    whole: CalculateHash,
    explicit: CalculateHash,
)
    requires
        whole.offset is None,
        whole.length is None,
        explicit.offset == Some(0usize),
        explicit.length matches Some(l) && l == s.buffer@.len(),
    ensures
        whole.in_bounds(s.buffer@.len() as int),
        explicit.in_bounds(s.buffer@.len() as int),
        whole.digest_of(s.buffer@) == explicit.digest_of(s.buffer@),
{
    assert(s.buffer@.subrange(0, s.buffer@.len() as int) =~= s.buffer@);
}

/// Each hex digit character holds the value it was made from.
proof fn lemma_hex_digit_val(n: u8)
    requires
        n < 16,
    ensures
        is_hex_digit_char(hex_digit_char(n)),
        hex_val_of(hex_digit_char(n)) == n,
{
}

/// Hex encoding and decoding are inverses: the encoding of any byte
/// sequence is a well-formed hex string, and decoding it gives the
/// bytes back.
pub proof fn lemma_hex_round_trip(s: Seq<u8>)
    ensures
        is_hex_string(hex_of(s)),
        hex_bytes_of(hex_of(s)) == s,
{
    let h = hex_of(s);
    assert forall|i: int| 0 <= i < h.len() implies is_hex_digit_char(#[trigger] h[i]) by {
        if i % 2 == 0 {
            lemma_hex_digit_val((s[i / 2] / 16) as u8);
        } else {
            lemma_hex_digit_val((s[i / 2] % 16) as u8);
        }
    }
    assert forall|i: int| 0 <= i < s.len() implies hex_bytes_of(h)[i] == s[i] by {
        lemma_hex_digit_val((s[i] / 16) as u8);
        lemma_hex_digit_val((s[i] % 16) as u8);
        assert(h[2 * i] == hex_digit_char((s[i] / 16) as u8));
        assert(h[2 * i + 1] == hex_digit_char((s[i] % 16) as u8));
    }
    assert(hex_bytes_of(h) =~= s);
}


} // verus!
