//! Thin trusted wrappers around outside functions the library relies on.

use sha2::Digest;
use vstd::prelude::*;

verus! {

/// The SHA-256 digest of a byte sequence, as the sha2 crate computes it.
/// The digest depends on the input bytes alone.
pub uninterp spec fn sha256_of(data: Seq<u8>) -> Seq<u8>;

/// What `String::from_utf8_lossy` returns for a byte sequence: the bytes
/// decoded as UTF-8 with every invalid sequence replaced.  The result
/// depends on the bytes alone.
pub uninterp spec fn lossy_utf8_of(bytes: Seq<u8>) -> Seq<char>;

/// Relies on `String::push`: appends the given character to the string.
#[verifier::external_body]
pub fn push_char(s: &mut String, c: char)
    ensures
        final(s)@ == old(s)@.push(c),
{
    s.push(c)
}

/// Relies on `sha2::Sha256` (through the `Digest` trait): hashing is a
/// pure function of the input bytes, and a SHA-256 digest is 32 bytes.
#[verifier::external_body]
pub fn sha256(data: &[u8]) -> (r: Vec<u8>)
    ensures
        r@ == sha256_of(data@),
        r@.len() == 32,
{
    sha2::Sha256::digest(data).to_vec()
}

/// Relies on `String::from_utf8_lossy`: decodes the bytes as UTF-8,
/// replacing invalid sequences; bytes that are plain ASCII come through
/// unchanged, one character per byte.
#[verifier::external_body]
pub fn utf8_lossy(bytes: &[u8]) -> (r: String)
    ensures
        r@ == lossy_utf8_of(bytes@),
        (forall|i: int| 0 <= i < bytes@.len() ==> bytes@[i] < 0x80) ==> r@ == Seq::new(
            bytes@.len(),
            |i: int| bytes@[i] as char,
        ),
{
    String::from_utf8_lossy(bytes).into_owned()
}

} // verus!
