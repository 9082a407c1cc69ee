//! Byte-level codecs: hex encoding and decoding, printable-ASCII
//! rendering, unsigned integer decoding, and null truncation.

use vstd::prelude::*;
use vstd::string::StringSliceAdditionalSpecFns;
use crate::wrappers::push_char;

verus! {

broadcast use vstd::string::is_ascii_spec_bytes, vstd::utf8::is_ascii_chars_nat_bound;

// ---------------------------------------------------------------------
// Hex encoding
// ---------------------------------------------------------------------
/// The sixteen lower-case hex digit characters, in value order.
pub open spec fn hex_digits() -> Seq<char> {
    seq!['0', '1', '2', '3', '4', '5', '6', '7', '8', '9', 'a', 'b', 'c', 'd', 'e', 'f']
}

/// The hex digit character for a value below sixteen.
pub open spec fn hex_digit_char(n: u8) -> char
    recommends
        n < 16,
{
    hex_digits()[n as int]
}

/// The lower-case hex encoding of a byte sequence: two digits per byte,
/// high nibble first.
pub open spec fn hex_of(s: Seq<u8>) -> Seq<char> {
    Seq::new(
        2 * s.len(),
        |i: int|
            if i % 2 == 0 {
                hex_digit_char((s[i / 2] / 16) as u8)
            } else {
                hex_digit_char((s[i / 2] % 16) as u8)
            },
    )
}

fn hex_digit(n: u8) -> (c: char)
    requires
        n < 16,
    ensures
        c == hex_digit_char(n),
{
    match n {
        0 => '0',
        1 => '1',
        2 => '2',
        3 => '3',
        4 => '4',
        5 => '5',
        6 => '6',
        7 => '7',
        8 => '8',
        9 => '9',
        10 => 'a',
        11 => 'b',
        12 => 'c',
        13 => 'd',
        14 => 'e',
        _ => 'f',
    }
}

/// Encode a byte slice as a lower-case hex string.
pub fn hex_encode(bytes: &[u8]) -> (r: String)
    ensures
        r@ == hex_of(bytes@),
{
    let mut r = String::new();
    let mut i: usize = 0;
    while i < bytes.len()
        invariant
            i <= bytes@.len(),
            r@ == hex_of(bytes@.take(i as int)),
        decreases bytes@.len() - i,
    {
        let b = bytes[i];
        push_char(&mut r, hex_digit(b / 16));
        push_char(&mut r, hex_digit(b % 16));
        proof {
            assert(r@ =~= hex_of(bytes@.take(i as int + 1)));
        }
        i += 1;
    }
    proof {
        assert(bytes@.take(bytes@.len() as int) =~= bytes@);
    }
    r
}

// ---------------------------------------------------------------------
// Hex decoding
// ---------------------------------------------------------------------
/// Whether a character is a hex digit, upper or lower case.
pub open spec fn is_hex_digit_char(c: char) -> bool {
    let u = c as u32;
    (48 <= u && u <= 57) || (97 <= u && u <= 102) || (65 <= u && u <= 70)
}

/// The value of a hex digit character.
pub open spec fn hex_val_of(c: char) -> u8
    recommends
        is_hex_digit_char(c),
{
    let u = c as u32;
    if 48 <= u && u <= 57 {
        (u - 48) as u8
    } else if 97 <= u && u <= 102 {
        (u - 87) as u8
    } else {
        (u - 55) as u8
    }
}

/// The bytes a well-formed hex string denotes: one byte per digit pair.
pub open spec fn hex_bytes_of(s: Seq<char>) -> Seq<u8> {
    Seq::new(s.len() / 2, |i: int| (16 * hex_val_of(s[2 * i]) + hex_val_of(s[2 * i + 1])) as u8)
}

/// Whether a character sequence is a well-formed hex string: an even
/// number of characters, all of them hex digits.
pub open spec fn is_hex_string(s: Seq<char>) -> bool {
    s.len() % 2 == 0 && (forall|i: int| 0 <= i < s.len() ==> is_hex_digit_char(#[trigger] s[i]))
}

fn hex_val(b: u8) -> (r: Option<u8>)
    ensures
        match r {
            Some(v) => (48 <= b && b <= 57 && v == b - 48) || (97 <= b && b <= 102 && v == b - 87)
                || (65 <= b && b <= 70 && v == b - 55),
            None => !((48 <= b && b <= 57) || (97 <= b && b <= 102) || (65 <= b && b <= 70)),
        },
{
    if 48 <= b && b <= 57 {
        Some(b - 48)
    } else if 97 <= b && b <= 102 {
        Some(b - 87)
    } else if 65 <= b && b <= 70 {
        Some(b - 55)
    } else {
        None
    }
}


/// A character whose code point is at most 0x7f lies in the ASCII range.
proof fn lemma_ascii_char_range(c: char)
    requires
        c as u32 <= 0x7f,
    ensures
        '\0' <= c <= '\u{7f}',
{
}

/// Decode a hex string into bytes; `None` if the string has an odd
/// number of characters or any character that is not a hex digit.
pub fn hex_decode(s: &str) -> (r: Option<Vec<u8>>)
    ensures
        match r {
            Some(v) => is_hex_string(s@) && v@ == hex_bytes_of(s@),
            None => !is_hex_string(s@),
        },
{
    if !s.is_ascii() {
        // Hex digits are ASCII, so a non-ASCII string is not a hex string.
        proof {
            if is_hex_string(s@) {
                assert forall|i: int| 0 <= i < s@.len() implies '\0' <= #[trigger] s@[i]
                    <= '\u{7f}' by {
                    assert(is_hex_digit_char(s@[i]));
                    lemma_ascii_char_range(s@[i]);
                }
                assert(vstd::utf8::is_ascii_chars(s@));
            }
        }
        return None;
    }
    let bytes = s.as_bytes();
    let n = bytes.len();
    if n % 2 != 0 {
        return None;
    }
    let mut out: Vec<u8> = Vec::new();
    let mut j: usize = 0;
    while j < n / 2
        invariant
            vstd::string::is_ascii(s),
            bytes@ == s.spec_bytes(),
            bytes@ =~= Seq::new(s@.len(), |i: int| s@.index(i) as u8),
            n == bytes@.len() == s@.len(),
            n % 2 == 0,
            j <= n / 2,
            out@ == hex_bytes_of(s@).take(j as int),
            forall|i: int| 0 <= i < 2 * j ==> is_hex_digit_char(#[trigger] s@[i]),
        decreases n / 2 - j,
    {
        let hi = match hex_val(bytes[2 * j]) {
            Some(v) => v,
            None => {
                proof {
                    assert(!is_hex_digit_char(s@[2 * j as int]));
                }
                return None;
            },
        };
        let lo = match hex_val(bytes[2 * j + 1]) {
            Some(v) => v,
            None => {
                proof {
                    assert(!is_hex_digit_char(s@[2 * j as int + 1]));
                }
                return None;
            },
        };
        out.push(16 * hi + lo);
        proof {
            assert(out@ =~= hex_bytes_of(s@).take(j as int + 1));
        }
        j += 1;
    }
    proof {
        assert(hex_bytes_of(s@).take((n / 2) as int) =~= hex_bytes_of(s@));
    }
    Some(out)
}

// ---------------------------------------------------------------------
// Printable-ASCII rendering
// ---------------------------------------------------------------------
/// The character a byte is rendered as: itself if it is printable ASCII
/// (including space), a dot otherwise.
pub open spec fn render_byte(b: u8) -> char {
    if 0x20 <= b && b <= 0x7e {
        b as char
    } else {
        '.'
    }
}

/// The printable-ASCII rendering of a byte sequence.
pub open spec fn ascii_render_of(s: Seq<u8>) -> Seq<char> {
    Seq::new(s.len(), |i: int| render_byte(s[i]))
}

/// Render bytes as printable ASCII, one character per byte.
pub fn ascii_render(bytes: &[u8]) -> (r: String)
    ensures
        r@ == ascii_render_of(bytes@),
{
    let mut r = String::new();
    let mut i: usize = 0;
    while i < bytes.len()
        invariant
            i <= bytes@.len(),
            r@ == ascii_render_of(bytes@.take(i as int)),
        decreases bytes@.len() - i,
    {
        let b = bytes[i];
        let c = if 0x20 <= b && b <= 0x7e {
            b as char
        } else {
            '.'
        };
        push_char(&mut r, c);
        proof {
            assert(r@ =~= ascii_render_of(bytes@.take(i as int + 1)));
        }
        i += 1;
    }
    proof {
        assert(bytes@.take(bytes@.len() as int) =~= bytes@);
    }
    r
}

// ---------------------------------------------------------------------
// Unsigned integer decoding
// ---------------------------------------------------------------------
/// Powers of 256.
pub open spec fn pow256(n: nat) -> nat
    decreases n,
{
    if n == 0 {
        1
    } else {
        256 * pow256((n - 1) as nat)
    }
}

/// The unsigned value of a byte sequence read little-endian: the first
/// byte is least significant.
pub open spec fn le_value_of(s: Seq<u8>) -> nat
    decreases s.len(),
{
    if s.len() == 0 {
        0
    } else {
        s[0] as nat + 256 * le_value_of(s.drop_first())
    }
}

/// The unsigned value of a byte sequence read big-endian: the first
/// byte is most significant.
pub open spec fn be_value_of(s: Seq<u8>) -> nat
    decreases s.len(),
{
    if s.len() == 0 {
        0
    } else {
        256 * be_value_of(s.drop_last()) + s.last() as nat
    }
}

proof fn lemma_pow256_monotonic(a: nat, b: nat)
    requires
        a <= b,
    ensures
        pow256(a) <= pow256(b),
    decreases b,
{
    if a < b {
        lemma_pow256_monotonic(a, (b - 1) as nat);
    }
}

/// Decode up to eight bytes as a little-endian unsigned integer.
pub fn decode_le(bytes: &[u8]) -> (r: u64)
    requires
        bytes@.len() <= 8,
    ensures
        r as nat == le_value_of(bytes@),
{
    proof {
        reveal_with_fuel(pow256, 9);
    }
    let n = bytes.len();
    let mut r: u64 = 0;
    let mut i: usize = n;
    while i > 0
        invariant
            i <= n == bytes@.len() <= 8,
            r as nat == le_value_of(bytes@.skip(i as int)),
            (r as nat) < pow256((n - i) as nat),
        decreases i,
    {
        proof {
            reveal_with_fuel(pow256, 9);
            lemma_pow256_monotonic((n - i + 1) as nat, 8);
            assert(bytes@.skip(i as int - 1).drop_first() =~= bytes@.skip(i as int));
        }
        i -= 1;
        r = r * 256 + bytes[i] as u64;
    }
    proof {
        assert(bytes@.skip(0) =~= bytes@);
    }
    r
}

/// Decode up to eight bytes as a big-endian unsigned integer.
pub fn decode_be(bytes: &[u8]) -> (r: u64)
    requires
        bytes@.len() <= 8,
    ensures
        r as nat == be_value_of(bytes@),
{
    proof {
        reveal_with_fuel(pow256, 9);
    }
    let n = bytes.len();
    let mut r: u64 = 0;
    let mut i: usize = 0;
    while i < n
        invariant
            i <= n == bytes@.len() <= 8,
            r as nat == be_value_of(bytes@.take(i as int)),
            (r as nat) < pow256(i as nat),
        decreases n - i,
    {
        proof {
            reveal_with_fuel(pow256, 9);
            lemma_pow256_monotonic((i + 1) as nat, 8);
            assert(bytes@.take(i as int + 1).drop_last() =~= bytes@.take(i as int));
        }
        r = r * 256 + bytes[i] as u64;
        i += 1;
    }
    proof {
        assert(bytes@.take(n as int) =~= bytes@);
    }
    r
}

// ---------------------------------------------------------------------
// Null truncation
// ---------------------------------------------------------------------
/// The index of the first zero byte, or the length if there is none.
pub open spec fn first_null(s: Seq<u8>) -> int
    decreases s.len(),
{
    if s.len() == 0 {
        0
    } else if s[0] == 0 {
        0
    } else {
        1 + first_null(s.drop_first())
    }
}

/// The prefix of a byte sequence up to (not including) its first zero
/// byte; the whole sequence if no byte is zero.
pub open spec fn null_truncated(s: Seq<u8>) -> Seq<u8> {
    s.take(first_null(s))
}

proof fn lemma_first_null_position(s: Seq<u8>, k: int)
    requires
        0 <= k <= s.len(),
        forall|i: int| 0 <= i < k ==> s[i] != 0,
        k < s.len() ==> s[k] == 0,
    ensures
        first_null(s) == k,
    decreases s.len(),
{
    if s.len() != 0 && s[0] != 0 {
        assert forall|i: int| 0 <= i < k - 1 implies s.drop_first()[i] != 0 by {
            assert(s[i + 1] != 0);
        }
        lemma_first_null_position(s.drop_first(), k - 1);
    }
}

/// The prefix of a byte slice up to its first zero byte, as a copy.
pub fn take_until_null(bytes: &[u8]) -> (r: Vec<u8>)
    ensures
        r@ == null_truncated(bytes@),
{
    let n = bytes.len();
    let mut end: usize = n;
    let mut i: usize = n;
    while i > 0
        invariant
            i <= end <= n == bytes@.len(),
            end == n || bytes@[end as int] == 0,
            forall|k: int| i <= k < end ==> bytes@[k] != 0,
        decreases i,
    {
        i -= 1;
        if bytes[i] == 0 {
            end = i;
        }
    }
    proof {
        lemma_first_null_position(bytes@, end as int);
    }
    let prefix = vstd::slice::slice_subrange(bytes, 0, end);
    vstd::slice::slice_to_vec(prefix)
}

} // verus!
