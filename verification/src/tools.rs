//! The operation catalog: one argument record per operation, each with a
//! `call_tool` method that validates its arguments against the session
//! and then reads or mutates it.

use vstd::prelude::*;
use crate::codec::{
    ascii_render,
    ascii_render_of,
    hex_bytes_of,
    hex_decode,
    hex_encode,
    hex_of,
    is_hex_string,
    null_truncated,
    take_until_null,
    decode_be,
    decode_le,
    be_value_of,
    le_value_of,
};
use crate::search::{find_matches, matches_at};
use crate::state::{
    bookmark_lookup,
    lemma_lookup_absent,
    lemma_lookup_found,
    lemma_lookup_push_other,
    lemma_lookup_update_other,
    BinarySegment,
    Bookmark,
    ServerState,
};
use crate::wrappers::{lossy_utf8_of, sha256, sha256_of, utf8_lossy};
use vstd::string::StringExecFns;

verus! {

/// Why an operation failed: the file could not be read, a range fell
/// outside the buffer, or an argument was malformed.
#[derive(Debug, Clone, PartialEq, Eq)]
pub enum OpError {
    Io(String),
    Range,
    Format,
}

/// A rendered byte range: its hex encoding and its printable-ASCII form.
#[derive(Debug, Clone, PartialEq, Eq)]
pub struct HexDump {
    pub hex: String,
    pub ascii: String,
}

/// A summary of the session: source, buffer size, and derived counts.
#[derive(Debug, Clone, PartialEq, Eq)]
pub struct BufferInfo {
    pub file: Option<String>,
    pub size: usize,
    pub bookmark_count: usize,
    pub segment_count: usize,
    pub note_count: usize,
}

//****************//
//  LoadBinary    //
//****************//
/// Loads a binary file into the buffer for analysis.  The file's bytes
/// are read by the caller and handed in as `data`, so that the result of
/// the read is handled here in one atomic step.
#[derive(Debug, Clone)]
pub struct LoadBinary {
    /// Path to the binary file.
    pub path: String,
}

impl LoadBinary {
    /// Replace the buffer with the read bytes, record the source, and
    /// clear the state derived from the previous buffer.  A failed read
    /// leaves the session exactly as it was.
    pub fn call_tool(&self, s: &mut ServerState, data: Result<Vec<u8>, String>) -> (r: Result<
        usize,
        OpError,
    >)
        ensures
            data matches Ok(d) ==> {
                &&& r == Ok::<usize, OpError>(d.len())
                &&& final(s).buffer@ == d@
                &&& final(s).file_loaded matches Some(p) && p@ == self.path@
                &&& final(s).bookmarks@.len() == 0
                &&& final(s).segments@.len() == 0
                &&& final(s).analysis_notes == old(s).analysis_notes
                &&& final(s).output == old(s).output
                &&& final(s).wf()
            },
            data matches Err(m) ==> r == Err::<usize, OpError>(OpError::Io(m)) && *final(s)
                == *old(s),
    {
        match data {
            Ok(d) => {
                let count = d.len();
                s.buffer = d;
                s.file_loaded = Some(self.path.clone());
                s.bookmarks.clear();
                s.segments.clear();
                Ok(count)
            },
            Err(m) => Err(OpError::Io(m)),
        }
    }
}

//****************//
//  ReadBytes     //
//****************//
/// Reads a specified number of bytes from the buffer at a given offset,
/// returning a hex dump with an ASCII rendering.
#[derive(Debug, Clone)]
pub struct ReadBytes {
    /// Starting offset in the buffer.
    pub offset: usize,
    /// Number of bytes to read.
    pub length: usize,
}

impl ReadBytes {
    /// Render the requested range; a range past the end of the buffer
    /// is rejected before anything is read.
    pub fn call_tool(&self, s: &ServerState) -> (r: Result<HexDump, OpError>)
        ensures
            self.offset + self.length <= s.buffer@.len() ==> (r matches Ok(d) && {
                let range = s.buffer@.subrange(
                    self.offset as int,
                    self.offset + self.length,
                );
                &&& d.hex@ == hex_of(range)
                &&& d.ascii@ == ascii_render_of(range)
            }),
            self.offset + self.length > s.buffer@.len() ==> r == Err::<HexDump, OpError>(
                OpError::Range,
            ),
    {
        let n = s.buffer.len();
        if self.offset > n || self.length > n - self.offset {
            return Err(OpError::Range);
        }
        let range = vstd::slice::slice_subrange(
            s.buffer.as_slice(),
            self.offset,
            self.offset + self.length,
        );
        Ok(HexDump { hex: hex_encode(range), ascii: ascii_render(range) })
    }
}

//*******************//
//  SearchPattern    //
//*******************//
/// Searches for a hex pattern in the buffer, returning all matching
/// offsets.
#[derive(Debug, Clone)]
pub struct SearchPattern {
    /// Hex string pattern to search for (e.g. `4D5A` for a PE header).
    pub pattern: String,
}

impl SearchPattern {
    /// Decode the pattern and scan the whole buffer: every offset where
    /// the pattern occurs, ascending, overlaps included.  A malformed
    /// pattern is rejected; an empty pattern yields no matches.
    pub fn call_tool(&self, s: &ServerState) -> (r: Result<Vec<usize>, OpError>)
        ensures
            !is_hex_string(self.pattern@) ==> r == Err::<Vec<usize>, OpError>(OpError::Format),
            is_hex_string(self.pattern@) ==> (r matches Ok(v) && {
                let pat = hex_bytes_of(self.pattern@);
                &&& forall|k: int| 0 <= k < v@.len() ==> matches_at(s.buffer@, pat, v@[k] as int)
                &&& forall|k1: int, k2: int| 0 <= k1 < k2 < v@.len() ==> v@[k1] < v@[k2]
                &&& pat.len() > 0 ==> (forall|i: usize|
                    matches_at(s.buffer@, pat, i as int) ==> #[trigger] v@.contains(i))
                &&& pat.len() == 0 ==> v@ == Seq::<usize>::empty()
            }),
    {
        let pat = match hex_decode(self.pattern.as_str()) {
            Some(p) => p,
            None => {
                return Err(OpError::Format);
            },
        };
        Ok(find_matches(s.buffer.as_slice(), pat.as_slice()))
    }
}

//*******************//
//  ExtractSegment   //
//*******************//
/// Extracts a segment of bytes and stores it for later reference.
#[derive(Debug, Clone)]
pub struct ExtractSegment {
    /// Starting offset.
    pub offset: usize,
    /// Length of segment.
    pub length: usize,
    /// Optional label for the segment.
    pub label: Option<String>,
}

impl ExtractSegment {
    /// Copy the range out of the buffer and append it to the segment
    /// log; the copy is independent of the buffer, so later loads leave
    /// it unchanged.  An out-of-bounds range is rejected and the session
    /// left exactly as it was.
    pub fn call_tool(&self, s: &mut ServerState) -> (r: Result<BinarySegment, OpError>)
        ensures
            self.offset + self.length > old(s).buffer@.len() ==> r == Err::<
                BinarySegment,
                OpError,
            >(OpError::Range) && *final(s) == *old(s),
            self.offset + self.length <= old(s).buffer@.len() ==> (r matches Ok(seg) && {
                let range = old(s).buffer@.subrange(
                    self.offset as int,
                    self.offset + self.length,
                );
                &&& seg.offset == self.offset
                &&& seg.data@ == range
                &&& seg.label == self.label
                &&& final(s).segments@.len() == old(s).segments@.len() + 1
                &&& final(s).segments@.subrange(0, old(s).segments@.len() as int) == old(
                    s,
                ).segments@
                &&& final(s).segments@.last().offset == self.offset
                &&& final(s).segments@.last().data@ == range
                &&& final(s).segments@.last().label == self.label
                &&& final(s).buffer == old(s).buffer
                &&& final(s).file_loaded == old(s).file_loaded
                &&& final(s).bookmarks == old(s).bookmarks
                &&& final(s).analysis_notes == old(s).analysis_notes
                &&& final(s).output == old(s).output
            }),
    {
        let n = s.buffer.len();
        if self.offset > n || self.length > n - self.offset {
            return Err(OpError::Range);
        }
        let raw = vstd::slice::slice_subrange(
            s.buffer.as_slice(),
            self.offset,
            self.offset + self.length,
        );
        let data = vstd::slice::slice_to_vec(raw);
        let data_copy = vstd::slice::slice_to_vec(raw);
        let label = match &self.label {
            Some(l) => Some(l.clone()),
            None => None,
        };
        let label_copy = match &self.label {
            Some(l) => Some(l.clone()),
            None => None,
        };
        let stored = BinarySegment { offset: self.offset, data, label };
        let returned = BinarySegment { offset: self.offset, data: data_copy, label: label_copy };
        s.segments.push(stored);
        proof {
            assert(s.segments@.subrange(0, old(s).segments@.len() as int) =~= old(s).segments@);
        }
        Ok(returned)
    }
}

//****************//
//  AddBookmark   //
//****************//
/// Creates a named bookmark at a specific offset for quick reference.
#[derive(Debug, Clone)]
pub struct AddBookmark {
    /// Name for the bookmark.
    pub name: String,
    /// Offset to bookmark.
    pub offset: usize,
}

impl AddBookmark {
    /// Insert the bookmark, overwriting any entry with the same name.
    /// An offset one past the end of the buffer is allowed; a larger one
    /// is rejected and the session left exactly as it was.
    pub fn call_tool(&self, s: &mut ServerState) -> (r: Result<(), OpError>)
        requires
            old(s).wf(),
        ensures
            self.offset > old(s).buffer@.len() ==> r == Err::<(), OpError>(OpError::Range)
                && *final(s) == *old(s),
            self.offset <= old(s).buffer@.len() ==> {
                &&& r == Ok::<(), OpError>(())
                &&& final(s).wf()
                &&& final(s).bookmark_of(self.name@) == Some(self.offset)
                &&& forall|n: Seq<char>|
                    n != self.name@ ==> #[trigger] final(s).bookmark_of(n) == old(s).bookmark_of(n)
                &&& old(s).bookmark_of(self.name@) is Some ==> final(s).bookmarks@.len() == old(
                    s,
                ).bookmarks@.len()
                &&& old(s).bookmark_of(self.name@) is None ==> final(s).bookmarks@.len() == old(
                    s,
                ).bookmarks@.len() + 1
                &&& final(s).buffer == old(s).buffer
                &&& final(s).file_loaded == old(s).file_loaded
                &&& final(s).segments == old(s).segments
                &&& final(s).analysis_notes == old(s).analysis_notes
                &&& final(s).output == old(s).output
            },
    {
        if self.offset > s.buffer.len() {
            return Err(OpError::Range);
        }
        let count = s.bookmarks.len();
        let mut i: usize = 0;
        while i < count
            invariant
                *s == *old(s),
                old(s).wf(),
                self.offset <= old(s).buffer@.len(),
                count == s.bookmarks@.len(),
                i <= count,
                forall|k: int| 0 <= k < i ==> s.bookmarks@[k].name@ != self.name@,
            decreases count - i,
        {
            if s.bookmarks[i].name == self.name {
                let bm = Bookmark { name: self.name.clone(), offset: self.offset };
                let ghost old_bs = s.bookmarks@;
                s.bookmarks[i] = bm;
                proof {
                    lemma_lookup_found(old_bs, i as int, self.name@);
                    lemma_lookup_found(s.bookmarks@, i as int, self.name@);
                    assert forall|n: Seq<char>| n != self.name@ implies #[trigger] bookmark_lookup(
                        s.bookmarks@,
                        n,
                    ) == bookmark_lookup(old_bs, n) by {
                        lemma_lookup_update_other(old_bs, i as int, bm, n);
                    }
                    assert forall|k1: int, k2: int|
                        0 <= k1 < k2 < s.bookmarks@.len() implies s.bookmarks@[k1].name@
                        != s.bookmarks@[k2].name@ by {
                        assert(old_bs[k1].name@ != old_bs[k2].name@);
                    }
                }
                return Ok(());
            }
            i += 1;
        }
        let bm = Bookmark { name: self.name.clone(), offset: self.offset };
        let ghost old_bs = s.bookmarks@;
        s.bookmarks.push(bm);
        proof {
            lemma_lookup_absent(old_bs, self.name@);
            lemma_lookup_found(s.bookmarks@, old_bs.len() as int, self.name@);
            assert forall|n: Seq<char>| n != self.name@ implies #[trigger] bookmark_lookup(
                s.bookmarks@,
                n,
            ) == bookmark_lookup(old_bs, n) by {
                lemma_lookup_push_other(old_bs, bm, n);
            }
            assert forall|k1: int, k2: int|
                0 <= k1 < k2 < s.bookmarks@.len() implies s.bookmarks@[k1].name@
                != s.bookmarks@[k2].name@ by {
                if k2 < old_bs.len() {
                    assert(old_bs[k1].name@ != old_bs[k2].name@);
                } else {
                    assert(s.bookmarks@[k2].name@ == self.name@);
                    assert(old_bs[k1].name@ != self.name@);
                }
            }
        }
        Ok(())
    }
}

//****************//
//  ReadString    //
//****************//
/// The window of buffer bytes a string read covers: from the offset up
/// to at most `max` bytes or the end of the buffer, cut at the first
/// zero byte.  An offset beyond the buffer gives an empty window.
pub open spec fn string_window(buf: Seq<u8>, off: int, max: int) -> Seq<u8> {
    if off > buf.len() {
        Seq::empty()
    } else if off + max <= buf.len() {
        null_truncated(buf.subrange(off, off + max))
    } else {
        null_truncated(buf.subrange(off, buf.len() as int))
    }
}

/// Attempts to read bytes as an ASCII/UTF-8 string from a specified
/// offset.
#[derive(Debug, Clone)]
pub struct ReadString {
    /// Starting offset.
    pub offset: usize,
    /// Maximum length to read.
    pub max_length: usize,
}

impl ReadString {
    /// Decode the window at the offset as UTF-8 with replacement,
    /// stopping at the first zero byte.  An offset beyond the buffer
    /// yields an empty string, not an error.
    pub fn call_tool(&self, s: &ServerState) -> (r: String)
        ensures
            ({
                let window = string_window(
                    s.buffer@,
                    self.offset as int,
                    self.max_length as int,
                );
                &&& r@ == lossy_utf8_of(window)
                &&& (forall|i: int| 0 <= i < window.len() ==> window[i] < 0x80) ==> r@ == Seq::new(
                    window.len(),
                    |i: int| window[i] as char,
                )
            }),
    {
        let n = s.buffer.len();
        if self.offset > n {
            let empty: Vec<u8> = Vec::new();
            proof {
                assert(empty@ =~= string_window(
                    s.buffer@,
                    self.offset as int,
                    self.max_length as int,
                ));
            }
            return utf8_lossy(empty.as_slice());
        }
        let end = if self.max_length > n - self.offset {
            n
        } else {
            self.offset + self.max_length
        };
        let window = vstd::slice::slice_subrange(s.buffer.as_slice(), self.offset, end);
        let truncated = take_until_null(window);
        utf8_lossy(truncated.as_slice())
    }
}

//****************//
//  ReadInteger   //
//****************//
/// The character sequence `little`.
pub open spec fn little_chars() -> Seq<char> {
    seq!['l', 'i', 't', 't', 'l', 'e']
}

/// The character sequence `big`.
pub open spec fn big_chars() -> Seq<char> {
    seq!['b', 'i', 'g']
}

/// Reads bytes as an unsigned integer of one, two, four or eight bytes,
/// with a chosen endianness.
#[derive(Debug, Clone)]
pub struct ReadInteger {
    /// Starting offset.
    pub offset: usize,
    /// Integer size: 1, 2, 4, or 8 bytes.
    pub size: u8,
    /// Endianness: `little` or `big`.
    pub endian: String,
}

impl ReadInteger {
    /// Whether the size and endianness name a supported decoding: a
    /// single byte ignores the endianness, wider sizes require it to be
    /// `little` or `big`.
    pub open spec fn valid_format(self) -> bool {
        ||| self.size == 1
        ||| ((self.size == 2 || self.size == 4 || self.size == 8) && (self.endian@
            == little_chars() || self.endian@ == big_chars()))
    }

    /// Decode the bytes at the offset.  A range past the end of the
    /// buffer is rejected first; then an unsupported size or endianness.
    pub fn call_tool(&self, s: &ServerState) -> (r: Result<u64, OpError>)
        ensures
            self.offset + self.size > s.buffer@.len() ==> r == Err::<u64, OpError>(OpError::Range),
            self.offset + self.size <= s.buffer@.len() ==> {
                let range = s.buffer@.subrange(self.offset as int, self.offset + self.size);
                &&& !self.valid_format() ==> r == Err::<u64, OpError>(OpError::Format)
                &&& self.size == 1 ==> r == Ok::<u64, OpError>(s.buffer@[self.offset as int] as u64)
                &&& (self.size != 1 && self.valid_format() && self.endian@ == little_chars()) ==> (
                r matches Ok(v) && v as nat == le_value_of(range))
                &&& (self.size != 1 && self.valid_format() && self.endian@ == big_chars()) ==> (
                r matches Ok(v) && v as nat == be_value_of(range))
            },
    {
        let n = s.buffer.len();
        let sz = self.size as usize;
        if self.offset > n || sz > n - self.offset {
            return Err(OpError::Range);
        }
        if self.size == 1 {
            proof {
                assert(s.buffer@.subrange(self.offset as int, self.offset as int + 1)[0]
                    == s.buffer@[self.offset as int]);
            }
            return Ok(s.buffer[self.offset] as u64);
        }
        if !(self.size == 2 || self.size == 4 || self.size == 8) {
            return Err(OpError::Format);
        }
        let range = vstd::slice::slice_subrange(s.buffer.as_slice(), self.offset, self.offset + sz);
        let little = String::from_str("little");
        let big = String::from_str("big");
        proof {
            reveal_strlit("little");
            reveal_strlit("big");
            assert(little@ =~= little_chars());
            assert(big@ =~= big_chars());
        }
        if self.endian == little {
            Ok(decode_le(range))
        } else if self.endian == big {
            Ok(decode_be(range))
        } else {
            Err(OpError::Format)
        }
    }
}

//******************//
//  CalculateHash   //
//******************//
/// Calculates the SHA-256 hash of the entire buffer or a range of it.
#[derive(Debug, Clone)]
pub struct CalculateHash {
    /// Optional offset (if absent, hash from the start).
    pub offset: Option<usize>,
    /// Optional length (if absent, hash from the offset to the end).
    pub length: Option<usize>,
}

impl CalculateHash {
    /// The start of the hashed range: the given offset, or zero.
    pub open spec fn spec_offset(self) -> int {
        match self.offset {
            Some(o) => o as int,
            None => 0,
        }
    }

    /// The end of the hashed range: offset plus the given length, or
    /// the end of the buffer.
    pub open spec fn spec_end(self, buf_len: int) -> int {
        match self.length {
            Some(l) => self.spec_offset() + l,
            None => buf_len,
        }
    }

    /// Whether the selected range lies inside the buffer.
    pub open spec fn in_bounds(self, buf_len: int) -> bool {
        self.spec_offset() <= self.spec_end(buf_len) <= buf_len
    }

    /// The hex digest the operation reports for a given buffer.
    pub open spec fn digest_of(self, buf: Seq<u8>) -> Seq<char> {
        hex_of(sha256_of(buf.subrange(self.spec_offset(), self.spec_end(buf.len() as int))))
    }

    /// Hash the selected range and hex-encode the digest; a range
    /// outside the buffer is rejected.
    pub fn call_tool(&self, s: &ServerState) -> (r: Result<String, OpError>)
        ensures
            !self.in_bounds(s.buffer@.len() as int) ==> r == Err::<String, OpError>(OpError::Range),
            self.in_bounds(s.buffer@.len() as int) ==> (r matches Ok(h) && h@ == self.digest_of(
                s.buffer@,
            )),
    {
        let n = s.buffer.len();
        let off = match self.offset {
            Some(o) => o,
            None => 0,
        };
        if off > n {
            return Err(OpError::Range);
        }
        let end = match self.length {
            Some(l) => {
                if l > n - off {
                    return Err(OpError::Range);
                }
                off + l
            },
            None => n,
        };
        let range = vstd::slice::slice_subrange(s.buffer.as_slice(), off, end);
        let digest = sha256(range);
        Ok(hex_encode(digest.as_slice()))
    }
}

//************//
//  GetInfo   //
//************//
/// Returns detailed information about the current buffer state.
#[derive(Debug, Clone)]
pub struct GetInfo {}

impl GetInfo {
    /// Report the loaded source, the buffer size, and how many
    /// bookmarks, segments and notes the session holds.  Never fails.
    pub fn call_tool(&self, s: &ServerState) -> (info: BufferInfo)
        ensures
            info.file == s.file_loaded,
            info.size == s.buffer@.len(),
            info.bookmark_count == s.bookmarks@.len(),
            info.segment_count == s.segments@.len(),
            info.note_count == s.analysis_notes@.len(),
    {
        let file = match &s.file_loaded {
            Some(p) => Some(p.clone()),
            None => None,
        };
        BufferInfo {
            file,
            size: s.buffer.len(),
            bookmark_count: s.bookmarks.len(),
            segment_count: s.segments.len(),
            note_count: s.analysis_notes.len(),
        }
    }
}

//************//
//  AddNote   //
//************//
/// Adds a textual analysis note to the current session.
#[derive(Debug, Clone)]
pub struct AddNote {
    /// The analysis note text.
    pub note: String,
}

impl AddNote {
    /// Append the note; everything else is untouched.  Never fails.
    pub fn call_tool(&self, s: &mut ServerState)
        ensures
            final(s).analysis_notes@ == old(s).analysis_notes@.push(self.note),
            final(s).buffer == old(s).buffer,
            final(s).file_loaded == old(s).file_loaded,
            final(s).bookmarks == old(s).bookmarks,
            final(s).segments == old(s).segments,
            final(s).output == old(s).output,
    {
        s.analysis_notes.push(self.note.clone());
    }
}

//**************//
//  SetOutput   //
//**************//
/// Sets the final analysis output text.
#[derive(Debug, Clone)]
pub struct SetOutput {
    /// Output text.
    pub text: String,
}

impl SetOutput {
    /// Overwrite the output slot; everything else is untouched.  Never
    /// fails.
    pub fn call_tool(&self, s: &mut ServerState)
        ensures
            final(s).output == self.text,
            final(s).buffer == old(s).buffer,
            final(s).file_loaded == old(s).file_loaded,
            final(s).bookmarks == old(s).bookmarks,
            final(s).segments == old(s).segments,
            final(s).analysis_notes == old(s).analysis_notes,
    {
        s.output = self.text.clone();
    }
}

} // verus!
