//! A verified binary-buffer analysis session.
//!
//! The library models one interactive analysis session over an in-memory
//! byte buffer: load a file's bytes, inspect ranges as hex and ASCII,
//! search for byte patterns, extract labeled segments, bookmark offsets,
//! decode strings and integers, hash ranges, and keep free-text notes and
//! a final output slot.  Every operation validates its arguments against
//! the current buffer before touching it, and its contract states exactly
//! what is returned and how the session changes.

pub mod codec;
pub mod laws;
pub mod search;
pub mod state;
pub mod tools;
pub mod wrappers;

pub use state::{BinarySegment, Bookmark, ServerState};
pub use tools::{
    AddBookmark,
    AddNote,
    BufferInfo,
    CalculateHash,
    ExtractSegment,
    GetInfo,
    HexDump,
    LoadBinary,
    OpError,
    ReadBytes,
    ReadInteger,
    ReadString,
    SearchPattern,
    SetOutput,
};
