//! The session state: the loaded buffer and everything derived from it.

use vstd::prelude::*;

verus! {

/// An independently owned copy of a byte range extracted from the buffer.
///
/// `data` is a copy taken at extraction time, never a view into the
/// buffer, so a later load leaves previously extracted bytes unchanged.
#[derive(Debug, Clone, PartialEq, Eq)]
pub struct BinarySegment {
    pub offset: usize,
    pub data: Vec<u8>,
    pub label: Option<String>,
}

/// A named offset into the buffer.
#[derive(Debug, Clone, PartialEq, Eq)]
pub struct Bookmark {
    pub name: String,
    pub offset: usize,
}

/// The complete mutable state of one analysis session.
///
/// Bookmarks form a mapping from name to offset: names are unique, and
/// inserting an existing name overwrites its offset.
#[derive(Debug, Clone)]
pub struct ServerState {
    pub buffer: Vec<u8>,
    pub file_loaded: Option<String>,
    pub bookmarks: Vec<Bookmark>,
    pub segments: Vec<BinarySegment>,
    pub analysis_notes: Vec<String>,
    pub output: String,
}

/// The offset recorded under `name`, or `None` if no bookmark has that name.
pub open spec fn bookmark_lookup(bs: Seq<Bookmark>, name: Seq<char>) -> Option<usize>
    decreases bs.len(),
{
    if bs.len() == 0 {
        None
    } else if bs[0].name@ == name {
        Some(bs[0].offset)
    } else {
        bookmark_lookup(bs.drop_first(), name)
    }
}

/// The bookmark at the first index whose name matches is the one found.
pub proof fn lemma_lookup_found(bs: Seq<Bookmark>, idx: int, n: Seq<char>)
    requires
        0 <= idx < bs.len(),
        bs[idx].name@ == n,
        forall|k: int| 0 <= k < idx ==> bs[k].name@ != n,
    ensures
        bookmark_lookup(bs, n) == Some(bs[idx].offset),
    decreases bs.len(),
{
    if idx > 0 {
        assert forall|k: int| 0 <= k < idx - 1 implies bs.drop_first()[k].name@ != n by {
            assert(bs.drop_first()[k] == bs[k + 1]);
        }
        assert(bs.drop_first()[idx - 1] == bs[idx]);
        lemma_lookup_found(bs.drop_first(), idx - 1, n);
    }
}

/// A name no bookmark carries is not found.
pub proof fn lemma_lookup_absent(bs: Seq<Bookmark>, n: Seq<char>)
    requires
        forall|k: int| 0 <= k < bs.len() ==> bs[k].name@ != n,
    ensures
        bookmark_lookup(bs, n) is None,
    decreases bs.len(),
{
    if bs.len() > 0 {
        assert forall|k: int| 0 <= k < bs.len() - 1 implies bs.drop_first()[k].name@ != n by {
            assert(bs.drop_first()[k] == bs[k + 1]);
        }
        lemma_lookup_absent(bs.drop_first(), n);
    }
}

/// Overwriting an entry does not change what other names resolve to.
pub proof fn lemma_lookup_update_other(bs: Seq<Bookmark>, idx: int, b: Bookmark, n: Seq<char>)
    requires
        0 <= idx < bs.len(),
        n != b.name@,
        bs[idx].name@ != n,
    ensures
        bookmark_lookup(bs.update(idx, b), n) == bookmark_lookup(bs, n),
    decreases bs.len(),
{
    let bs2 = bs.update(idx, b);
    if idx == 0 {
        assert(bs2.drop_first() =~= bs.drop_first());
    } else {
        assert(bs2[0] == bs[0]);
        if bs[0].name@ != n {
            assert(bs2.drop_first() =~= bs.drop_first().update(idx - 1, b));
            lemma_lookup_update_other(bs.drop_first(), idx - 1, b, n);
        }
    }
}

/// Appending an entry does not change what other names resolve to.
pub proof fn lemma_lookup_push_other(bs: Seq<Bookmark>, b: Bookmark, n: Seq<char>)
    requires
        n != b.name@,
    ensures
        bookmark_lookup(bs.push(b), n) == bookmark_lookup(bs, n),
    decreases bs.len(),
{
    reveal_with_fuel(bookmark_lookup, 3);
    if bs.len() == 0 {
        assert(bs.push(b)[0] == b);
        assert(bs.push(b).drop_first() =~= Seq::<Bookmark>::empty());
    } else {
        assert(bs.push(b)[0] == bs[0]);
        if bs[0].name@ != n {
            assert(bs.push(b).drop_first() =~= bs.drop_first().push(b));
            lemma_lookup_push_other(bs.drop_first(), b, n);
        }
    }
}

impl ServerState {
    /// Bookmark names are unique, so the sequence encodes a mapping.
    pub open spec fn wf(self) -> bool {
        forall|i: int, j: int|
            0 <= i < j < self.bookmarks@.len() ==> self.bookmarks@[i].name@
                != self.bookmarks@[j].name@
    }

    /// The offset bookmarked under `name`, if any.
    pub open spec fn bookmark_of(self, name: Seq<char>) -> Option<usize> {
        bookmark_lookup(self.bookmarks@, name)
    }

    /// An empty session: no buffer, no source, nothing derived.
    pub fn new() -> (s: Self)
        ensures
            s.buffer@ == Seq::<u8>::empty(),
            s.file_loaded is None,
            s.bookmarks@.len() == 0,
            s.segments@.len() == 0,
            s.analysis_notes@.len() == 0,
            s.output@ == Seq::<char>::empty(),
            s.wf(),
    {
        Self {
            buffer: Vec::new(),
            file_loaded: None,
            bookmarks: Vec::new(),
            segments: Vec::new(),
            analysis_notes: Vec::new(),
            output: String::new(),
        }
    }
}

} // verus!
