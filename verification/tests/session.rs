use binary_analysis::{
    AddBookmark, AddNote, BinarySegment, CalculateHash, ExtractSegment, GetInfo, LoadBinary,
    OpError, ReadBytes, ReadInteger, ReadString, SearchPattern, ServerState, SetOutput,
};

fn load(s: &mut ServerState, path: &str, data: Vec<u8>) -> usize {
    let op = LoadBinary { path: path.to_string() };
    op.call_tool(s, Ok(data)).expect("load should succeed")
}

#[test]
fn new_session_is_empty() {
    let s = ServerState::new();
    assert!(s.buffer.is_empty());
    assert!(s.file_loaded.is_none());
    assert!(s.bookmarks.is_empty());
    assert!(s.segments.is_empty());
    assert!(s.analysis_notes.is_empty());
    assert_eq!(s.output, "");
}

#[test]
fn load_replaces_buffer_and_sets_source() {
    let mut s = ServerState::new();
    let n = load(&mut s, "firmware.bin", vec![1, 2, 3]);
    assert_eq!(n, 3);
    assert_eq!(s.buffer, vec![1, 2, 3]);
    assert_eq!(s.file_loaded.as_deref(), Some("firmware.bin"));
}

#[test]
fn failed_load_leaves_session_unchanged() {
    let mut s = ServerState::new();
    load(&mut s, "a.bin", vec![9, 8, 7]);
    AddBookmark { name: "b".to_string(), offset: 1 }.call_tool(&mut s).unwrap();
    ExtractSegment { offset: 0, length: 2, label: None }.call_tool(&mut s).unwrap();
    let buffer_before = s.buffer.clone();
    let bookmarks_before = s.bookmarks.clone();
    let segments_before = s.segments.clone();

    let op = LoadBinary { path: "missing.bin".to_string() };
    let r = op.call_tool(&mut s, Err("no such file".to_string()));
    assert_eq!(r, Err(OpError::Io("no such file".to_string())));
    assert_eq!(s.buffer, buffer_before);
    assert_eq!(s.bookmarks, bookmarks_before);
    assert_eq!(s.segments, segments_before);
    assert_eq!(s.file_loaded.as_deref(), Some("a.bin"));
}

#[test]
fn load_clears_derived_state_but_keeps_annotations() {
    let mut s = ServerState::new();
    load(&mut s, "a.bin", vec![1, 2, 3, 4]);
    AddBookmark { name: "mark".to_string(), offset: 2 }.call_tool(&mut s).unwrap();
    ExtractSegment { offset: 1, length: 2, label: Some("seg".to_string()) }
        .call_tool(&mut s)
        .unwrap();
    AddNote { note: "interesting".to_string() }.call_tool(&mut s);
    SetOutput { text: "report".to_string() }.call_tool(&mut s);

    load(&mut s, "b.bin", vec![5, 6]);
    assert!(s.bookmarks.is_empty());
    assert!(s.segments.is_empty());
    assert_eq!(s.analysis_notes, vec!["interesting".to_string()]);
    assert_eq!(s.output, "report");
}

#[test]
fn extracted_segment_survives_reload() {
    let mut s = ServerState::new();
    load(&mut s, "a.bin", vec![0xDE, 0xAD, 0xBE, 0xEF]);
    let seg: BinarySegment = ExtractSegment { offset: 1, length: 2, label: None }
        .call_tool(&mut s)
        .unwrap();
    assert_eq!(seg.data, vec![0xAD, 0xBE]);

    load(&mut s, "b.bin", vec![0; 16]);
    assert_eq!(seg.data, vec![0xAD, 0xBE]);
}

#[test]
fn read_bytes_renders_hex_and_ascii() {
    let mut s = ServerState::new();
    load(&mut s, "a.bin", b"AB \x01z".to_vec());
    let dump = ReadBytes { offset: 0, length: 5 }.call_tool(&s).unwrap();
    assert_eq!(dump.hex, "414220017a");
    assert_eq!(dump.ascii, "AB .z");
}

#[test]
fn out_of_bounds_reads_are_range_errors() {
    let mut s = ServerState::new();
    load(&mut s, "a.bin", vec![1, 2, 3]);
    let before = s.clone();

    assert_eq!(
        ReadBytes { offset: 2, length: 2 }.call_tool(&s),
        Err(OpError::Range)
    );
    assert_eq!(
        ReadInteger { offset: 2, size: 2, endian: "little".to_string() }.call_tool(&s),
        Err(OpError::Range)
    );
    assert_eq!(
        CalculateHash { offset: Some(1), length: Some(3) }.call_tool(&s),
        Err(OpError::Range)
    );
    assert_eq!(
        CalculateHash { offset: Some(4), length: None }.call_tool(&s),
        Err(OpError::Range)
    );
    assert_eq!(
        ExtractSegment { offset: 3, length: 1, label: None }.call_tool(&mut s.clone()),
        Err(OpError::Range)
    );
    let mut after = s.clone();
    let r = ExtractSegment { offset: 0, length: 4, label: None }.call_tool(&mut after);
    assert_eq!(r, Err(OpError::Range));
    assert_eq!(after.buffer, before.buffer);
    assert_eq!(after.segments, before.segments);
    assert_eq!(after.bookmarks, before.bookmarks);
}

#[test]
fn search_finds_overlapping_matches() {
    let mut s = ServerState::new();
    load(&mut s, "a.bin", vec![0xAA, 0xAA, 0xAA]);
    let hits = SearchPattern { pattern: "AA".to_string() }.call_tool(&s).unwrap();
    assert_eq!(hits, vec![0, 1, 2]);
}

#[test]
fn search_rejects_malformed_patterns() {
    let mut s = ServerState::new();
    load(&mut s, "a.bin", vec![1, 2, 3]);
    assert_eq!(
        SearchPattern { pattern: "xyz".to_string() }.call_tool(&s),
        Err(OpError::Format)
    );
    assert_eq!(
        SearchPattern { pattern: "ABC".to_string() }.call_tool(&s),
        Err(OpError::Format)
    );
}

#[test]
fn search_empty_pattern_yields_no_matches() {
    let mut s = ServerState::new();
    load(&mut s, "a.bin", vec![1, 2, 3]);
    let hits = SearchPattern { pattern: "".to_string() }.call_tool(&s).unwrap();
    assert!(hits.is_empty());
}

#[test]
fn search_no_match_yields_empty() {
    let mut s = ServerState::new();
    load(&mut s, "a.bin", vec![1, 2, 3]);
    let hits = SearchPattern { pattern: "FF".to_string() }.call_tool(&s).unwrap();
    assert!(hits.is_empty());
}

#[test]
fn integer_decode_little_and_big() {
    let mut s = ServerState::new();
    load(&mut s, "a.bin", vec![0x01, 0x00]);
    let little = ReadInteger { offset: 0, size: 2, endian: "little".to_string() }
        .call_tool(&s)
        .unwrap();
    assert_eq!(little, 1);
    let big = ReadInteger { offset: 0, size: 2, endian: "big".to_string() }
        .call_tool(&s)
        .unwrap();
    assert_eq!(big, 256);
}

#[test]
fn integer_decode_sizes() {
    let mut s = ServerState::new();
    load(&mut s, "a.bin", vec![0x78, 0x56, 0x34, 0x12, 0xEF, 0xCD, 0xAB, 0x89]);
    assert_eq!(
        ReadInteger { offset: 0, size: 1, endian: "weird".to_string() }
            .call_tool(&s)
            .unwrap(),
        0x78
    );
    assert_eq!(
        ReadInteger { offset: 0, size: 4, endian: "little".to_string() }
            .call_tool(&s)
            .unwrap(),
        0x12345678
    );
    assert_eq!(
        ReadInteger { offset: 0, size: 4, endian: "big".to_string() }
            .call_tool(&s)
            .unwrap(),
        0x78563412
    );
    assert_eq!(
        ReadInteger { offset: 0, size: 8, endian: "little".to_string() }
            .call_tool(&s)
            .unwrap(),
        0x89ABCDEF12345678
    );
}

#[test]
fn integer_rejects_bad_size_or_endian() {
    let mut s = ServerState::new();
    load(&mut s, "a.bin", vec![1, 2, 3, 4]);
    assert_eq!(
        ReadInteger { offset: 0, size: 3, endian: "little".to_string() }.call_tool(&s),
        Err(OpError::Format)
    );
    assert_eq!(
        ReadInteger { offset: 0, size: 2, endian: "middle".to_string() }.call_tool(&s),
        Err(OpError::Format)
    );
}

#[test]
fn read_string_truncates_at_null() {
    let mut s = ServerState::new();
    load(&mut s, "a.bin", vec![0x41, 0x42, 0x00, 0x43]);
    let text = ReadString { offset: 0, max_length: 4 }.call_tool(&s);
    assert_eq!(text, "AB");
}

#[test]
fn read_string_clamps_and_replaces() {
    let mut s = ServerState::new();
    load(&mut s, "a.bin", vec![0x68, 0x69, 0xFF]);
    assert_eq!(ReadString { offset: 0, max_length: 2 }.call_tool(&s), "hi");
    assert_eq!(
        ReadString { offset: 0, max_length: 100 }.call_tool(&s),
        "hi\u{FFFD}"
    );
    assert_eq!(ReadString { offset: 3, max_length: 4 }.call_tool(&s), "");
    assert_eq!(ReadString { offset: 7, max_length: 4 }.call_tool(&s), "");
}

#[test]
fn hash_is_deterministic_and_defaults_to_whole_buffer() {
    let mut s = ServerState::new();
    load(&mut s, "a.bin", vec![0xAA, 0xAA, 0xAA]);
    let h1 = CalculateHash { offset: None, length: None }.call_tool(&s).unwrap();
    let h2 = CalculateHash { offset: None, length: None }.call_tool(&s).unwrap();
    let h3 = CalculateHash { offset: Some(0), length: Some(3) }.call_tool(&s).unwrap();
    assert_eq!(h1, h2);
    assert_eq!(h1, h3);
    assert_eq!(
        h1,
        "9b6842cbc48d02524c0566cff1ed4373c4471324b9a6db7d2000f1cfff7b03fe"
    );
}

#[test]
fn hash_of_empty_range_is_sha256_of_nothing() {
    let s = ServerState::new();
    let h = CalculateHash { offset: None, length: None }.call_tool(&s).unwrap();
    assert_eq!(
        h,
        "e3b0c44298fc1c149afbf4c8996fb92427ae41e4649b934ca495991b7852b855"
    );
}

#[test]
fn bookmarks_overwrite_by_name() {
    let mut s = ServerState::new();
    load(&mut s, "a.bin", vec![1, 2, 3, 4]);
    AddBookmark { name: "spot".to_string(), offset: 1 }.call_tool(&mut s).unwrap();
    AddBookmark { name: "spot".to_string(), offset: 3 }.call_tool(&mut s).unwrap();
    AddBookmark { name: "other".to_string(), offset: 0 }.call_tool(&mut s).unwrap();
    assert_eq!(s.bookmarks.len(), 2);
    let spot = s.bookmarks.iter().find(|b| b.name == "spot").unwrap();
    assert_eq!(spot.offset, 3);
}

#[test]
fn bookmark_one_past_end_is_allowed() {
    let mut s = ServerState::new();
    load(&mut s, "a.bin", vec![1, 2, 3]);
    assert_eq!(
        AddBookmark { name: "end".to_string(), offset: 3 }.call_tool(&mut s),
        Ok(())
    );
    assert_eq!(
        AddBookmark { name: "past".to_string(), offset: 4 }.call_tool(&mut s),
        Err(OpError::Range)
    );
    assert_eq!(s.bookmarks.len(), 1);
}

#[test]
fn end_to_end_scenario() {
    let mut s = ServerState::new();
    let data: Vec<u8> = vec![0x01, 0x02, 0x03, 0x04, 0x05, 0x06, 0x07, 0x08, 0x09, 0x0A];
    let n = load(&mut s, "sample.bin", data);
    assert_eq!(n, 10);

    let dump = ReadBytes { offset: 0, length: 10 }.call_tool(&s).unwrap();
    assert_eq!(dump.hex, "0102030405060708090a");

    assert_eq!(
        AddBookmark { name: "start".to_string(), offset: 0 }.call_tool(&mut s),
        Ok(())
    );

    let hits = SearchPattern { pattern: "0A".to_string() }.call_tool(&s).unwrap();
    assert_eq!(hits, vec![9]);

    let h = CalculateHash { offset: None, length: None }.call_tool(&s).unwrap();
    assert_eq!(
        h,
        "c848e1013f9f04a9d63fa43ce7fd4af035152c7c669a4a404b67107cee5f2e4e"
    );

    let info = GetInfo {}.call_tool(&s);
    assert_eq!(info.size, 10);
    assert_eq!(info.bookmark_count, 1);
    assert_eq!(info.segment_count, 0);
    assert_eq!(info.note_count, 0);
    assert_eq!(info.file.as_deref(), Some("sample.bin"));
}
