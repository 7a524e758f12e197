use slp_combo_finder::{
    entry_combo, parse_playlist_json, playlist_combos, playlist_entry, playlist_json, Combo,
    ParsePlaylistError,
};

fn combo(path: &str, start: usize, end: usize) -> Combo {
    Combo { path: path.to_string(), start, end }
}

#[test]
fn entries_shift_frames_by_the_offset() {
    let e = playlist_entry(&combo("x.slp", 200, 500));
    assert_eq!(e.path, "x.slp");
    assert_eq!(e.start_frame, 77);
    assert_eq!(e.end_frame, 377);
    let e = playlist_entry(&combo("y", 0, 0));
    assert_eq!(e.start_frame, -123);
}

#[test]
fn entry_fields_shift_back() {
    assert_eq!(entry_combo(Some("x".to_string()), Some(77), Some(377)), Some(combo("x", 200, 500)));
    assert_eq!(entry_combo(Some("x".to_string()), Some(-123), Some(-100)), Some(combo("x", 0, 23)));
    assert_eq!(entry_combo(Some("x".to_string()), Some(-124), Some(0)), None);
    assert_eq!(entry_combo(None, Some(0), Some(0)), None);
    assert_eq!(entry_combo(Some("x".to_string()), None, Some(0)), None);
    assert_eq!(entry_combo(Some("x".to_string()), Some(0), None), None);
}

#[test]
fn written_playlist_reads_back() {
    let combos = vec![combo("a/b.slp", 0, 123), combo("c.slp", 450, 1000), combo("a/b.slp", 5000, 5100)];
    let text = playlist_json(&combos);
    assert!(text.contains("\"mode\": \"queue\""));
    assert!(text.contains("\"startFrame\": -123"));
    assert!(text.contains("\"endFrame\": 877"));
    assert_eq!(parse_playlist_json(&text).unwrap(), combos);
}

#[test]
fn empty_playlist_reads_back_empty() {
    let text = playlist_json(&[]);
    assert_eq!(parse_playlist_json(&text).unwrap(), vec![]);
}

#[test]
fn malformed_json_is_a_parse_error() {
    assert!(matches!(parse_playlist_json("{\"mode\": "), Err(ParsePlaylistError::JsonParseError(_))));
    assert!(matches!(parse_playlist_json(""), Err(ParsePlaylistError::JsonParseError(_))));
}

#[test]
fn wrong_shape_is_not_a_playlist() {
    assert!(matches!(parse_playlist_json("{\"mode\": \"list\", \"queue\": []}"), Err(ParsePlaylistError::NotAPlaylistJsonFile)));
    assert!(matches!(parse_playlist_json("{\"mode\": \"queue\", \"queue\": 3}"), Err(ParsePlaylistError::NotAPlaylistJsonFile)));
    assert!(matches!(parse_playlist_json("[1, 2]"), Err(ParsePlaylistError::NotAPlaylistJsonFile)));
}

#[test]
fn incomplete_entries_are_skipped() {
    let text = "{\"mode\": \"queue\", \"replay\": \"\", \"queue\": [\
        {\"path\": \"a\", \"startFrame\": 0, \"endFrame\": 10},\
        {\"path\": \"b\", \"startFrame\": 0},\
        {\"path\": 4, \"startFrame\": 0, \"endFrame\": 10},\
        {\"path\": \"c\", \"startFrame\": -500, \"endFrame\": 10},\
        {\"path\": \"d\", \"startFrame\": -123, \"endFrame\": -23}]}";
    assert_eq!(parse_playlist_json(text).unwrap(), vec![combo("a", 123, 133), combo("d", 0, 100)]);
}

#[test]
fn playlist_shape_decides_before_entries() {
    let fields = vec![(Some("a".to_string()), Some(0), Some(1))];
    assert!(matches!(playlist_combos(false, true, fields.clone()), Err(ParsePlaylistError::NotAPlaylistJsonFile)));
    assert!(matches!(playlist_combos(true, false, fields.clone()), Err(ParsePlaylistError::NotAPlaylistJsonFile)));
    assert_eq!(playlist_combos(true, true, fields).unwrap(), vec![combo("a", 123, 124)]);
}

#[test]
fn error_messages() {
    assert_eq!(ParsePlaylistError::NotAPlaylistJsonFile.message(), "File is not a playlist.");
    let e = parse_playlist_json("{").unwrap_err();
    assert!(e.message().starts_with("Invalid json: "));
    assert!(e.message().len() > "Invalid json: ".len());
}

#[test]
fn entries_keep_order() {
    let e = slp_combo_finder::playlist_entries(&[combo("a", 123, 200), combo("b", 1, 2)]);
    assert_eq!(e.len(), 2);
    assert_eq!((e[0].path.as_str(), e[0].start_frame, e[0].end_frame), ("a", 0, 77));
    assert_eq!((e[1].path.as_str(), e[1].start_frame, e[1].end_frame), ("b", -122, -121));
}

#[test]
fn one_combo_document_text() {
    let text = playlist_json(&[combo("a.slp", 0, 200)]);
    assert_eq!(
        text,
        "{\n  \"mode\": \"queue\",\n  \"replay\": \"\",\n  \"queue\": [\n    {\n      \"path\": \"a.slp\",\n      \"startFrame\": -123,\n      \"endFrame\": 77\n    }\n  ]\n}"
    );
}

#[test]
fn extreme_frame_numbers_are_skipped_without_panic() {
    let text = "{\"mode\": \"queue\", \"queue\": [\
        {\"path\": \"a\", \"startFrame\": -9223372036854775808, \"endFrame\": 10},\
        {\"path\": \"b\", \"startFrame\": 0, \"endFrame\": 9223372036854775808},\
        {\"path\": \"c\", \"startFrame\": 1.5, \"endFrame\": 10},\
        {\"path\": \"d\", \"startFrame\": 9223372036854775684, \"endFrame\": 0}]}";
    assert_eq!(parse_playlist_json(text).unwrap(), vec![combo("d", 9223372036854775807, 123)]);
}

#[test]
fn largest_frame_round_trips() {
    let combos = vec![combo("big", 9223372036854775807, 9223372036854775807)];
    assert_eq!(parse_playlist_json(&playlist_json(&combos)).unwrap(), combos);
}
