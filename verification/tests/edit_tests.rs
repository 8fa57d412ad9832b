use niche::tools::args::ToolArgs;
use niche::tools::edit_file::{
    apply_edit, edit_content, edit_request, edited_message, normalize_quotes, FileCache, FileStamp,
};

#[test]
fn edit_replaces_the_single_occurrence() {
    let r = apply_edit("f.rs", "let x = 1;\nlet y = 2;\n", "x = 1", "x = 10");
    assert_eq!(r, Ok("let x = 10;\nlet y = 2;\n".to_string()));
}

#[test]
fn edit_refuses_a_missing_text() {
    let r = apply_edit("f.rs", "hello", "bye", "x");
    assert_eq!(r, Err("old_text not found in f.rs".to_string()));
}

#[test]
fn edit_hints_at_curly_quotes() {
    let r = apply_edit("notes.txt", "say \u{201C}hi\u{201D} now", "say \"hi\"", "x");
    assert_eq!(
        r,
        Err("No exact match found, but a match exists with different quote styles. Check curly vs straight quotes. Original text not found in notes.txt.".to_string())
    );
}

#[test]
fn edit_refuses_an_ambiguous_text() {
    let r = apply_edit("a.txt", "ab ab ab", "ab", "x");
    assert_eq!(
        r,
        Err("old_text appears 3 times in a.txt. Provide a longer, more unique string to match exactly once.".to_string())
    );
}

#[test]
fn occurrences_are_counted_at_every_position() {
    // "aaa" holds "aa" at two positions, so the old text is not unique.
    let r = apply_edit("a.txt", "aaa", "aa", "b");
    assert_eq!(
        r,
        Err("old_text appears 2 times in a.txt. Provide a longer, more unique string to match exactly once.".to_string())
    );
}

#[test]
fn empty_old_text_matches_at_every_boundary() {
    assert_eq!(apply_edit("e", "", "", "new"), Ok("new".to_string()));
    assert_eq!(
        apply_edit("e", "ab", "", "new"),
        Err("old_text appears 3 times in e. Provide a longer, more unique string to match exactly once.".to_string())
    );
}

#[test]
fn edit_with_same_text_changes_nothing() {
    let content = "alpha beta gamma";
    assert_eq!(apply_edit("p", content, "beta", "beta"), Ok(content.to_string()));
}

#[test]
fn quotes_are_made_straight() {
    assert_eq!(normalize_quotes("\u{2018}a\u{2019} \u{201C}b\u{201D}"), "'a' \"b\"");
    let once = normalize_quotes("\u{2018}x\u{201D}");
    assert_eq!(normalize_quotes(&once), once);
}

#[test]
fn edit_arguments_are_read_in_order() {
    let args = ToolArgs::new(r#"{"path": "a.txt", "old_text": "x", "new_text": "y"}"#.to_string());
    let req = edit_request(&args).unwrap();
    assert_eq!(req.path, "a.txt");
    assert_eq!(req.old_text, "x");
    assert_eq!(req.new_text, "y");
    let missing = ToolArgs::new(r#"{"path": "a.txt", "new_text": "y"}"#.to_string());
    assert_eq!(edit_request(&missing).err(), Some("Missing 'old_text' argument".to_string()));
    let not_json = ToolArgs::new("not json".to_string());
    assert_eq!(edit_request(&not_json).err(), Some("Missing 'path' argument".to_string()));
}

#[test]
fn cache_remembers_the_last_stamp_of_each_path() {
    let mut cache = FileCache::new();
    let t1 = FileStamp { secs: 10, nanos: 5 };
    let t2 = FileStamp { secs: 11, nanos: 0 };
    assert_eq!(cache.get("a"), None);
    cache.record("a", t1);
    cache.record("b", t2);
    assert_eq!(cache.get("a"), Some(t1));
    cache.record("a", t2);
    assert_eq!(cache.get("a"), Some(t2));
    assert_eq!(cache.get("b"), Some(t2));
}

#[test]
fn stale_files_are_refused() {
    let mut cache = FileCache::new();
    let read_at = FileStamp { secs: 100, nanos: 1 };
    cache.record("/tmp/f", read_at);
    assert_eq!(cache.check_fresh("/tmp/f", Some(read_at)), Ok(()));
    assert_eq!(
        cache.check_fresh("/tmp/f", Some(FileStamp { secs: 100, nanos: 2 })),
        Err("Stale file: /tmp/f was modified externally since last read. Please read the file again before editing.".to_string())
    );
    assert_eq!(cache.check_fresh("/tmp/f", None), Ok(()));
    assert_eq!(cache.check_fresh("/tmp/other", Some(read_at)), Ok(()));
}

#[test]
fn edit_success_message() {
    assert_eq!(edited_message("src/main.rs"), "Successfully edited src/main.rs");
}

#[test]
fn a_refused_edit_leaves_the_content() {
    let mut content = "a a".to_string();
    let r = edit_content("f.txt", &mut content, "a", "b");
    assert_eq!(
        r,
        Err("old_text appears 2 times in f.txt. Provide a longer, more unique string to match exactly once.".to_string())
    );
    assert_eq!(content, "a a");
    let mut content = "abc".to_string();
    assert_eq!(edit_content("f.txt", &mut content, "zz", "b"), Err("old_text not found in f.txt".to_string()));
    assert_eq!(content, "abc");
}

#[test]
fn an_accepted_edit_changes_the_content() {
    let mut content = "let x = 1;".to_string();
    assert_eq!(edit_content("f.rs", &mut content, "1", "2"), Ok("Successfully edited f.rs".to_string()));
    assert_eq!(content, "let x = 2;");
}

#[test]
fn overlapping_occurrences_are_not_unique() {
    let mut content = "aaa".to_string();
    assert_eq!(
        edit_content("f.txt", &mut content, "aa", "b"),
        Err("old_text appears 2 times in f.txt. Provide a longer, more unique string to match exactly once.".to_string())
    );
    assert_eq!(content, "aaa");
    assert_eq!(
        apply_edit("g.txt", "abab", "aba", "x"),
        Ok("xb".to_string())
    );
    assert_eq!(
        apply_edit("g.txt", "ababa", "aba", "x"),
        Err("old_text appears 2 times in g.txt. Provide a longer, more unique string to match exactly once.".to_string())
    );
}
