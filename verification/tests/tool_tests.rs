use niche::tools::args::ToolArgs;
use niche::tools::glob_tool::{full_pattern, glob_report, glob_request, invalid_pattern_message, is_in_excluded_dir};
use niche::tools::grep::{grep_report, grep_request, grep_text, should_skip, GrepWalk, Matcher, SearchEntry};
use niche::tools::list_files::{listing_report, path_not_found, DirNode};
use niche::tools::read_file::{expand_home, file_not_found, number_lines};
use niche::tools::run_command::{command_report, command_request, launch_failure};
use niche::tools::write_file::{write_request, write_summary};

#[test]
fn numbered_lines_are_right_aligned() {
    assert_eq!(number_lines("fn main() {\n}\n"), "   1 | fn main() {\n   2 | }");
    assert_eq!(number_lines(""), "");
    let many: String = (0..12).map(|i| format!("l{i}\n")).collect();
    let out = number_lines(&many);
    assert!(out.ends_with("  12 | l11"));
    let expected: Vec<String> = many.lines().enumerate().map(|(i, l)| format!("{:>4} | {}", i + 1, l)).collect();
    assert_eq!(out, expected.join("\n"));
}

#[test]
fn tilde_expands_to_home() {
    assert_eq!(expand_home("~/notes.txt", Some("/home/u")), "/home/u/notes.txt");
    assert_eq!(expand_home("~/notes.txt", None), "~/notes.txt");
    assert_eq!(expand_home("~notes", Some("/home/u")), "~notes");
    assert_eq!(expand_home("/abs", Some("/home/u")), "/abs");
}

#[test]
fn missing_files_are_reported() {
    assert_eq!(file_not_found("x.txt"), "File not found: x.txt");
    assert_eq!(path_not_found("dir"), "Path not found: dir");
}

#[test]
fn invalid_regex_is_reported() {
    let err = Matcher::new("(unclosed").err().unwrap();
    assert!(err.starts_with("Invalid regex: "));
    assert!(err.len() > "Invalid regex: ".len());
}

#[test]
fn grep_reports_matching_lines_with_numbers() {
    let m = Matcher::new(r"fn \w+").unwrap();
    assert!(m.is_match("pub fn run() {"));
    assert!(!m.is_match("let x = 1;"));
    let mut results = Vec::new();
    let mut count = 0usize;
    grep_text("src/lib.rs", "use x;\nfn a() {}\n\nfn b() {}\n", &m, &mut results, &mut count, 100);
    assert_eq!(results, vec!["src/lib.rs:2: fn a() {}".to_string(), "src/lib.rs:4: fn b() {}".to_string()]);
    assert_eq!(count, 2);
    assert_eq!(grep_report(&results, count, 100), "src/lib.rs:2: fn a() {}\nsrc/lib.rs:4: fn b() {}");
}

#[test]
fn grep_stops_at_the_limit() {
    let m = Matcher::new("x").unwrap();
    let mut results = Vec::new();
    let mut count = 0usize;
    grep_text("f", "x1\nx2\nx3\n", &m, &mut results, &mut count, 2);
    assert_eq!(results.len(), 2);
    assert_eq!(count, 2);
    assert_eq!(grep_report(&results, count, 2), "f:1: x1\nf:2: x2\n\n... showing first 2 matches (2 total)");
    assert_eq!(grep_report(&Vec::new(), 0, 100), "No matches found.");
}

#[test]
fn skipped_directory_names() {
    for name in [".git", "node_modules", "target", "__pycache__", ".next", "dist", "build", ".niche_sessions"] {
        assert!(should_skip(name), "{name}");
    }
    for name in ["src", "targets", "git", "nichefile"] {
        assert!(!should_skip(name), "{name}");
    }
}

#[test]
fn grep_and_glob_arguments() {
    let args = ToolArgs::new(r#"{"pattern": "TODO"}"#.to_string());
    let g = grep_request(&args).unwrap();
    assert_eq!(g.pattern, "TODO");
    assert_eq!(g.path, ".");
    let args = ToolArgs::new(r#"{"pattern": "*.rs", "path": "src"}"#.to_string());
    let g = glob_request(&args).unwrap();
    assert_eq!(g.path, "src");
    let none = ToolArgs::new(r#"{"pattern": 3}"#.to_string());
    assert_eq!(grep_request(&none).err(), Some("Missing 'pattern' argument".to_string()));
}

#[test]
fn glob_pattern_is_placed_under_the_base() {
    assert_eq!(full_pattern("**/*.rs", ".", None), "./**/*.rs");
    assert_eq!(full_pattern("*.toml", "~/proj", Some("/home/u")), "/home/u/proj/*.toml");
    assert_eq!(full_pattern("/etc/*.conf", "src", None), "/etc/*.conf");
    assert_eq!(full_pattern("~/x/*", "src", Some("/h")), "/h/x/*");
}

#[test]
fn glob_report_sorts_and_filters() {
    let found = vec![
        "./src/b.rs".to_string(),
        "./target/debug/x.rs".to_string(),
        "./src/a.rs".to_string(),
        ".\\win\\c.rs".to_string(),
    ];
    assert_eq!(glob_report(&found), "./src/a.rs\n./src/b.rs\n./win/c.rs\n\n3 file(s) matched.");
    assert_eq!(glob_report(&Vec::new()), "No files matched.");
    assert!(is_in_excluded_dir("a/node_modules/b"));
    assert!(!is_in_excluded_dir("node_modules/b"));
    assert_eq!(invalid_pattern_message("bad"), "Invalid glob pattern: bad");
}

fn file(name: &str) -> DirNode {
    DirNode { name: name.to_string(), is_dir: false, children: Vec::new() }
}

fn dir(name: &str, children: Vec<DirNode>) -> DirNode {
    DirNode { name: name.to_string(), is_dir: true, children }
}

#[test]
fn listing_is_sorted_and_indented() {
    let tree = vec![
        file("z.txt"),
        dir("src", vec![file("main.rs"), file("lib.rs")]),
        dir("target", vec![file("junk")]),
        file("Cargo.toml"),
    ];
    assert_eq!(listing_report(&tree), "Cargo.toml\nsrc/\n  lib.rs\n  main.rs\nz.txt");
    assert_eq!(listing_report(&Vec::new()), "(empty directory)");
}

#[test]
fn listing_stops_below_the_fourth_level() {
    let tree = vec![dir("a", vec![dir("b", vec![dir("c", vec![dir("d", vec![dir("e", vec![file("f")])])])])])];
    assert_eq!(listing_report(&tree), "a/\n  b/\n    c/\n      d/");
}

#[test]
fn command_output_is_assembled() {
    assert_eq!(command_report("out\n", "", true, Some(0)), "out\n");
    assert_eq!(command_report("", "", true, Some(0)), "(no output)");
    assert_eq!(command_report("a", "b", true, Some(0)), "a\n[stderr]\nb");
    assert_eq!(command_report("", "oops", false, Some(2)), "[exit code: 2]\n[stderr]\noops");
    assert_eq!(command_report("", "", false, None), "[exit code: -1]\n(no output)");
    assert_eq!(launch_failure("no sh"), "Failed to execute command: no sh");
    let args = ToolArgs::new(r#"{"command": "ls -la"}"#.to_string());
    assert_eq!(command_request(&args), Ok("ls -la".to_string()));
}

#[test]
fn write_summary_counts_bytes() {
    assert_eq!(write_summary("héllo", "a.txt"), "Wrote 6 bytes to a.txt");
    let args = ToolArgs::new(r#"{"path": "p", "content": "c"}"#.to_string());
    let req = write_request(&args).unwrap();
    assert_eq!((req.path.as_str(), req.content.as_str()), ("p", "c"));
    let missing = ToolArgs::new(r#"{"path": "p"}"#.to_string());
    assert_eq!(write_request(&missing).err(), Some("Missing 'content' argument".to_string()));
}

#[test]
fn tool_arguments_come_from_json() {
    let args = ToolArgs::new(r#"{"path": "x.rs", "n": 3}"#.to_string());
    assert_eq!(args.get_str("path"), Some("x.rs".to_string()));
    assert_eq!(args.get_str("n"), None);
    assert_eq!(args.get_str("missing"), None);
    assert_eq!(args.str_or_current_dir("missing"), ".");
}

fn search_file_entry(name: &str, path: &str) -> SearchEntry {
    SearchEntry { name: name.into(), path: path.into(), is_dir: false, is_file: true, children: Vec::new() }
}

fn search_dir_entry(name: &str, path: &str, children: Vec<SearchEntry>) -> SearchEntry {
    SearchEntry { name: name.into(), path: path.into(), is_dir: true, is_file: false, children }
}

#[test]
fn a_search_walks_the_tree_in_order_and_skips_names() {
    let tree = vec![
        search_file_entry("a.rs", "./a.rs"),
        search_dir_entry("target", "./target", vec![search_file_entry("x.rs", "./target/x.rs")]),
        search_dir_entry("src", "./src", vec![search_file_entry("b.rs", "./src/b.rs"), search_dir_entry("deep", "./src/deep", vec![search_file_entry("c.rs", "./src/deep/c.rs")])]),
        search_file_entry(".niche_notes", "./.niche_notes"),
        SearchEntry { name: "link".into(), path: "./link".into(), is_dir: false, is_file: false, children: Vec::new() },
        search_file_entry("d.rs", "./d.rs"),
    ];
    let mut walk = GrepWalk::of_directory(&tree);
    let mut seen = Vec::new();
    while let Some(f) = walk.next_file(0, 100) {
        seen.push(f);
    }
    assert_eq!(seen, vec!["./a.rs", "./src/b.rs", "./src/deep/c.rs", "./d.rs"]);
}

#[test]
fn a_search_stops_at_the_limit() {
    let tree = vec![search_file_entry("a.rs", "./a.rs"), search_file_entry("b.rs", "./b.rs")];
    let mut walk = GrepWalk::of_directory(&tree);
    assert_eq!(walk.next_file(99, 100), Some("./a.rs".to_string()));
    assert_eq!(walk.next_file(100, 100), None);
    let mut one = GrepWalk::of_file("notes.txt");
    assert_eq!(one.next_file(0, 100), Some("notes.txt".to_string()));
    assert_eq!(one.next_file(0, 100), None);
}
