use vstd::prelude::*;

use crate::text::{
    decimal, format_decimal, join, join_spec, lines_of, split_lines, starts_with, starts_with_spec,
    str_eq, views,
};
use crate::tools::args::{missing_argument_message, ToolArgs};

verus! {

/// What `regex::Regex::new` reports for `pattern`: `None` when it compiles,
/// and otherwise the text of its error.
pub uninterp spec fn regex_compile_error(pattern: Seq<char>) -> Option<Seq<char>>;

/// Whether the regular expression compiled from `pattern` matches somewhere in `line`.
pub uninterp spec fn regex_is_match(pattern: Seq<char>, line: Seq<char>) -> bool;

#[verifier::external_type_specification]
#[verifier::external_body]
pub struct ExRegex(regex::Regex);

/// Calls `regex::Regex::new`; on failure the error is turned into its text.
/// The contract names the outcome, a function of the pattern alone.
#[verifier::external_body]
fn compile_regex(pattern: &str) -> (r: Result<regex::Regex, String>)
    ensures
        match r {
            Ok(_) => regex_compile_error(pattern@) is None,
            Err(e) => regex_compile_error(pattern@) == Some(e@),
        },
{
    match regex::Regex::new(pattern) {
        Ok(re) => Ok(re),
        Err(e) => Err(e.to_string()),
    }
}

/// A compiled regular expression together with the pattern it came from.
pub struct Matcher {
    pattern: String,
    re: regex::Regex,
}

/// Calls `regex::Regex::is_match` on the expression that `Matcher::new`
/// compiled from `m`'s pattern (the only way a `Matcher` is made), so the
/// answer is the named one for that pattern and `line`.
#[verifier::external_body]
fn regex_matches(m: &Matcher, line: &str) -> (b: bool)
    ensures
        b == regex_is_match(m.pattern@, line@),
{
    m.re.is_match(line)
}

impl Matcher {
    /// The pattern the expression was compiled from.
    pub closed spec fn source(&self) -> Seq<char> {
        self.pattern@
    }

    /// Compiles `pattern`; fails with "Invalid regex: " and the compiler's error.
    pub fn new(pattern: &str) -> (r: Result<Matcher, String>)
        ensures
            match r {
                Ok(m) => regex_compile_error(pattern@) is None && m.source() == pattern@,
                Err(e) => regex_compile_error(pattern@) is Some
                    && e@ == "Invalid regex: "@ + regex_compile_error(pattern@)->0,
            },
    {
        match compile_regex(pattern) {
            Ok(re) => Ok(Matcher { pattern: pattern.to_owned(), re }),
            Err(msg) => {
                let mut e = String::new();
                e.append("Invalid regex: ");
                e.append(msg.as_str());
                Err(e)
            },
        }
    }

    /// Whether the expression matches somewhere in `line`.
    pub fn is_match(&self, line: &str) -> (b: bool)
        ensures
            b == regex_is_match(self.source(), line@),
    {
        regex_matches(self, line)
    }
}

/// The tool that searches file contents with a regular expression.
pub struct GrepTool;

impl GrepTool {
    /// The tool's name.
    pub fn name(&self) -> (r: &'static str)
        ensures
            r@ == "grep"@,
    {
        "grep"
    }

    /// The tool's description for the model.
    pub fn description(&self) -> (r: &'static str)
        ensures
            r@ == "Search file contents using a regex pattern. Returns matching lines with file paths and line numbers."@,
    {
        "Search file contents using a regex pattern. Returns matching lines with file paths and line numbers."
    }
}

/// The most matches that one search reports.
pub const MAX_RESULTS: usize = 100;

/// The arguments of a search: the pattern, and where to search ("." when not given).
pub struct GrepRequest {
    pub pattern: String,
    pub path: String,
}

/// Reads the arguments `pattern` (required) and `path` (default ".").
pub fn grep_request(args: &ToolArgs) -> (r: Result<GrepRequest, String>)
    ensures
        match r {
            Ok(req) => args.field("pattern"@) == Some(req.pattern@) && req.path@ == match args.field(
                "path"@,
            ) {
                Some(p) => p,
                None => "."@,
            },
            Err(e) => args.field("pattern"@) is None && e@ == missing_argument_message("pattern"@),
        },
{
    let pattern = args.require_str("pattern")?;
    let path = args.str_or_current_dir("path");
    Ok(GrepRequest { pattern, path })
}

/// How a match is reported: the file, the line number counting from one, and the line.
pub open spec fn hit_line(file: Seq<char>, number: nat, line: Seq<char>) -> Seq<char> {
    file + ":"@ + decimal(number) + ": "@ + line
}

/// The reports of all lines of `lines` that the expression from `pattern` matches, in order.
pub open spec fn grep_hits(file: Seq<char>, lines: Seq<Seq<char>>, pattern: Seq<char>) -> Seq<Seq<char>>
    decreases lines.len(),
{
    if lines.len() == 0 {
        seq![]
    } else {
        let prev = grep_hits(file, lines.drop_last(), pattern);
        if regex_is_match(pattern, lines.last()) {
            prev.push(hit_line(file, lines.len(), lines.last()))
        } else {
            prev
        }
    }
}

/// Whether `report` is how the search of `file` reports one of its `lines`
/// that the expression from `pattern` matches: the file, the line's number
/// counting from one, and the line.
pub open spec fn reports_a_matching_line(file: Seq<char>, lines: Seq<Seq<char>>, pattern: Seq<char>, report: Seq<char>) -> bool {
    exists|i: int|
        0 <= i < lines.len() && regex_is_match(pattern, #[trigger] lines[i])
            && report == file + ":"@ + decimal((i + 1) as nat) + ": "@ + lines[i]
}

/// Every report of a search comes from a matching line of the file, and
/// there are no more reports than lines.
pub proof fn lemma_hits_come_from_matching_lines(file: Seq<char>, lines: Seq<Seq<char>>, pattern: Seq<char>)
    ensures
        grep_hits(file, lines, pattern).len() <= lines.len(),
        forall|k: int| 0 <= k < grep_hits(file, lines, pattern).len()
            ==> reports_a_matching_line(file, lines, pattern, #[trigger] grep_hits(file, lines, pattern)[k]),
    decreases lines.len(),
{
    if lines.len() > 0 {
        let front = lines.drop_last();
        lemma_hits_come_from_matching_lines(file, front, pattern);
        let prev = grep_hits(file, front, pattern);
        let hits = grep_hits(file, lines, pattern);
        assert forall|k: int| 0 <= k < hits.len() implies reports_a_matching_line(file, lines, pattern, #[trigger] hits[k]) by {
            if k < prev.len() {
                assert(hits[k] == prev[k]);
                assert(reports_a_matching_line(file, front, pattern, prev[k]));
                let i = choose|i: int|
                    0 <= i < front.len() && regex_is_match(pattern, #[trigger] front[i])
                        && prev[k] == file + ":"@ + decimal((i + 1) as nat) + ": "@ + front[i];
                assert(front[i] == lines[i]);
            } else {
                let i = lines.len() - 1;
                assert(lines.last() == lines[i]);
                assert(regex_is_match(pattern, lines[i]));
                assert(hits[k] == file + ":"@ + decimal((i + 1) as nat) + ": "@ + lines[i]);
            }
        }
    }
}

/// When every line of a file matches, each line is reported, in order, as
/// the file, its number counting from one, and the line; when no line
/// matches, nothing is reported.
pub proof fn lemma_every_matching_line_is_reported(file: Seq<char>, lines: Seq<Seq<char>>, pattern: Seq<char>)
    ensures
        (forall|i: int| 0 <= i < lines.len() ==> regex_is_match(pattern, #[trigger] lines[i])) ==> {
            &&& grep_hits(file, lines, pattern).len() == lines.len()
            &&& forall|i: int| 0 <= i < lines.len() ==> #[trigger] grep_hits(file, lines, pattern)[i]
                == file + ":"@ + decimal((i + 1) as nat) + ": "@ + lines[i]
        },
        (forall|i: int| 0 <= i < lines.len() ==> !regex_is_match(pattern, #[trigger] lines[i]))
            ==> grep_hits(file, lines, pattern).len() == 0,
    decreases lines.len(),
{
    if lines.len() > 0 {
        let front = lines.drop_last();
        lemma_every_matching_line_is_reported(file, front, pattern);
        if forall|i: int| 0 <= i < lines.len() ==> regex_is_match(pattern, #[trigger] lines[i]) {
            assert forall|i: int| 0 <= i < front.len() implies regex_is_match(pattern, #[trigger] front[i]) by {
                assert(front[i] == lines[i]);
            }
            let hits = grep_hits(file, lines, pattern);
            assert forall|i: int| 0 <= i < lines.len() implies #[trigger] hits[i]
                == file + ":"@ + decimal((i + 1) as nat) + ": "@ + lines[i] by {
                if i < front.len() {
                    assert(front[i] == lines[i]);
                }
            }
        }
        if forall|i: int| 0 <= i < lines.len() ==> !regex_is_match(pattern, #[trigger] lines[i]) {
            assert forall|i: int| 0 <= i < front.len() implies !regex_is_match(pattern, #[trigger] front[i]) by {
                assert(front[i] == lines[i]);
            }
            assert(!regex_is_match(pattern, lines[lines.len() - 1]));
        }
    }
}

/// How many more matches may be reported when `count` were reported and at most `max` may be.
pub open spec fn room(count: nat, max: nat, available: nat) -> nat {
    if count >= max {
        0
    } else if available < max - count {
        available
    } else {
        (max - count) as nat
    }
}

/// Searches the text `content` of the file `file_path` line by line, adding
/// a report for each matching line to `results` until `match_count` reaches `max`.
pub fn grep_text(
    file_path: &str,
    content: &str,
    m: &Matcher,
    results: &mut Vec<String>,
    match_count: &mut usize,
    max: usize,
)
    ensures
        ({
            let hits = grep_hits(file_path@, lines_of(content@), m.source());
            let k = room(*old(match_count) as nat, max as nat, hits.len());
            &&& views(final(results)@) == views(old(results)@) + hits.take(k as int)
            &&& *final(match_count) == *old(match_count) + k
        }),
        *old(match_count) <= max ==> *final(match_count) <= max,
        *final(match_count) - *old(match_count) == views(final(results)@).len() - views(old(results)@).len(),
{
    let lines = split_lines(content);
    let ghost ls = lines_of(content@);
    let ghost start = views(results@);
    let ghost c0 = *match_count as nat;
    let n = lines.len();
    assert(ls.take(0) =~= Seq::<Seq<char>>::empty());
    for i in 0..n
        invariant
            n == lines@.len(),
            views(lines@) == ls,
            ({
                let hits = grep_hits(file_path@, ls.take(i as int), m.source());
                let k = room(c0, max as nat, hits.len());
                &&& views(results@) == start + hits.take(k as int)
                &&& *match_count == c0 + k
            }),
    {
        let ghost prev_hits = grep_hits(file_path@, ls.take(i as int), m.source());
        assert(ls.take(i + 1).drop_last() =~= ls.take(i as int));
        assert(ls.take(i + 1).last() == lines@[i as int]@);
        let ghost next_hits = grep_hits(file_path@, ls.take(i + 1), m.source());
        if *match_count < max {
            if m.is_match(lines[i].as_str()) {
                let mut hit = file_path.to_owned();
                hit.append(":");
                let num = format_decimal(i as u128 + 1);
                hit.append(num.as_str());
                hit.append(": ");
                hit.append(lines[i].as_str());
                assert(hit@ =~= hit_line(file_path@, (i + 1) as nat, lines@[i as int]@));
                let ghost before = results@;
                results.push(hit);
                assert(views(results@) =~= views(before).push(hit@));
                assert(next_hits == prev_hits.push(hit@));
                assert(next_hits.take(room(c0, max as nat, next_hits.len()) as int) =~= prev_hits.take(
                    room(c0, max as nat, prev_hits.len()) as int,
                ).push(hit@));
                *match_count = *match_count + 1;
            } else {
                assert(next_hits == prev_hits);
            }
        } else {
            assert(next_hits.take(room(c0, max as nat, next_hits.len()) as int) =~= prev_hits.take(
                room(c0, max as nat, prev_hits.len()) as int,
            ));
        }
    }
    assert(ls.take(n as int) =~= ls);
    proof {
        lemma_search_respects_the_cap(file_path@, content@, m.source(), c0, max as nat);
    }
}

/// A search never reports more than `max` matches in all: a file searched
/// after `count` matches adds no more reports than its matching lines, never
/// takes the total past `max`, and stops short of its matching lines only
/// when the total has reached `max`.
pub proof fn lemma_search_respects_the_cap(file: Seq<char>, content: Seq<char>, pattern: Seq<char>, count: nat, max: nat)
    ensures
        ({
            let matching = grep_hits(file, lines_of(content), pattern).len();
            let added = room(count, max, matching);
            &&& added <= matching
            &&& count <= max ==> count + added <= max
            &&& count >= max ==> added == 0
            &&& added < matching ==> count + added >= max
        }),
{
}

/// An entry of a directory tree to search: its name, its full path, whether
/// it is a directory or a regular file, and (for a directory) its entries in
/// the order they were read.
pub struct SearchEntry {
    pub name: String,
    pub path: String,
    pub is_dir: bool,
    pub is_file: bool,
    pub children: Vec<SearchEntry>,
}

/// The files a search reads, in order, among the first `m` entries of
/// `entries`: entries with skipped names are left out, a directory stands
/// for the files found in it, a regular file for itself, anything else for nothing.
pub open spec fn files_among(entries: Seq<SearchEntry>, m: nat) -> Seq<Seq<char>>
    decreases entries, m,
{
    if m == 0 || m > entries.len() {
        seq![]
    } else {
        files_among(entries, (m - 1) as nat) + files_of_entry(entries[m - 1])
    }
}

/// The files a search reads for the entry `e` (see `files_among`).
pub open spec fn files_of_entry(e: SearchEntry) -> Seq<Seq<char>>
    decreases e, 0nat,
{
    if should_skip_spec(e.name@) {
        seq![]
    } else if e.is_dir {
        files_among(e.children@, e.children@.len())
    } else if e.is_file {
        seq![e.path@]
    } else {
        seq![]
    }
}

/// The files a search of the entries `entries` reads, in order.
pub open spec fn search_files(entries: Seq<SearchEntry>) -> Seq<Seq<char>> {
    files_among(entries, entries.len())
}

fn collect_files(entries: &Vec<SearchEntry>, out: &mut Vec<String>)
    ensures
        views(final(out)@) == views(old(out)@) + search_files(entries@),
    decreases entries@,
{
    let n = entries.len();
    let ghost start = views(out@);
    for i in 0..n
        invariant
            n == entries@.len(),
            views(out@) == start + files_among(entries@, i as nat),
    {
        let e = &entries[i];
        let ghost before = views(out@);
        if should_skip(e.name.as_str()) {
        } else if e.is_dir {
            collect_files(&e.children, out);
        } else if e.is_file {
            out.push(e.path.clone());
            assert(views(out@) =~= before.push(e.path@));
        }
        assert(views(out@) =~= before + files_of_entry(entries@[i as int]));
    }
}

/// A search under way: the files it reads, in order, and how many it has handed out.
pub struct GrepWalk {
    files: Vec<String>,
    next: usize,
}

impl GrepWalk {
    /// The files the search reads, in order.
    pub closed spec fn files(&self) -> Seq<Seq<char>> {
        views(self.files@)
    }

    /// How many files were handed out.
    pub closed spec fn position(&self) -> nat {
        self.next as nat
    }

    /// A search of the directory whose entries are `entries`.
    pub fn of_directory(entries: &Vec<SearchEntry>) -> (w: Self)
        ensures
            w.files() == search_files(entries@),
            w.position() == 0,
    {
        let mut files: Vec<String> = Vec::new();
        collect_files(entries, &mut files);
        assert(views(files@) =~= search_files(entries@));
        GrepWalk { files, next: 0 }
    }

    /// A search of the one file `path`.
    pub fn of_file(path: &str) -> (w: Self)
        ensures
            w.files() == seq![path@],
            w.position() == 0,
    {
        let mut files: Vec<String> = Vec::new();
        files.push(path.to_owned());
        assert(views(files@) =~= seq![path@]);
        GrepWalk { files, next: 0 }
    }

    /// The next file to read, when `match_count` matches are fewer than `max`
    /// and files are left; otherwise the search is over and nothing is handed out.
    pub fn next_file(&mut self, match_count: usize, max: usize) -> (r: Option<String>)
        ensures
            final(self).files() == old(self).files(),
            (match_count < max && old(self).position() < old(self).files().len()) ==> {
                &&& r matches Some(p) && p@ == old(self).files()[old(self).position() as int]
                &&& final(self).position() == old(self).position() + 1
            },
            !(match_count < max && old(self).position() < old(self).files().len()) ==> {
                &&& r is None
                &&& final(self).position() == old(self).position()
            },
    {
        if match_count < max && self.next < self.files.len() {
            let p = self.files[self.next].clone();
            self.next = self.next + 1;
            Some(p)
        } else {
            None
        }
    }
}

/// The answer of a search that reported `results` and counted `match_count` matches.
pub open spec fn grep_report_spec(results: Seq<Seq<char>>, match_count: nat, max: nat) -> Seq<char> {
    if results.len() == 0 {
        "No matches found."@
    } else if match_count >= max {
        join_spec(results, "\n"@) + "\n\n... showing first "@ + decimal(max) + " matches ("@
            + decimal(match_count) + " total)"@
    } else {
        join_spec(results, "\n"@)
    }
}

/// The answer of a search that reported `results` and counted `match_count` matches.
pub fn grep_report(results: &Vec<String>, match_count: usize, max: usize) -> (r: String)
    ensures
        r@ == grep_report_spec(views(results@), match_count as nat, max as nat),
{
    if results.len() == 0 {
        return "No matches found.".to_owned();
    }
    let mut out = join(results, "\n");
    if match_count >= max {
        out.append("\n\n... showing first ");
        let a = format_decimal(max as u128);
        out.append(a.as_str());
        out.append(" matches (");
        let b = format_decimal(match_count as u128);
        out.append(b.as_str());
        out.append(" total)");
    }
    out
}

/// Whether a directory entry named `name` is left out of searches and listings:
/// version control, dependency and build directories, and the agent's own files.
pub open spec fn should_skip_spec(name: Seq<char>) -> bool {
    ||| name == ".git"@
    ||| name == "node_modules"@
    ||| name == "target"@
    ||| name == "__pycache__"@
    ||| name == ".next"@
    ||| name == "dist"@
    ||| name == "build"@
    ||| starts_with_spec(name, ".niche"@)
}

/// Whether a directory entry named `name` is left out of searches and listings.
pub fn should_skip(name: &str) -> (r: bool)
    ensures
        r == should_skip_spec(name@),
{
    str_eq(name, ".git") || str_eq(name, "node_modules") || str_eq(name, "target") || str_eq(
        name,
        "__pycache__",
    ) || str_eq(name, ".next") || str_eq(name, "dist") || str_eq(name, "build") || starts_with(
        name,
        ".niche",
    )
}

} // verus!
