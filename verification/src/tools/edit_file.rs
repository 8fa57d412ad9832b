use vstd::prelude::*;

use crate::text::{
    count_all_positions, count_matches, count_occurrences, count_positions, decimal, format_decimal,
    from_chars, lemma_position_exists, lemma_two_positions, occurs_at, replace_first,
    replace_first_occurrence, to_chars,
};
use crate::tools::args::ToolArgs;

verus! {

/// The tool that edits a file by replacing one exact occurrence of a text.
pub struct EditFileTool;

impl EditFileTool {
    /// The tool's name.
    pub fn name(&self) -> (r: &'static str)
        ensures
            r@ == "edit_file"@,
    {
        "edit_file"
    }

    /// The tool's description for the model.
    pub fn description(&self) -> (r: &'static str)
        ensures
            r@ == "Edit a file by replacing exact text. The old text must appear exactly once in the file. You must read the file with read_file before editing it."@,
    {
        "Edit a file by replacing exact text. The old text must appear exactly once in the file. You must read the file with read_file before editing it."
    }
}

/// The three arguments of an edit.
pub struct EditRequest {
    pub path: String,
    pub old_text: String,
    pub new_text: String,
}

/// Reads the arguments `path`, `old_text` and `new_text`, in that order,
/// failing on the first one that is missing.
pub fn edit_request(args: &ToolArgs) -> (r: Result<EditRequest, String>)
    ensures
        match r {
            Ok(req) => {
                &&& args.field("path"@) == Some(req.path@)
                &&& args.field("old_text"@) == Some(req.old_text@)
                &&& args.field("new_text"@) == Some(req.new_text@)
            },
            Err(e) => {
                ||| args.field("path"@) is None && e@ == crate::tools::args::missing_argument_message("path"@)
                ||| args.field("path"@) is Some && args.field("old_text"@) is None
                    && e@ == crate::tools::args::missing_argument_message("old_text"@)
                ||| args.field("path"@) is Some && args.field("old_text"@) is Some
                    && args.field("new_text"@) is None
                    && e@ == crate::tools::args::missing_argument_message("new_text"@)
            },
        },
{
    let path = args.require_str("path")?;
    let old_text = args.require_str("old_text")?;
    let new_text = args.require_str("new_text")?;
    Ok(EditRequest { path, old_text, new_text })
}

/// The straight quote that stands for a curly one; other characters stay.
pub open spec fn straight_quote(c: char) -> char {
    if c == '\u{2018}' || c == '\u{2019}' {
        '\''
    } else if c == '\u{201C}' || c == '\u{201D}' {
        '"'
    } else {
        c
    }
}

/// `s` with its curly single and double quotes made straight.
pub open spec fn normalize_quotes_spec(s: Seq<char>) -> Seq<char> {
    s.map_values(|c: char| straight_quote(c))
}

fn straighten(v: &Vec<char>) -> (out: Vec<char>)
    ensures
        out@ == normalize_quotes_spec(v@),
{
    let mut out: Vec<char> = Vec::new();
    let n = v.len();
    for i in 0..n
        invariant
            n == v@.len(),
            out@ == normalize_quotes_spec(v@.take(i as int)),
    {
        let c = v[i];
        let d = if c == '\u{2018}' || c == '\u{2019}' {
            '\''
        } else if c == '\u{201C}' || c == '\u{201D}' {
            '"'
        } else {
            c
        };
        out.push(d);
        assert(normalize_quotes_spec(v@.take(i + 1)) =~= normalize_quotes_spec(v@.take(i as int)).push(d));
    }
    assert(v@.take(n as int) =~= v@);
    out
}

/// `s` with its curly single and double quotes made straight.
pub fn normalize_quotes(s: &str) -> (r: String)
    ensures
        r@ == normalize_quotes_spec(s@),
{
    let v = to_chars(s);
    let out = straighten(&v);
    from_chars(out.as_slice())
}

/// The error when the old text is missing but matches once with quotes made straight.
pub open spec fn quote_hint_message(path: Seq<char>) -> Seq<char> {
    "No exact match found, but a match exists with different quote styles. Check curly vs straight quotes. Original text not found in "@
        + path + "."@
}

/// The error when the old text does not occur.
pub open spec fn not_found_message(path: Seq<char>) -> Seq<char> {
    "old_text not found in "@ + path
}

/// The error when the old text occurs `n` times, more than once.
pub open spec fn ambiguous_message(n: nat, path: Seq<char>) -> Seq<char> {
    "old_text appears "@ + decimal(n) + " times in "@ + path
        + ". Provide a longer, more unique string to match exactly once."@
}

/// What an edit of the file `path` holding `content` gives: the new content
/// when `old_text` occurs at exactly one position (overlapping occurrences
/// count apart), and otherwise the error to report.
pub open spec fn edit_outcome(
    path: Seq<char>,
    content: Seq<char>,
    old_text: Seq<char>,
    new_text: Seq<char>,
) -> Result<Seq<char>, Seq<char>> {
    let n = count_positions(content, old_text);
    if n == 0 {
        if count_matches(normalize_quotes_spec(content), normalize_quotes_spec(old_text)) == 1 {
            Err(quote_hint_message(path))
        } else {
            Err(not_found_message(path))
        }
    } else if n == 1 {
        Ok(replace_first(content, old_text, new_text))
    } else {
        Err(ambiguous_message(n, path))
    }
}

/// Decides an edit of the file `path` whose content is `content`: replaces the
/// one occurrence of `old_text` by `new_text`, or says why it cannot.
pub fn apply_edit(path: &str, content: &str, old_text: &str, new_text: &str) -> (r: Result<
    String,
    String,
>)
    ensures
        match r {
            Ok(s) => edit_outcome(path@, content@, old_text@, new_text@) == Ok::<Seq<char>, Seq<char>>(s@),
            Err(e) => edit_outcome(path@, content@, old_text@, new_text@) == Err::<Seq<char>, Seq<char>>(e@),
        },
{
    let text = to_chars(content);
    let old = to_chars(old_text);
    let n = count_all_positions(&text, &old);
    if n == 0 {
        let norm_text = straighten(&text);
        let norm_old = straighten(&old);
        let m = count_occurrences(&norm_text, &norm_old);
        let mut e = String::new();
        if m == 1 {
            e.append("No exact match found, but a match exists with different quote styles. Check curly vs straight quotes. Original text not found in ");
            e.append(path);
            e.append(".");
        } else {
            e.append("old_text not found in ");
            e.append(path);
        }
        Err(e)
    } else if n == 1 {
        let new = to_chars(new_text);
        let out = replace_first_occurrence(&text, &old, &new);
        Ok(from_chars(out.as_slice()))
    } else {
        let mut e = String::new();
        e.append("old_text appears ");
        let count = format_decimal(n);
        e.append(count.as_str());
        e.append(" times in ");
        e.append(path);
        e.append(". Provide a longer, more unique string to match exactly once.");
        Err(e)
    }
}

/// The report of a successful edit.
pub fn edited_message(path: &str) -> (r: String)
    ensures
        r@ == "Successfully edited "@ + path@,
{
    let mut r = String::new();
    r.append("Successfully edited ");
    r.append(path);
    r
}

/// Edits `content`, the text of the file `path`, in place: replaces the one
/// occurrence of `old_text` by `new_text` and gives the report, or refuses
/// and gives the error. A refused edit leaves `content` as it was, so there
/// is nothing to write back.
pub fn edit_content(path: &str, content: &mut String, old_text: &str, new_text: &str) -> (r: Result<String, String>)
    ensures
        r is Err ==> final(content)@ == old(content)@,
        match edit_outcome(path@, old(content)@, old_text@, new_text@) {
            Ok(s) => r matches Ok(m) && m@ == "Successfully edited "@ + path@ && final(content)@ == s,
            Err(e) => r matches Err(m) && m@ == e,
        },
{
    match apply_edit(path, content.as_str(), old_text, new_text) {
        Ok(s) => {
            *content = s;
            Ok(edited_message(path))
        },
        Err(e) => Err(e),
    }
}

/// When a file was last modified, as seconds and nanoseconds since the Unix epoch.
#[derive(Clone, Copy, Debug, PartialEq, Eq, Structural)]
pub struct FileStamp {
    pub secs: u64,
    pub nanos: u32,
}

/// The modification time last seen for each file path that was read or edited.
pub struct FileCache {
    entries: Vec<(String, FileStamp)>,
}

/// The map that the list `s` of (path, stamp) pairs stands for; a later pair wins.
pub open spec fn entries_map(s: Seq<(String, FileStamp)>) -> Map<Seq<char>, FileStamp>
    decreases s.len(),
{
    if s.len() == 0 {
        Map::empty()
    } else {
        entries_map(s.drop_last()).insert(s.last().0@, s.last().1)
    }
}

/// Whether no path occurs twice in `s`.
pub open spec fn distinct_paths(s: Seq<(String, FileStamp)>) -> bool {
    forall|i: int, j: int| 0 <= i < j < s.len() ==> s[i].0@ != s[j].0@
}

proof fn lemma_entries_map_absent(s: Seq<(String, FileStamp)>, k: Seq<char>)
    requires
        forall|i: int| 0 <= i < s.len() ==> s[i].0@ != k,
    ensures
        !entries_map(s).contains_key(k),
    decreases s.len(),
{
    if s.len() > 0 {
        lemma_entries_map_absent(s.drop_last(), k);
    }
}

proof fn lemma_entries_map_at(s: Seq<(String, FileStamp)>, i: int)
    requires
        distinct_paths(s),
        0 <= i < s.len(),
    ensures
        entries_map(s).contains_key(s[i].0@),
        entries_map(s)[s[i].0@] == s[i].1,
    decreases s.len(),
{
    if i < s.len() - 1 {
        lemma_entries_map_at(s.drop_last(), i);
    }
}

proof fn lemma_entries_map_update(s: Seq<(String, FileStamp)>, i: int, e: (String, FileStamp))
    requires
        distinct_paths(s),
        0 <= i < s.len(),
        s[i].0@ == e.0@,
    ensures
        entries_map(s.update(i, e)) == entries_map(s).insert(e.0@, e.1),
        distinct_paths(s.update(i, e)),
    decreases s.len(),
{
    let t = s.update(i, e);
    if i == s.len() - 1 {
        assert(t.drop_last() =~= s.drop_last());
        assert(entries_map(t) =~= entries_map(s).insert(e.0@, e.1));
    } else {
        assert(t.drop_last() =~= s.drop_last().update(i, e));
        lemma_entries_map_update(s.drop_last(), i, e);
        assert(s.last().0@ != e.0@);
        assert(entries_map(t) =~= entries_map(s).insert(e.0@, e.1));
    }
}

impl FileCache {
    /// The modification time recorded for each path.
    pub closed spec fn view(&self) -> Map<Seq<char>, FileStamp> {
        entries_map(self.entries@)
    }

    /// No path is held twice.
    pub closed spec fn wf(&self) -> bool {
        distinct_paths(self.entries@)
    }

    /// A cache that holds nothing.
    pub fn new() -> (c: Self)
        ensures
            c.wf(),
            c.view() == Map::<Seq<char>, FileStamp>::empty(),
    {
        FileCache { entries: Vec::new() }
    }

    /// The modification time recorded for `path`.
    pub fn get(&self, path: &str) -> (r: Option<FileStamp>)
        requires
            self.wf(),
        ensures
            r == (if self.view().contains_key(path@) {
                Some(self.view()[path@])
            } else {
                None
            }),
    {
        let n = self.entries.len();
        for i in 0..n
            invariant
                n == self.entries@.len(),
                distinct_paths(self.entries@),
                forall|j: int| 0 <= j < i ==> self.entries@[j].0@ != path@,
        {
            if crate::text::str_eq(self.entries[i].0.as_str(), path) {
                proof {
                    lemma_entries_map_at(self.entries@, i as int);
                }
                return Some(self.entries[i].1);
            }
        }
        proof {
            lemma_entries_map_absent(self.entries@, path@);
        }
        None
    }

    /// Records `stamp` as the modification time of `path`.
    pub fn record(&mut self, path: &str, stamp: FileStamp)
        requires
            old(self).wf(),
        ensures
            final(self).wf(),
            final(self).view() == old(self).view().insert(path@, stamp),
    {
        let n = self.entries.len();
        let key = path.to_owned();
        for i in 0..n
            invariant
                n == self.entries@.len(),
                self.entries@ == old(self).entries@,
                distinct_paths(self.entries@),
                key@ == path@,
                forall|j: int| 0 <= j < i ==> self.entries@[j].0@ != path@,
        {
            if crate::text::str_eq(self.entries[i].0.as_str(), path) {
                proof {
                    lemma_entries_map_update(self.entries@, i as int, (key, stamp));
                }
                self.entries.set(i, (key, stamp));
                return;
            }
        }
        self.entries.push((key, stamp));
        assert(self.entries@.drop_last() =~= old(self).entries@);
    }

    /// Refuses an edit of `path` whose modification time is now `current`
    /// when another time was recorded for it: the file changed since it was read.
    /// Where no time could be read, or none was recorded, the edit may go on.
    pub fn check_fresh(&self, path: &str, current: Option<FileStamp>) -> (r: Result<(), String>)
        requires
            self.wf(),
        ensures
            r is Err <==> is_stale(self.view(), path@, current),
            r matches Err(e) ==> e@ == stale_message(path@),
    {
        match current {
            None => Ok(()),
            Some(now) => match self.get(path) {
                Some(last_known) => {
                    if now.secs != last_known.secs || now.nanos != last_known.nanos {
                        let mut e = String::new();
                        e.append("Stale file: ");
                        e.append(path);
                        e.append(" was modified externally since last read. Please read the file again before editing.");
                        Err(e)
                    } else {
                        Ok(())
                    }
                },
                None => Ok(()),
            },
        }
    }
}

/// The error when a file changed after it was last read.
pub open spec fn stale_message(path: Seq<char>) -> Seq<char> {
    "Stale file: "@ + path + " was modified externally since last read. Please read the file again before editing."@
}

/// Replacing a text by itself changes nothing: an edit whose new text equals
/// its old text leaves the content as it was.
pub proof fn lemma_edit_with_same_text_is_identity(content: Seq<char>, old_text: Seq<char>)
    ensures
        replace_first(content, old_text, old_text) == content,
    decreases content.len(),
{
    if old_text.len() == 0 {
        assert(old_text + content =~= content);
    } else if content.len() < old_text.len() {
    } else if content.take(old_text.len() as int) == old_text {
        assert(old_text + content.skip(old_text.len() as int) =~= content);
    } else {
        lemma_edit_with_same_text_is_identity(content.skip(1), old_text);
        assert(seq![content[0]] + content.skip(1) =~= content);
    }
}

proof fn lemma_replace_at_first_occurrence(content: Seq<char>, old_text: Seq<char>, new_text: Seq<char>, i: int)
    requires
        old_text.len() > 0,
        occurs_at(content, old_text, i),
        forall|j: int| 0 <= j < i ==> !#[trigger] occurs_at(content, old_text, j),
    ensures
        replace_first(content, old_text, new_text) == content.take(i) + new_text + content.skip(i + old_text.len()),
    decreases content.len(),
{
    let m = old_text.len() as int;
    if i == 0 {
        assert(content.take(m) =~= content.subrange(0, m));
        assert(content.take(0) + new_text + content.skip(m) =~= new_text + content.skip(m));
    } else {
        assert(!occurs_at(content, old_text, 0));
        assert(content.take(m) =~= content.subrange(0, m));
        let rest = content.skip(1);
        assert(rest.subrange(i - 1, i - 1 + m) =~= content.subrange(i, i + m));
        assert forall|j: int| 0 <= j < i - 1 implies !#[trigger] occurs_at(rest, old_text, j) by {
            assert(rest.subrange(j, j + m) =~= content.subrange(j + 1, j + 1 + m));
            assert(!occurs_at(content, old_text, j + 1));
        }
        lemma_replace_at_first_occurrence(rest, old_text, new_text, i - 1);
        assert(seq![content[0]] + (rest.take(i - 1) + new_text + rest.skip(i - 1 + m)) =~= content.take(i) + new_text
            + content.skip(i + m));
    }
}

/// An accepted edit changes exactly one place: when the old text occurs at
/// exactly one position, it occurs there and nowhere else, and the edited
/// content is the text before that position, the new text, and the text after the old one.
pub proof fn lemma_edit_replaces_the_one_occurrence(content: Seq<char>, old_text: Seq<char>, new_text: Seq<char>)
    requires
        old_text.len() > 0,
        count_positions(content, old_text) == 1,
    ensures
        exists|i: int|
            #[trigger] occurs_at(content, old_text, i)
                && (forall|j: int| j != i ==> !#[trigger] occurs_at(content, old_text, j))
                && replace_first(content, old_text, new_text) == content.take(i) + new_text + content.skip(i + old_text.len()),
{
    lemma_position_exists(content, old_text, content.len() + 1);
    let i = choose|i: int| 0 <= i < content.len() + 1 && #[trigger] occurs_at(content, old_text, i);
    assert forall|j: int| j != i implies !#[trigger] occurs_at(content, old_text, j) by {
        if occurs_at(content, old_text, j) {
            if j < i {
                lemma_two_positions(content, old_text, j, i);
            } else {
                lemma_two_positions(content, old_text, i, j);
            }
        }
    }
    lemma_replace_at_first_occurrence(content, old_text, new_text, i);
}

/// Making quotes straight twice is the same as once.
pub proof fn lemma_normalize_quotes_idempotent(s: Seq<char>)
    ensures
        normalize_quotes_spec(normalize_quotes_spec(s)) == normalize_quotes_spec(s),
{
    assert(normalize_quotes_spec(normalize_quotes_spec(s)) =~= normalize_quotes_spec(s));
}

/// Whether an edit of `path` is refused as stale when the cache holds `view`
/// and the file's modification time is now `current`.
pub open spec fn is_stale(view: Map<Seq<char>, FileStamp>, path: Seq<char>, current: Option<FileStamp>) -> bool {
    current is Some && view.contains_key(path) && view[path] != current->0
}

/// After a read of `path` recorded its modification time `read_at`, an edit of
/// `path` is refused exactly when the file's time is no longer `read_at`; the
/// staleness of every other path is as before.
pub proof fn lemma_recorded_read_guards_edit(
    view: Map<Seq<char>, FileStamp>,
    path: Seq<char>,
    read_at: FileStamp,
    other: Seq<char>,
    now: FileStamp,
    other_now: Option<FileStamp>,
)
    requires
        other != path,
    ensures
        is_stale(view.insert(path, read_at), path, Some(now)) <==> now != read_at,
        is_stale(view.insert(path, read_at), other, other_now) == is_stale(view, other, other_now),
{
}

} // verus!
