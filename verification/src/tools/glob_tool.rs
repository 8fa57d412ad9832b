use vstd::prelude::*;

use crate::sort::{
    holds_index, is_sorted_version, key_bytes, lemma_permutation_covers, lemma_sort_order_is_permutation, sort_strings,
    sorted_strings,
};
use crate::text::{
    contains, contains_spec, decimal, format_decimal, from_chars, join, join_spec, starts_with_spec,
    to_chars, views,
};
use crate::tools::args::{missing_argument_message, ToolArgs};
use crate::tools::read_file::{expand_home, expand_home_spec};

verus! {

/// The tool that finds files whose paths match a glob pattern.
pub struct GlobTool;

impl GlobTool {
    /// The tool's name.
    pub fn name(&self) -> (r: &'static str)
        ensures
            r@ == "glob"@,
    {
        "glob"
    }

    /// The tool's description for the model.
    pub fn description(&self) -> (r: &'static str)
        ensures
            r@ == "Find files matching a glob pattern (e.g. **/*.rs, src/**/*.ts). Returns matching file paths."@,
    {
        "Find files matching a glob pattern (e.g. **/*.rs, src/**/*.ts). Returns matching file paths."
    }
}

/// The arguments of a glob search: the pattern, and the base directory ("." when not given).
pub struct GlobRequest {
    pub pattern: String,
    pub path: String,
}

/// Reads the arguments `pattern` (required) and `path` (default ".").
pub fn glob_request(args: &ToolArgs) -> (r: Result<GlobRequest, String>)
    ensures
        match r {
            Ok(req) => args.field("pattern"@) == Some(req.pattern@) && req.path@ == match args.field(
                "path"@,
            ) {
                Some(p) => p,
                None => "."@,
            },
            Err(e) => args.field("pattern"@) is None && e@ == missing_argument_message("pattern"@),
        },
{
    let pattern = args.require_str("pattern")?;
    let path = args.str_or_current_dir("path");
    Ok(GlobRequest { pattern, path })
}

/// The pattern handed to the glob search: an absolute or home-relative
/// pattern stands alone, any other is taken below the base directory.
pub open spec fn full_pattern_spec(pattern: Seq<char>, base: Seq<char>, home: Option<Seq<char>>) -> Seq<char> {
    if starts_with_spec(pattern, "/"@) || starts_with_spec(pattern, "~"@) {
        expand_home_spec(pattern, home)
    } else {
        expand_home_spec(base, home) + "/"@ + pattern
    }
}

/// The pattern handed to the glob search (see `full_pattern_spec`).
pub fn full_pattern(pattern: &str, base: &str, home: Option<&str>) -> (r: String)
    ensures
        r@ == full_pattern_spec(pattern@, base@, match home { Some(h) => Some(h@), None => None }),
{
    let v = to_chars(pattern);
    proof {
        reveal_strlit("/");
        reveal_strlit("~");
    }
    let absolute = v.len() > 0 && (v[0] == '/' || v[0] == '~');
    proof {
        if v@.len() > 0 {
            assert(v@.take(1) =~= seq![v@[0]]);
            if starts_with_spec(pattern@, "/"@) {
                assert(v@.take(1)[0] == '/');
            }
            if starts_with_spec(pattern@, "~"@) {
                assert(v@.take(1)[0] == '~');
            }
        }
        assert("/"@ =~= seq!['/']);
        assert("~"@ =~= seq!['~']);
        assert(absolute == (starts_with_spec(pattern@, "/"@) || starts_with_spec(pattern@, "~"@)));
    }
    if absolute {
        expand_home(pattern, home)
    } else {
        let mut r = expand_home(base, home);
        r.append("/");
        r.append(pattern);
        r
    }
}

/// Whether `path` lies inside a version control, dependency or build directory.
pub open spec fn in_excluded_dir_spec(path: Seq<char>) -> bool {
    ||| contains_spec(path, "/.git/"@)
    ||| contains_spec(path, "/node_modules/"@)
    ||| contains_spec(path, "/target/"@)
    ||| contains_spec(path, "/__pycache__/"@)
    ||| contains_spec(path, "/.next/"@)
    ||| contains_spec(path, "/dist/"@)
    ||| contains_spec(path, "/build/"@)
}

/// Whether `path` lies inside a version control, dependency or build directory.
pub fn is_in_excluded_dir(path: &str) -> (r: bool)
    ensures
        r == in_excluded_dir_spec(path@),
        r == !outside_excluded_dirs(path@),
{
    contains(path, "/.git/") || contains(path, "/node_modules/") || contains(path, "/target/")
        || contains(path, "/__pycache__/") || contains(path, "/.next/") || contains(path, "/dist/")
        || contains(path, "/build/")
}

/// `path` with its backslashes made forward slashes.
pub open spec fn forward_slashes(path: Seq<char>) -> Seq<char> {
    path.map_values(|c: char| if c == '\\' { '/' } else { c })
}

/// The matched paths that are reported: with forward slashes, and without
/// those inside excluded directories, in the order found.
pub open spec fn kept_paths(found: Seq<Seq<char>>) -> Seq<Seq<char>> {
    found.map_values(|p: Seq<char>| forward_slashes(p)).filter(|p: Seq<char>| !in_excluded_dir_spec(p))
}

/// The answer of a glob search that listed `sorted`.
pub open spec fn glob_report_spec(sorted: Seq<Seq<char>>) -> Seq<char> {
    if sorted.len() == 0 {
        "No files matched."@
    } else {
        join_spec(sorted, "\n"@) + "\n\n"@ + decimal(sorted.len()) + " file(s) matched."@
    }
}

fn with_forward_slashes(path: &str) -> (r: String)
    ensures
        r@ == forward_slashes(path@),
{
    let v = to_chars(path);
    let n = v.len();
    let mut out: Vec<char> = Vec::new();
    for i in 0..n
        invariant
            n == v@.len(),
            out@ == forward_slashes(v@.take(i as int)),
    {
        let c = v[i];
        out.push(if c == '\\' { '/' } else { c });
        assert(forward_slashes(v@.take(i + 1)) =~= forward_slashes(v@.take(i as int)).push(
            if c == '\\' { '/' } else { c },
        ));
    }
    assert(v@.take(n as int) =~= v@);
    from_chars(out.as_slice())
}

/// The paths that a glob search found, made ready to report: slashes made
/// forward, excluded directories left out, and sorted.
pub fn kept_sorted_paths(found: &Vec<String>) -> (r: Vec<String>)
    ensures
        views(r@) == sorted_strings(kept_paths(views(found@))),
        is_sorted_version(kept_paths(views(found@)), views(r@), false),
{
    let n = found.len();
    let mut kept: Vec<String> = Vec::new();
    let ghost fs = views(found@).map_values(|p: Seq<char>| forward_slashes(p));
    let ghost pred = |p: Seq<char>| !in_excluded_dir_spec(p);
    assert(fs.take(0).filter(pred) =~= Seq::<Seq<char>>::empty());
    for i in 0..n
        invariant
            n == found@.len(),
            fs == views(found@).map_values(|p: Seq<char>| forward_slashes(p)),
            pred == (|p: Seq<char>| !in_excluded_dir_spec(p)),
            views(kept@) == fs.take(i as int).filter(pred),
    {
        let p = with_forward_slashes(found[i].as_str());
        assert(fs.take(i + 1).drop_last() =~= fs.take(i as int));
        assert(fs.take(i + 1).last() == p@);
        proof {
            reveal_with_fuel(Seq::<_>::filter, 1);
        }
        if !is_in_excluded_dir(p.as_str()) {
            let ghost before = kept@;
            kept.push(p);
            assert(views(kept@) =~= views(before).push(p@));
        }
    }
    assert(fs.take(n as int) =~= fs);
    sort_strings(&kept)
}

/// The answer of a glob search that found `found`.
pub fn glob_report(found: &Vec<String>) -> (r: String)
    ensures
        r@ == glob_report_spec(sorted_strings(kept_paths(views(found@)))),
        is_sorted_version(kept_paths(views(found@)), sorted_strings(kept_paths(views(found@))), false),
{
    let sorted = kept_sorted_paths(found);
    if sorted.len() == 0 {
        let r = "No files matched.".to_owned();
        assert(r@ == glob_report_spec(views(sorted@)));
        return r;
    }
    let mut out = join(&sorted, "\n");
    out.append("\n\n");
    let count = format_decimal(sorted.len() as u128);
    out.append(count.as_str());
    out.append(" file(s) matched.");
    assert(out@ == glob_report_spec(views(sorted@)));
    out
}

/// Whether `p` has none of the excluded directories in it.
pub open spec fn outside_excluded_dirs(p: Seq<char>) -> bool {
    &&& !contains_spec(p, "/.git/"@)
    &&& !contains_spec(p, "/node_modules/"@)
    &&& !contains_spec(p, "/target/"@)
    &&& !contains_spec(p, "/__pycache__/"@)
    &&& !contains_spec(p, "/.next/"@)
    &&& !contains_spec(p, "/dist/"@)
    &&& !contains_spec(p, "/build/"@)
}

/// The glob report lists exactly the found paths (with forward slashes) that
/// lie in none of .git, node_modules, target, __pycache__, .next, dist and
/// build: every listed path is a found one outside those directories, with
/// no backslash left in it, and every found path outside them is listed.
pub proof fn lemma_glob_report_leaves_out_excluded_dirs(found: Seq<Seq<char>>)
    requires
        found.len() <= usize::MAX,
    ensures
        ({
            let shown = sorted_strings(kept_paths(found));
            &&& forall|i: int| 0 <= i < shown.len() ==> outside_excluded_dirs(#[trigger] shown[i])
                && !shown[i].contains('\\')
                && exists|j: int| 0 <= j < found.len() && shown[i] == forward_slashes(found[j])
            &&& forall|j: int| 0 <= j < found.len() && outside_excluded_dirs(forward_slashes(#[trigger] found[j]))
                ==> exists|i: int| 0 <= i < shown.len() && shown[i] == forward_slashes(found[j])
        }),
{
    broadcast use vstd::seq_lib::group_filter_ensures;
    let fs = found.map_values(|p: Seq<char>| forward_slashes(p));
    let pred = |p: Seq<char>| !in_excluded_dir_spec(p);
    let kept = kept_paths(found);
    assert(kept == fs.filter(pred));
    let ks = kept.map_values(|s: Seq<char>| key_bytes(s));
    let order = crate::sort::sort_order_spec(ks, kept.len(), false);
    let shown = sorted_strings(kept);
    assert(kept.len() <= fs.len());
    lemma_sort_order_is_permutation(ks, kept.len(), false);
    assert forall|i: int| 0 <= i < shown.len() implies outside_excluded_dirs(#[trigger] shown[i])
        && !shown[i].contains('\\')
        && exists|j: int| 0 <= j < found.len() && shown[i] == forward_slashes(found[j]) by {
        let k = order[i] as int;
        assert(shown[i] == kept[k]);
        assert(pred(kept[k]));
        assert(kept.contains(kept[k]));
        fs.lemma_filter_contains_rev(pred, kept[k]);
        let j = choose|j: int| 0 <= j < fs.len() && fs[j] == kept[k];
        assert(shown[i] == forward_slashes(found[j]));
        if shown[i].contains('\\') {
            let c = choose|c: int| 0 <= c < shown[i].len() && shown[i][c] == '\\';
            assert(forward_slashes(found[j])[c] != '\\');
        }
    }
    lemma_permutation_covers(order, kept.len());
    assert forall|j: int| 0 <= j < found.len() && outside_excluded_dirs(forward_slashes(#[trigger] found[j]))
        implies exists|i: int| 0 <= i < shown.len() && shown[i] == forward_slashes(found[j]) by {
        assert(fs[j] == forward_slashes(found[j]));
        assert(pred(fs[j]));
        fs.lemma_filter_contains(pred, j);
        let k = choose|k: int| 0 <= k < kept.len() && kept[k] == fs[j];
        assert(holds_index(order, k));
        let i = choose|i: int| 0 <= i < order.len() && order[i] == k;
        assert(shown[i] == kept[k]);
    }
}

/// The error when the glob pattern is malformed; `error` is the pattern error's text.
pub fn invalid_pattern_message(error: &str) -> (r: String)
    ensures
        r@ == "Invalid glob pattern: "@ + error@,
{
    let mut r = String::new();
    r.append("Invalid glob pattern: ");
    r.append(error);
    r
}

} // verus!
