use vstd::prelude::*;

use crate::sort::{key_bytes, sort_order_spec, stable_sort_order, string_keys};
use crate::text::{join, join_spec, views};
use crate::tools::grep::{should_skip, should_skip_spec};

verus! {

/// The tool that lists a directory as an indented tree.
pub struct ListFilesTool;

impl ListFilesTool {
    /// The tool's name.
    pub fn name(&self) -> (r: &'static str)
        ensures
            r@ == "list_files"@,
    {
        "list_files"
    }

    /// The tool's description for the model.
    pub fn description(&self) -> (r: &'static str)
        ensures
            r@ == "List files and directories at the given path. Returns a tree-like listing."@,
    {
        "List files and directories at the given path. Returns a tree-like listing."
    }
}

/// An entry of a directory as it was read: its name, whether it is a
/// directory, and (for a directory that was read) its own entries.
pub struct DirNode {
    pub name: String,
    pub is_dir: bool,
    pub children: Vec<DirNode>,
}

/// The deepest level whose entries are listed, counting the top directory's entries as level 0.
pub const MAX_DEPTH: usize = 3;

/// The sort keys of the entries `entries`: their names.
pub open spec fn node_keys(entries: Seq<DirNode>) -> Seq<Seq<u8>> {
    entries.map_values(|e: DirNode| key_bytes(e.name@))
}

/// The order in which the entries are listed: by name.
pub open spec fn node_order(entries: Seq<DirNode>) -> Seq<usize> {
    sort_order_spec(node_keys(entries), entries.len(), false)
}

/// The lines that list `entries` at level `depth`, each line starting with
/// `prefix`: entries in order of name, skipped names left out, a directory
/// shown with a slash and followed by its own entries indented by two spaces.
pub open spec fn listing_spec(entries: Seq<DirNode>, prefix: Seq<char>, depth: nat) -> Seq<Seq<char>>
    decreases 4 - depth, node_order(entries).len() + 1,
{
    if depth > 3 {
        seq![]
    } else {
        listing_in_order(entries, node_order(entries), prefix, depth, node_order(entries).len())
    }
}

/// The lines for the first `m` entries of `entries` taken in the order `order`.
pub open spec fn listing_in_order(
    entries: Seq<DirNode>,
    order: Seq<usize>,
    prefix: Seq<char>,
    depth: nat,
    m: nat,
) -> Seq<Seq<char>>
    decreases 4 - depth, m,
{
    if depth > 3 || m == 0 || m > order.len() {
        seq![]
    } else {
        let prev = listing_in_order(entries, order, prefix, depth, (m - 1) as nat);
        let e = entries[order[m - 1] as int];
        if should_skip_spec(e.name@) {
            prev
        } else if e.is_dir {
            prev.push(prefix + e.name@ + "/"@) + listing_spec(e.children@, prefix + "  "@, depth + 1)
        } else {
            prev.push(prefix + e.name@)
        }
    }
}

/// Adds to `out` the lines that list `entries` at level `depth` (see `listing_spec`).
pub fn render_listing(entries: &Vec<DirNode>, prefix: &str, depth: usize, out: &mut Vec<String>)
    ensures
        views(final(out)@) == views(old(out)@) + listing_spec(entries@, prefix@, depth as nat),
    decreases 4 - depth,
{
    if depth > MAX_DEPTH {
        assert(views(out@) =~= views(out@) + Seq::<Seq<char>>::empty());
        return;
    }
    let n = entries.len();
    let mut names: Vec<String> = Vec::new();
    for i in 0..n
        invariant
            n == entries@.len(),
            names@.len() == i,
            forall|j: int| 0 <= j < i ==> #[trigger] names@[j]@ == entries@[j].name@,
    {
        names.push(entries[i].name.clone());
    }
    assert(string_keys(names@) =~= node_keys(entries@));
    let order = stable_sort_order(&names, false);
    let ghost start = views(out@);
    let m = order.len();
    let mut child_prefix = prefix.to_owned();
    child_prefix.append("  ");
    for i in 0..m
        invariant
            m == order@.len(),
            n == entries@.len(),
            depth <= 3,
            order@ == node_order(entries@),
            crate::sort::is_permutation(order@, n as nat),
            child_prefix@ == prefix@ + "  "@,
            views(out@) == start + listing_in_order(entries@, order@, prefix@, depth as nat, i as nat),
    {
        let e = &entries[order[i]];
        let ghost before = views(out@);
        if should_skip(e.name.as_str()) {
        } else if e.is_dir {
            let mut line = prefix.to_owned();
            line.append(e.name.as_str());
            line.append("/");
            out.push(line);
            assert(views(out@) =~= before.push(prefix@ + e.name@ + "/"@));
            render_listing(&e.children, child_prefix.as_str(), depth + 1, out);
            assert(views(out@) =~= before.push(prefix@ + e.name@ + "/"@) + listing_spec(
                e.children@,
                prefix@ + "  "@,
                depth as nat + 1,
            ));
        } else {
            let mut line = prefix.to_owned();
            line.append(e.name.as_str());
            out.push(line);
            assert(views(out@) =~= before.push(prefix@ + e.name@));
        }
    }
}

/// The answer of the listing tool for the listed lines `lines`.
pub open spec fn listing_report_spec(lines: Seq<Seq<char>>) -> Seq<char> {
    if lines.len() == 0 {
        "(empty directory)"@
    } else {
        join_spec(lines, "\n"@)
    }
}

/// The answer of the listing tool for a directory whose entries are `entries`.
pub fn listing_report(entries: &Vec<DirNode>) -> (r: String)
    ensures
        r@ == listing_report_spec(listing_spec(entries@, ""@, 0)),
{
    let mut lines: Vec<String> = Vec::new();
    render_listing(entries, "", 0, &mut lines);
    assert(views(lines@) =~= listing_spec(entries@, ""@, 0));
    if lines.len() == 0 {
        "(empty directory)".to_owned()
    } else {
        join(&lines, "\n")
    }
}

/// The error when the path to list does not exist.
pub fn path_not_found(path: &str) -> (r: String)
    ensures
        r@ == "Path not found: "@ + path@,
{
    let mut r = String::new();
    r.append("Path not found: ");
    r.append(path);
    r
}

} // verus!
