use vstd::prelude::*;

use crate::text::{from_chars, is_space, is_space_char, to_chars, views};

verus! {

/// The words read so far and the word in progress, after reading `s` from
/// left to right: white space ends the word in progress.
pub open spec fn scan_words(s: Seq<char>) -> (Seq<Seq<char>>, Seq<char>)
    decreases s.len(),
{
    if s.len() == 0 {
        (seq![], seq![])
    } else {
        let prev = scan_words(s.drop_last());
        if is_space(s.last()) {
            if prev.1.len() > 0 {
                (prev.0.push(prev.1), seq![])
            } else {
                prev
            }
        } else {
            (prev.0, prev.1.push(s.last()))
        }
    }
}

/// The words of `s` as `str::split_whitespace` yields them: the runs of
/// characters that are not white space.
pub open spec fn words_of(s: Seq<char>) -> Seq<Seq<char>> {
    let st = scan_words(s);
    if st.1.len() > 0 {
        st.0.push(st.1)
    } else {
        st.0
    }
}

/// The words of `s` (see `words_of`).
pub fn split_words(s: &str) -> (out: Vec<String>)
    ensures
        views(out@) == words_of(s@),
{
    let v = to_chars(s);
    let n = v.len();
    let mut out: Vec<String> = Vec::new();
    let mut cur: Vec<char> = Vec::new();
    assert(v@.take(0) =~= Seq::<char>::empty());
    for i in 0..n
        invariant
            n == v@.len(),
            v@ == s@,
            views(out@) == scan_words(v@.take(i as int)).0,
            cur@ == scan_words(v@.take(i as int)).1,
    {
        let c = v[i];
        assert(v@.take(i + 1).drop_last() =~= v@.take(i as int));
        assert(v@.take(i + 1).last() == c);
        if is_space_char(c) {
            if cur.len() > 0 {
                let ghost before = out@;
                out.push(from_chars(cur.as_slice()));
                assert(views(out@) =~= views(before).push(cur@));
                cur = Vec::new();
            }
        } else {
            cur.push(c);
        }
    }
    assert(v@.take(n as int) =~= v@);
    if cur.len() > 0 {
        let ghost before = out@;
        out.push(from_chars(cur.as_slice()));
        assert(views(out@) =~= views(before).push(cur@));
    }
    out
}

/// The file referred to by a word: what follows a leading "@", when something does.
pub open spec fn referenced_path(word: Seq<char>) -> Option<Seq<char>> {
    if word.len() > 1 && word[0] == '@' {
        Some(word.skip(1))
    } else {
        None
    }
}

/// The files that the words of `input` refer to with "@path", in order.
pub open spec fn file_refs_spec(words: Seq<Seq<char>>) -> Seq<Seq<char>>
    decreases words.len(),
{
    if words.len() == 0 {
        seq![]
    } else {
        let prev = file_refs_spec(words.drop_last());
        match referenced_path(words.last()) {
            Some(p) => prev.push(p),
            None => prev,
        }
    }
}

/// The files that the words of `input` refer to with "@path", in order.
pub fn file_ref_paths(input: &str) -> (r: Vec<String>)
    ensures
        views(r@) == file_refs_spec(words_of(input@)),
{
    let words = split_words(input);
    let ghost ws = words_of(input@);
    let n = words.len();
    let mut out: Vec<String> = Vec::new();
    assert(ws.take(0) =~= Seq::<Seq<char>>::empty());
    for i in 0..n
        invariant
            n == words@.len(),
            views(words@) == ws,
            views(out@) == file_refs_spec(ws.take(i as int)),
    {
        assert(ws.take(i + 1).drop_last() =~= ws.take(i as int));
        assert(ws.take(i + 1).last() == words@[i as int]@);
        let w = to_chars(words[i].as_str());
        if w.len() > 1 && w[0] == '@' {
            let p = from_chars(&w.as_slice()[1..w.len()]);
            assert(w@.subrange(1, w@.len() as int) =~= w@.skip(1));
            let ghost before = out@;
            out.push(p);
            assert(views(out@) =~= views(before).push(p@));
        }
    }
    assert(ws.take(n as int) =~= ws);
    out
}

/// How one file's content is added to a message.
pub open spec fn file_block(path: Seq<char>, content: Seq<char>) -> Seq<char> {
    "--- "@ + path + " ---\n"@ + content + "\n--- End of "@ + path + " ---\n"@
}

/// The blocks of the first `k` files of `refs`.
pub open spec fn file_blocks(refs: Seq<(String, String)>, k: nat) -> Seq<char>
    decreases k,
{
    if k == 0 {
        seq![]
    } else {
        file_blocks(refs, (k - 1) as nat) + file_block(refs[k - 1].0@, refs[k - 1].1@)
    }
}

/// Each file read is appended once, in order: the blocks of no files are
/// empty, and the blocks of the first `k + 1` files are those of the first `k`
/// followed by "--- path ---", a line break, the file's content, a line
/// break and "--- End of path ---" with a line break, for the `k`-th file.
pub proof fn lemma_file_blocks_append_each_file(refs: Seq<(String, String)>)
    ensures
        file_blocks(refs, 0) == Seq::<char>::empty(),
        forall|k: int| 0 <= k < refs.len() ==> #[trigger] file_blocks(refs, (k + 1) as nat) == file_blocks(refs, k as nat)
            + "--- "@ + refs[k].0@ + " ---\n"@ + refs[k].1@ + "\n--- End of "@ + refs[k].0@ + " ---\n"@,
{
    assert forall|k: int| 0 <= k < refs.len() implies #[trigger] file_blocks(refs, (k + 1) as nat) == file_blocks(refs, k as nat)
        + "--- "@ + refs[k].0@ + " ---\n"@ + refs[k].1@ + "\n--- End of "@ + refs[k].0@ + " ---\n"@ by {
        assert(file_blocks(refs, (k + 1) as nat) =~= file_blocks(refs, k as nat) + file_block(refs[k].0@, refs[k].1@));
    }
}

/// The message `input` with the files that were read, `refs` (path and
/// content), added after a blank line; `input` itself when none was read.
pub fn append_file_refs(input: &str, refs: &Vec<(String, String)>) -> (r: String)
    ensures
        r@ == if refs@.len() == 0 {
            input@
        } else {
            input@ + "\n\n"@ + file_blocks(refs@, refs@.len())
        },
{
    if refs.len() == 0 {
        return input.to_owned();
    }
    let mut r = input.to_owned();
    r.append("\n\n");
    let ghost start = r@;
    let n = refs.len();
    for i in 0..n
        invariant
            n == refs@.len(),
            r@ == start + file_blocks(refs@, i as nat),
    {
        r.append("--- ");
        r.append(refs[i].0.as_str());
        r.append(" ---\n");
        r.append(refs[i].1.as_str());
        r.append("\n--- End of ");
        r.append(refs[i].0.as_str());
        r.append(" ---\n");
        assert(r@ =~= start + file_blocks(refs@, (i + 1) as nat));
    }
    r
}

/// A warning that the referenced file `path` could not be read; `error` is why.
pub fn unreadable_ref_warning(path: &str, error: &str) -> (r: String)
    ensures
        r@ == "Warning: could not read @"@ + path@ + ": "@ + error@,
{
    let mut r = "Warning: could not read @".to_owned();
    r.append(path);
    r.append(": ");
    r.append(error);
    r
}

} // verus!
