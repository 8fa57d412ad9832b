use vstd::prelude::*;

use crate::text::{
    decimal, format_decimal, from_chars, join, join_spec, lines_of, pad_chars_left, pad_left,
    split_lines, starts_with_spec, to_chars, views,
};

verus! {

/// The tool that shows a file with numbered lines.
pub struct ReadFileTool;

impl ReadFileTool {
    /// The tool's name.
    pub fn name(&self) -> (r: &'static str)
        ensures
            r@ == "read_file"@,
    {
        "read_file"
    }

    /// The tool's description for the model.
    pub fn description(&self) -> (r: &'static str)
        ensures
            r@ == "Read the contents of a file. Returns the file content with line numbers."@,
    {
        "Read the contents of a file. Returns the file content with line numbers."
    }
}

/// `input` with a leading "~/" replaced by the home directory and a slash,
/// when a home directory is known; `input` itself otherwise.
pub open spec fn expand_home_spec(input: Seq<char>, home: Option<Seq<char>>) -> Seq<char> {
    if starts_with_spec(input, "~/"@) && home is Some {
        home->0 + "/"@ + input.skip(2)
    } else {
        input
    }
}

/// Expands a leading "~/" in `input` to the home directory `home`.
pub fn expand_home(input: &str, home: Option<&str>) -> (r: String)
    ensures
        r@ == expand_home_spec(input@, match home { Some(h) => Some(h@), None => None }),
{
    let v = to_chars(input);
    proof {
        reveal_strlit("~/");
    }
    if v.len() >= 2 && v[0] == '~' && v[1] == '/' {
        assert(v@.take(2) =~= "~/"@);
        match home {
            Some(h) => {
                let mut r = h.to_owned();
                r.append("/");
                let rest = from_chars(&v.as_slice()[2..v.len()]);
                r.append(rest.as_str());
                assert(v@.subrange(2, v@.len() as int) =~= input@.skip(2));
                return r;
            },
            None => {
                return input.to_owned();
            },
        }
    }
    proof {
        if starts_with_spec(input@, "~/"@) {
            assert(input@.take(2)[0] == '~');
            assert(input@.take(2)[1] == '/');
        }
    }
    input.to_owned()
}

/// Line `line`, the `i`-th counting from zero, as the read tool shows it:
/// its number right-aligned in four columns, a bar, and the text.
pub open spec fn numbered_line(i: nat, line: Seq<char>) -> Seq<char> {
    pad_left(decimal(i + 1), 4, ' ') + " | "@ + line
}

/// The lines of `content`, numbered from one, one per line.
pub open spec fn numbered_listing(content: Seq<char>) -> Seq<char> {
    let lines = lines_of(content);
    join_spec(Seq::new(lines.len(), |i: int| numbered_line(i as nat, lines[i])), "\n"@)
}

/// The lines of `content`, numbered from one, one per line.
pub fn number_lines(content: &str) -> (r: String)
    ensures
        r@ == numbered_listing(content@),
{
    let lines = split_lines(content);
    let ghost ls = lines_of(content@);
    let n = lines.len();
    let mut out: Vec<String> = Vec::new();
    for i in 0..n
        invariant
            n == lines@.len(),
            views(lines@) == ls,
            views(out@) == Seq::new(i as nat, |j: int| numbered_line(j as nat, ls[j])),
    {
        let num = format_decimal(i as u128 + 1);
        let digits = to_chars(num.as_str());
        let mut line = pad_chars_left(&digits, 4, ' ');
        line.append(" | ");
        line.append(lines[i].as_str());
        assert(lines@[i as int]@ == views(lines@)[i as int]);
        assert(digits@ == decimal(i as nat + 1));
        assert(line@ =~= numbered_line(i as nat, ls[i as int]));
        let ghost before = out@;
        out.push(line);
        assert(views(out@) =~= views(before).push(line@));
        assert(views(out@) =~= Seq::new((i + 1) as nat, |j: int| numbered_line(j as nat, ls[j])));
    }
    join(&out, "\n")
}

/// The error when the file to read or edit does not exist.
pub open spec fn file_not_found_message(path: Seq<char>) -> Seq<char> {
    "File not found: "@ + path
}

/// The error when the file to read or edit does not exist.
pub fn file_not_found(path: &str) -> (r: String)
    ensures
        r@ == file_not_found_message(path@),
{
    let mut r = String::new();
    r.append("File not found: ");
    r.append(path);
    r
}

} // verus!
