use vstd::prelude::*;
use vstd::string::StringExecFns;
use vstd::utf8::{decode_utf8, encode_utf8, encode_utf8_decode_utf8, is_char_boundary};

verus! {

/// Appends one character to a string.
/// Trusted: `String::push` appends the character at the end of the string.
#[verifier::external_body]
fn push_char(s: &mut String, c: char)
    ensures
        final(s)@ == old(s)@.push(c),
{
    s.push(c);
}

/// The characters of `s`, in order.
pub fn to_chars(s: &str) -> (v: Vec<char>)
    ensures
        v@ == s@,
{
    let mut v: Vec<char> = Vec::new();
    for c in it: s.chars()
        invariant
            v@ == it.seq().take(it.index() as int),
    {
        v.push(c);
    }
    v
}

/// The string made of the characters of `v`, in order.
pub fn from_chars(v: &[char]) -> (s: String)
    ensures
        s@ == v@,
{
    let mut s = String::new();
    let n = v.len();
    for i in 0..n
        invariant
            n == v@.len(),
            s@ == v@.take(i as int),
    {
        push_char(&mut s, v[i]);
        assert(v@.take(i + 1) == v@.take(i as int).push(v@[i as int]));
    }
    assert(v@.take(n as int) == v@);
    s
}

/// `a` followed by `b`.
pub fn concatenate(a: &str, b: &str) -> (s: String)
    ensures
        s@ == a@ + b@,
{
    let mut s = a.to_owned();
    s.append(b);
    s
}

/// Whether `a` and `b` hold the same characters.
pub fn str_eq(a: &str, b: &str) -> (r: bool)
    ensures
        r == (a@ == b@),
{
    let x = to_chars(a);
    let y = to_chars(b);
    if x.len() != y.len() {
        return false;
    }
    let n = x.len();
    for i in 0..n
        invariant
            n == x@.len(),
            n == y@.len(),
            x@ == a@,
            y@ == b@,
            forall|j: int| 0 <= j < i ==> x@[j] == y@[j],
    {
        if x[i] != y[i] {
            assert(a@[i as int] != b@[i as int]);
            return false;
        }
    }
    assert(x@ =~= y@);
    true
}

/// Whether `p` occurs in `s` starting at position `i`.
pub open spec fn occurs_at(s: Seq<char>, p: Seq<char>, i: int) -> bool {
    0 <= i && i + p.len() <= s.len() && s.subrange(i, i + p.len()) == p
}

/// The number of occurrences of `p` in `s` found by scanning left to right
/// and skipping past each occurrence found (so occurrences never overlap).
/// The empty pattern occurs before every character and at the end.
pub open spec fn count_matches(s: Seq<char>, p: Seq<char>) -> nat
    decreases s.len(),
{
    if p.len() == 0 {
        s.len() + 1
    } else if s.len() < p.len() {
        0
    } else if s.take(p.len() as int) == p {
        1 + count_matches(s.skip(p.len() as int), p)
    } else {
        count_matches(s.skip(1), p)
    }
}

/// The number of positions among `0..k` at which `p` occurs in `s`.
pub open spec fn positions_below(s: Seq<char>, p: Seq<char>, k: nat) -> nat
    decreases k,
{
    if k == 0 {
        0
    } else {
        positions_below(s, p, (k - 1) as nat) + if occurs_at(s, p, k - 1) { 1nat } else { 0nat }
    }
}

/// The number of positions at which `p` occurs in `s`, overlapping
/// occurrences included. The empty pattern occurs before every character and at the end.
pub open spec fn count_positions(s: Seq<char>, p: Seq<char>) -> nat {
    positions_below(s, p, s.len() + 1)
}

/// Counting positions below `a` gives no more than counting below a larger `b`.
pub proof fn lemma_positions_below_monotone(s: Seq<char>, p: Seq<char>, a: nat, b: nat)
    requires
        a <= b,
    ensures
        positions_below(s, p, a) <= positions_below(s, p, b),
    decreases b,
{
    if a < b {
        lemma_positions_below_monotone(s, p, a, (b - 1) as nat);
    }
}

/// Two different positions at which `p` occurs in `s` make the count at least two.
pub proof fn lemma_two_positions(s: Seq<char>, p: Seq<char>, i: int, j: int)
    requires
        i < j,
        occurs_at(s, p, i),
        occurs_at(s, p, j),
    ensures
        count_positions(s, p) >= 2,
{
    lemma_positions_below_monotone(s, p, (i + 1) as nat, j as nat);
    lemma_positions_below_monotone(s, p, (j + 1) as nat, s.len() + 1);
}

/// A positive count below `k` comes from a position below `k` where `p` occurs.
pub proof fn lemma_position_exists(s: Seq<char>, p: Seq<char>, k: nat)
    requires
        positions_below(s, p, k) > 0,
    ensures
        exists|i: int| 0 <= i < k && #[trigger] occurs_at(s, p, i),
    decreases k,
{
    if !occurs_at(s, p, k - 1) {
        lemma_position_exists(s, p, (k - 1) as nat);
    }
}

/// The number of positions at which `p` occurs in `v`, overlapping ones included.
pub fn count_all_positions(v: &Vec<char>, p: &Vec<char>) -> (n: u128)
    ensures
        n == count_positions(v@, p@),
{
    let len = v.len();
    let mut count: u128 = 0;
    for i in 0..len
        invariant
            len == v@.len(),
            count == positions_below(v@, p@, i as nat),
            count <= i,
    {
        if matches_at(v, p, i) {
            count = count + 1;
        }
    }
    if matches_at(v, p, len) {
        count = count + 1;
    }
    count
}

/// `s` with its first occurrence of `p` (scanning left to right) replaced by `r`;
/// `s` itself when `p` does not occur. The empty pattern occurs at the start.
pub open spec fn replace_first(s: Seq<char>, p: Seq<char>, r: Seq<char>) -> Seq<char>
    decreases s.len(),
{
    if p.len() == 0 {
        r + s
    } else if s.len() < p.len() {
        s
    } else if s.take(p.len() as int) == p {
        r + s.skip(p.len() as int)
    } else {
        seq![s[0]] + replace_first(s.skip(1), p, r)
    }
}

/// Whether `p` occurs in `v` at position `i`.
pub fn matches_at(v: &Vec<char>, p: &Vec<char>, i: usize) -> (r: bool)
    requires
        i <= v@.len(),
    ensures
        r == occurs_at(v@, p@, i as int),
{
    if p.len() > v.len() - i {
        return false;
    }
    let m = p.len();
    let n = v.len();
    for k in 0..m
        invariant
            m == p@.len(),
            n == v@.len(),
            i + m <= n,
            forall|j: int| 0 <= j < k ==> v@[i + j] == p@[j],
    {
        if v[i + k] != p[k] {
            assert(v@.subrange(i as int, i + m)[k as int] != p@[k as int]);
            return false;
        }
    }
    assert(v@.subrange(i as int, i + m) =~= p@);
    true
}

/// The number of non-overlapping occurrences of `p` in `v` (see `count_matches`).
pub fn count_occurrences(v: &Vec<char>, p: &Vec<char>) -> (n: u128)
    ensures
        n == count_matches(v@, p@),
{
    if p.len() == 0 {
        return v.len() as u128 + 1;
    }
    let mut count: u128 = 0;
    let mut i: usize = 0;
    let m = p.len();
    assert(v@.skip(0) =~= v@);
    while m <= v.len() - i
        invariant
            m == p@.len(),
            m > 0,
            i <= v@.len(),
            count <= i,
            count + count_matches(v@.skip(i as int), p@) == count_matches(v@, p@),
        decreases v@.len() - i,
    {
        let ghost rest = v@.skip(i as int);
        assert(rest.take(m as int) =~= v@.subrange(i as int, i + m));
        if matches_at(v, p, i) {
            assert(rest.skip(m as int) =~= v@.skip(i + m));
            count = count + 1;
            i = i + m;
        } else {
            assert(rest.skip(1) =~= v@.skip(i + 1));
            i = i + 1;
        }
    }
    count
}

/// `v` with its first occurrence of `p` replaced by `r` (see `replace_first`).
pub fn replace_first_occurrence(v: &Vec<char>, p: &Vec<char>, r: &Vec<char>) -> (out: Vec<char>)
    ensures
        out@ == replace_first(v@, p@, r@),
{
    let m = p.len();
    let mut i: usize = 0;
    let mut found: bool = m == 0;
    assert(v@.skip(0) =~= v@);
    assert(v@.take(0) + replace_first(v@.skip(0), p@, r@) =~= replace_first(v@, p@, r@));
    if !found {
        while m <= v.len() - i
            invariant_except_break
                !found,
            invariant
                m == p@.len(),
                m > 0,
                i <= v@.len(),
                v@.take(i as int) + replace_first(v@.skip(i as int), p@, r@) == replace_first(v@, p@, r@),
            ensures
                i <= v@.len(),
                found ==> i + m <= v@.len() && v@.skip(i as int).take(m as int) == p@,
                !found ==> i + m > v@.len(),
            decreases v@.len() - i,
        {
            let ghost rest = v@.skip(i as int);
            assert(rest.take(m as int) =~= v@.subrange(i as int, i + m));
            if matches_at(v, p, i) {
                found = true;
                break;
            }
            assert(rest.skip(1) =~= v@.skip(i + 1));
            assert(seq![rest[0]] + replace_first(rest.skip(1), p@, r@) == replace_first(rest, p@, r@));
            assert(v@.take(i + 1) =~= v@.take(i as int).push(rest[0]));
            assert(v@.take(i + 1) + replace_first(v@.skip(i + 1), p@, r@) =~= v@.take(i as int) + (seq![rest[0]] + replace_first(rest.skip(1), p@, r@)));
            i = i + 1;
        }
    }
    let mut out: Vec<char> = Vec::new();
    if !found {
        assert(replace_first(v@.skip(i as int), p@, r@) == v@.skip(i as int));
        assert(v@.take(i as int) + v@.skip(i as int) =~= v@);
        let n = v.len();
        for k in 0..n
            invariant
                n == v@.len(),
                out@ == v@.take(k as int),
        {
            out.push(v[k]);
            assert(v@.take(k + 1) =~= v@.take(k as int).push(v@[k as int]));
        }
        assert(v@.take(n as int) =~= v@);
        return out;
    }
    let ghost rest = v@.skip(i as int);
    assert(replace_first(rest, p@, r@) == r@ + rest.skip(m as int));
    for k in 0..i
        invariant
            i <= v@.len(),
            out@ == v@.take(k as int),
    {
        out.push(v[k]);
        assert(v@.take(k + 1) =~= v@.take(k as int).push(v@[k as int]));
    }
    let rl = r.len();
    for k in 0..rl
        invariant
            rl == r@.len(),
            out@ == v@.take(i as int) + r@.take(k as int),
    {
        out.push(r[k]);
        assert(r@.take(k + 1) =~= r@.take(k as int).push(r@[k as int]));
        assert(v@.take(i as int) + r@.take(k + 1) =~= (v@.take(i as int) + r@.take(k as int)).push(r@[k as int]));
    }
    assert(r@.take(rl as int) =~= r@);
    let n = v.len();
    let start = i + m;
    for k in start..n
        invariant
            start == i + m,
            start <= n,
            n == v@.len(),
            out@ == v@.take(i as int) + r@ + v@.subrange(start as int, k as int),
    {
        out.push(v[k]);
        assert(v@.subrange(start as int, k + 1) =~= v@.subrange(start as int, k as int).push(v@[k as int]));
        assert(v@.take(i as int) + r@ + v@.subrange(start as int, k + 1) =~= (v@.take(i as int) + r@ + v@.subrange(start as int, k as int)).push(v@[k as int]));
    }
    assert(rest.skip(m as int) =~= v@.subrange(start as int, n as int));
    assert(out@ =~= v@.take(i as int) + (r@ + rest.skip(m as int)));
    out
}

/// The character of the digit `d` in base 16 (lower case above 9).
pub open spec fn digit_char(d: nat) -> char {
    if d == 0 { '0' } else if d == 1 { '1' } else if d == 2 { '2' } else if d == 3 { '3' }
    else if d == 4 { '4' } else if d == 5 { '5' } else if d == 6 { '6' } else if d == 7 { '7' }
    else if d == 8 { '8' } else if d == 9 { '9' } else if d == 10 { 'a' } else if d == 11 { 'b' }
    else if d == 12 { 'c' } else if d == 13 { 'd' } else if d == 14 { 'e' } else { 'f' }
}

/// The digits of `n` written in base `b`, most significant first, without leading zeros.
pub open spec fn digits_in_base(n: nat, b: nat) -> Seq<char>
    recommends
        2 <= b <= 16,
    decreases n,
{
    if b < 2 || n < b {
        seq![digit_char(n)]
    } else {
        proof {
            assert(n / b < n) by (nonlinear_arith)
                requires
                    n >= b,
                    b >= 2,
            ;
        }
        digits_in_base(n / b, b).push(digit_char(n % b))
    }
}

/// `n` written in decimal.
pub open spec fn decimal(n: nat) -> Seq<char> {
    digits_in_base(n, 10)
}

/// `n` written in decimal, with a minus sign in front when negative.
pub open spec fn signed_decimal(n: int) -> Seq<char> {
    if n < 0 {
        seq!['-'] + decimal((-n) as nat)
    } else {
        decimal(n as nat)
    }
}

/// `s` preceded by as many copies of `c` as it takes to reach `width` characters.
pub open spec fn pad_left(s: Seq<char>, width: nat, c: char) -> Seq<char> {
    if s.len() >= width {
        s
    } else {
        Seq::new((width - s.len()) as nat, |_i: int| c) + s
    }
}

fn digit_to_char(d: u8) -> (c: char)
    requires
        d < 16,
    ensures
        c == digit_char(d as nat),
{
    match d {
        0 => '0', 1 => '1', 2 => '2', 3 => '3', 4 => '4', 5 => '5', 6 => '6', 7 => '7',
        8 => '8', 9 => '9', 10 => 'a', 11 => 'b', 12 => 'c', 13 => 'd', 14 => 'e', _ => 'f',
    }
}

fn push_digits(n: u128, b: u128, out: &mut Vec<char>)
    requires
        2 <= b <= 16,
    ensures
        final(out)@ == old(out)@ + digits_in_base(n as nat, b as nat),
    decreases n,
{
    if n >= b {
        assert(n / b < n) by (nonlinear_arith)
            requires
                n >= b,
                b >= 2,
        ;
        push_digits(n / b, b, out);
    }
    let d = (n % b) as u8;
    out.push(digit_to_char(d));
    if n < b {
        proof {
            vstd::arithmetic::div_mod::lemma_small_mod(n as nat, b as nat);
        }
        assert(digits_in_base(n as nat, b as nat) == seq![digit_char(n as nat)]);
    }
}

/// `n` written in decimal.
pub fn format_decimal(n: u128) -> (s: String)
    ensures
        s@ == decimal(n as nat),
{
    let mut v: Vec<char> = Vec::new();
    push_digits(n, 10, &mut v);
    assert(v@ =~= decimal(n as nat));
    from_chars(v.as_slice())
}

/// `n` written in decimal, with a minus sign in front when negative.
pub fn format_signed(n: i64) -> (s: String)
    ensures
        s@ == signed_decimal(n as int),
{
    let mut v: Vec<char> = Vec::new();
    if n < 0 {
        v.push('-');
        let m: u128 = (0i128 - n as i128) as u128;
        push_digits(m, 10, &mut v);
    } else {
        push_digits(n as u128, 10, &mut v);
    }
    assert(v@ =~= signed_decimal(n as int));
    from_chars(v.as_slice())
}

/// `n` in lower-case hexadecimal, padded on the left with zeros to `width` digits.
pub fn format_hex_padded(n: u128, width: usize) -> (s: String)
    ensures
        s@ == pad_left(digits_in_base(n as nat, 16), width as nat, '0'),
{
    let mut digits: Vec<char> = Vec::new();
    push_digits(n, 16, &mut digits);
    assert(digits@ =~= digits_in_base(n as nat, 16));
    pad_chars_left(&digits, width, '0')
}

/// The characters of `v` preceded by as many copies of `c` as it takes to reach `width`.
pub fn pad_chars_left(v: &Vec<char>, width: usize, c: char) -> (s: String)
    ensures
        s@ == pad_left(v@, width as nat, c),
{
    let mut out: Vec<char> = Vec::new();
    if v.len() < width {
        let fill = width - v.len();
        for k in 0..fill
            invariant
                out@ == Seq::new(k as nat, |_i: int| c),
        {
            out.push(c);
            assert(out@ =~= Seq::new((k + 1) as nat, |_i: int| c));
        }
    }
    let n = v.len();
    let ghost start = out@;
    for k in 0..n
        invariant
            n == v@.len(),
            out@ == start + v@.take(k as int),
    {
        out.push(v[k]);
        assert(v@.take(k + 1) =~= v@.take(k as int).push(v@[k as int]));
        assert(out@ =~= start + v@.take(k + 1));
    }
    assert(v@.take(n as int) =~= v@);
    assert(out@ =~= pad_left(v@, width as nat, c));
    from_chars(out.as_slice())
}

/// Whether `c` is one of the ten decimal digits.
pub open spec fn is_digit(c: char) -> bool {
    '0' <= c <= '9'
}

/// The value of the decimal digit `c`.
pub open spec fn digit_value(c: char) -> nat {
    (c as u32 - '0' as u32) as nat
}

/// The value of the decimal digits `s`, most significant first.
pub open spec fn digits_value(s: Seq<char>) -> nat
    decreases s.len(),
{
    if s.len() == 0 {
        0
    } else {
        digits_value(s.drop_last()) * 10 + digit_value(s.last())
    }
}

/// `s` without one leading `+`.
pub open spec fn unsigned_digits(s: Seq<char>) -> Seq<char> {
    if s.len() > 0 && s[0] == '+' { s.skip(1) } else { s }
}

/// Whether every character of `d` is a decimal digit.
pub open spec fn all_digits(d: Seq<char>) -> bool {
    forall|i: int| 0 <= i < d.len() ==> is_digit(#[trigger] d[i])
}

/// What `str::parse::<u64>` gives: an optional `+`, then one or more decimal
/// digits whose value fits in a `u64`; anything else is refused.
pub open spec fn parse_u64_spec(s: Seq<char>) -> Option<u64> {
    let d = unsigned_digits(s);
    if d.len() == 0 || !all_digits(d) {
        None
    } else if digits_value(d) > u64::MAX {
        None
    } else {
        Some(digits_value(d) as u64)
    }
}

proof fn lemma_digits_value_prefix(d: Seq<char>, k: int)
    requires
        0 <= k <= d.len(),
    ensures
        digits_value(d) >= digits_value(d.take(k)),
    decreases d.len(),
{
    if k < d.len() {
        lemma_digits_value_prefix(d.drop_last(), k);
        assert(d.drop_last().take(k) =~= d.take(k));
    } else {
        assert(d.take(k) =~= d);
    }
}

/// Parses `s` as `str::parse::<u64>` does.
pub fn parse_u64(s: &str) -> (r: Option<u64>)
    ensures
        r == parse_u64_spec(s@),
{
    let v = to_chars(s);
    let start: usize = if v.len() > 0 && v[0] == '+' { 1 } else { 0 };
    let ghost d = unsigned_digits(s@);
    assert(d =~= v@.skip(start as int));
    if start >= v.len() {
        return None;
    }
    let n = v.len();
    let mut acc: u64 = 0;
    let mut i = start;
    while i < n
        invariant
            n == v@.len(),
            start <= i <= n,
            d == v@.skip(start as int),
            d == unsigned_digits(s@),
            forall|j: int| 0 <= j < i - start ==> is_digit(#[trigger] d[j]),
            acc == digits_value(d.take(i - start)),
        decreases n - i,
    {
        let c = v[i];
        if !('0' <= c && c <= '9') {
            assert(!is_digit(d[i - start]));
            assert(!all_digits(d));
            return None;
        }
        let dv = (c as u32 - '0' as u32) as u64;
        assert(d.take(i + 1 - start).drop_last() =~= d.take(i - start));
        assert(d.take(i + 1 - start).last() == c);
        if acc > (u64::MAX - dv) / 10 {
            proof {
                assert(digits_value(d.take(i + 1 - start)) > u64::MAX) by (nonlinear_arith)
                    requires
                        acc > (u64::MAX - dv) / 10,
                        digits_value(d.take(i + 1 - start)) == acc * 10 + dv,
                        dv <= 9,
                ;
                lemma_digits_value_prefix(d, i + 1 - start);
            }
            return None;
        }
        proof {
            assert(acc * 10 + dv <= u64::MAX) by (nonlinear_arith)
                requires
                    acc <= (u64::MAX - dv) / 10,
                    dv <= 9,
            ;
        }
        acc = acc * 10 + dv;
        i = i + 1;
    }
    assert(d.take(n - start) =~= d);
    assert(all_digits(d));
    Some(acc)
}

/// The character contents of each string of `v`.
pub open spec fn views(v: Seq<String>) -> Seq<Seq<char>> {
    v.map_values(|x: String| x@)
}

/// A line with one carriage return removed from its end, if it has one.
pub open spec fn strip_cr(l: Seq<char>) -> Seq<char> {
    if l.len() > 0 && l.last() == '\r' {
        l.drop_last()
    } else {
        l
    }
}

/// The lines completed so far and the line in progress, after reading `s`
/// from left to right: a newline completes the line in progress.
pub open spec fn scan_lines(s: Seq<char>) -> (Seq<Seq<char>>, Seq<char>)
    decreases s.len(),
{
    if s.len() == 0 {
        (seq![], seq![])
    } else {
        let prev = scan_lines(s.drop_last());
        if s.last() == '\n' {
            (prev.0.push(strip_cr(prev.1)), seq![])
        } else {
            (prev.0, prev.1.push(s.last()))
        }
    }
}

/// The lines of `s` as `str::lines` yields them: split at each newline, one
/// carriage return dropped before each newline, and no empty line after a
/// final newline.
pub open spec fn lines_of(s: Seq<char>) -> Seq<Seq<char>> {
    let st = scan_lines(s);
    if st.1.len() > 0 {
        st.0.push(st.1)
    } else {
        st.0
    }
}

/// The lines of `s` (see `lines_of`).
pub fn split_lines(s: &str) -> (out: Vec<String>)
    ensures
        views(out@) == lines_of(s@),
{
    let v = to_chars(s);
    let n = v.len();
    let mut out: Vec<String> = Vec::new();
    let mut cur: Vec<char> = Vec::new();
    assert(v@.take(0) =~= Seq::<char>::empty());
    for i in 0..n
        invariant
            n == v@.len(),
            v@ == s@,
            views(out@) == scan_lines(v@.take(i as int)).0,
            cur@ == scan_lines(v@.take(i as int)).1,
    {
        let c = v[i];
        assert(v@.take(i + 1).drop_last() =~= v@.take(i as int));
        assert(v@.take(i + 1).last() == c);
        if c == '\n' {
            let mut line_len = cur.len();
            if line_len > 0 && cur[line_len - 1] == '\r' {
                line_len = line_len - 1;
            }
            let line = from_chars(&cur.as_slice()[0..line_len]);
            assert(cur@.subrange(0, line_len as int) =~= strip_cr(cur@));
            out.push(line);
            assert(views(out@) =~= scan_lines(v@.take(i + 1)).0);
            cur = Vec::new();
        } else {
            cur.push(c);
        }
    }
    assert(v@.take(n as int) =~= v@);
    if cur.len() > 0 {
        out.push(from_chars(cur.as_slice()));
        assert(views(out@) =~= lines_of(s@));
    }
    out
}

/// The strings `parts` with `sep` between each two neighbours.
pub open spec fn join_spec(parts: Seq<Seq<char>>, sep: Seq<char>) -> Seq<char>
    decreases parts.len(),
{
    if parts.len() == 0 {
        seq![]
    } else if parts.len() == 1 {
        parts[0]
    } else {
        join_spec(parts.drop_last(), sep) + sep + parts.last()
    }
}

/// The strings `parts` with `sep` between each two neighbours.
pub fn join(parts: &Vec<String>, sep: &str) -> (s: String)
    ensures
        s@ == join_spec(views(parts@), sep@),
{
    let mut s = String::new();
    let n = parts.len();
    for i in 0..n
        invariant
            n == parts@.len(),
            s@ == join_spec(views(parts@).take(i as int), sep@),
    {
        assert(views(parts@).take(i + 1).drop_last() =~= views(parts@).take(i as int));
        if i > 0 {
            s.append(sep);
        }
        s.append(parts[i].as_str());
        assert(views(parts@).take(i + 1).last() == parts@[i as int]@);
        if i == 0 {
            assert(s@ =~= join_spec(views(parts@).take(1), sep@));
        }
    }
    assert(views(parts@).take(n as int) =~= views(parts@));
    s
}

/// The number of bytes of the UTF-8 encoding of `s`.
pub open spec fn byte_len(s: Seq<char>) -> nat {
    encode_utf8(s).len()
}

/// The characters whose UTF-8 encoding is the first `k` bytes of that of `s`.
pub open spec fn byte_prefix(s: Seq<char>, k: nat) -> Seq<char> {
    decode_utf8(encode_utf8(s).take(k as int))
}

/// Whether the first `k` bytes of the UTF-8 encoding of `s` end on a character boundary.
pub open spec fn is_byte_boundary(s: Seq<char>, k: nat) -> bool {
    is_char_boundary(encode_utf8(s), k as int)
}

/// `s` cut to its first `keep` bytes with "..." after them when it is longer
/// than `limit` bytes; `s` itself otherwise.
pub open spec fn shorten_spec(s: Seq<char>, limit: nat, keep: nat) -> Seq<char> {
    if byte_len(s) > limit {
        byte_prefix(s, keep) + "..."@
    } else {
        s
    }
}

/// Cuts `s` to its first `keep` bytes followed by "..." when it is longer than
/// `limit` bytes. Cutting inside a character is refused, as slicing a `str` is.
pub fn shorten(s: &str, limit: usize, keep: usize) -> (r: String)
    requires
        keep <= limit,
        byte_len(s@) > limit ==> is_byte_boundary(s@, keep as nat),
    ensures
        r@ == shorten_spec(s@, limit as nat, keep as nat),
{
    let total = s.as_bytes().len();
    if total > limit {
        let (head, _tail) = s.split_at(keep);
        proof {
            encode_utf8_decode_utf8(head@);
            assert(encode_utf8(s@).subrange(0, keep as int) =~= encode_utf8(s@).take(keep as int));
            assert(encode_utf8(head@) == encode_utf8(s@).take(keep as int));
        }
        concatenate(head, "...")
    } else {
        s.to_owned()
    }
}

/// Whether `c` has the Unicode White_Space property, as `char::is_whitespace` tells.
pub open spec fn is_space(c: char) -> bool {
    ||| ('\u{9}' <= c && c <= '\u{d}')
    ||| c == ' '
    ||| c == '\u{85}'
    ||| c == '\u{a0}'
    ||| c == '\u{1680}'
    ||| ('\u{2000}' <= c && c <= '\u{200a}')
    ||| c == '\u{2028}'
    ||| c == '\u{2029}'
    ||| c == '\u{202f}'
    ||| c == '\u{205f}'
    ||| c == '\u{3000}'
}

/// Whether `c` has the Unicode White_Space property.
pub fn is_space_char(c: char) -> (r: bool)
    ensures
        r == is_space(c),
{
    ('\u{9}' <= c && c <= '\u{d}') || c == ' ' || c == '\u{85}' || c == '\u{a0}' || c
        == '\u{1680}' || ('\u{2000}' <= c && c <= '\u{200a}') || c == '\u{2028}' || c
        == '\u{2029}' || c == '\u{202f}' || c == '\u{205f}' || c == '\u{3000}'
}

/// The number of white-space characters at the start of `s`.
pub open spec fn leading_spaces(s: Seq<char>) -> nat
    decreases s.len(),
{
    if s.len() > 0 && is_space(s[0]) {
        1 + leading_spaces(s.drop_first())
    } else {
        0
    }
}

/// The number of white-space characters at the end of `s`.
pub open spec fn trailing_spaces(s: Seq<char>) -> nat
    decreases s.len(),
{
    if s.len() > 0 && is_space(s.last()) {
        1 + trailing_spaces(s.drop_last())
    } else {
        0
    }
}

/// `s` without white space at its start and end, as `str::trim` gives it.
pub open spec fn trim_spec(s: Seq<char>) -> Seq<char> {
    let t = s.skip(leading_spaces(s) as int);
    t.take(t.len() - trailing_spaces(t))
}

proof fn lemma_leading_spaces(s: Seq<char>, i: int)
    requires
        0 <= i <= s.len(),
        forall|j: int| 0 <= j < i ==> is_space(#[trigger] s[j]),
        i == s.len() || !is_space(s[i]),
    ensures
        leading_spaces(s) == i,
    decreases s.len(),
{
    if i > 0 {
        assert forall|j: int| 0 <= j < i - 1 implies is_space(#[trigger] s.drop_first()[j]) by {
            assert(s.drop_first()[j] == s[j + 1]);
        }
        if i < s.len() {
            assert(s.drop_first()[i - 1] == s[i]);
        }
        lemma_leading_spaces(s.drop_first(), i - 1);
    }
}

proof fn lemma_trailing_spaces(s: Seq<char>, k: int)
    requires
        0 <= k <= s.len(),
        forall|j: int| s.len() - k <= j < s.len() ==> is_space(#[trigger] s[j]),
        k == s.len() || !is_space(s[s.len() - k - 1]),
    ensures
        trailing_spaces(s) == k,
    decreases s.len(),
{
    if k > 0 {
        assert forall|j: int| s.drop_last().len() - (k - 1) <= j < s.drop_last().len() implies is_space(#[trigger] s.drop_last()[j]) by {
            assert(s.drop_last()[j] == s[j]);
        }
        lemma_trailing_spaces(s.drop_last(), k - 1);
    }
}

/// `s` without white space at its start and end (see `trim_spec`).
pub fn trim(s: &str) -> (r: String)
    ensures
        r@ == trim_spec(s@),
{
    let v = to_chars(s);
    let n = v.len();
    let mut a: usize = 0;
    while a < n && is_space_char(v[a])
        invariant
            n == v@.len(),
            a <= n,
            forall|j: int| 0 <= j < a ==> is_space(#[trigger] v@[j]),
        decreases n - a,
    {
        a = a + 1;
    }
    proof {
        lemma_leading_spaces(v@, a as int);
    }
    let mut b: usize = n;
    while b > a && is_space_char(v[b - 1])
        invariant
            n == v@.len(),
            a <= b <= n,
            forall|j: int| b <= j < n ==> is_space(#[trigger] v@[j]),
        decreases b,
    {
        b = b - 1;
    }
    let ghost t = v@.skip(a as int);
    proof {
        assert forall|j: int| t.len() - (n - b) <= j < t.len() implies is_space(#[trigger] t[j]) by {
            assert(t[j] == v@[j + a]);
        }
        if b > a {
            assert(t[t.len() - (n - b) - 1] == v@[b - 1]);
        }
        lemma_trailing_spaces(t, (n - b) as int);
        assert(t.take(t.len() - (n - b)) =~= v@.subrange(a as int, b as int));
    }
    from_chars(&v.as_slice()[a..b])
}

/// Whether `s` begins with `p`.
pub open spec fn starts_with_spec(s: Seq<char>, p: Seq<char>) -> bool {
    p.len() <= s.len() && s.take(p.len() as int) == p
}

/// Whether `s` begins with `p`.
pub fn starts_with(s: &str, p: &str) -> (r: bool)
    ensures
        r == starts_with_spec(s@, p@),
{
    let v = to_chars(s);
    let w = to_chars(p);
    let r = matches_at(&v, &w, 0);
    assert(r == occurs_at(v@, w@, 0));
    proof {
        if w@.len() <= v@.len() {
            assert(v@.subrange(0, w@.len() as int) =~= v@.take(w@.len() as int));
        }
    }
    r
}

/// Whether `p` occurs somewhere in `s`.
pub open spec fn contains_spec(s: Seq<char>, p: Seq<char>) -> bool {
    exists|i: int| #[trigger] occurs_at(s, p, i)
}

/// Whether `p` occurs somewhere in `s`.
pub fn contains(s: &str, p: &str) -> (r: bool)
    ensures
        r == contains_spec(s@, p@),
{
    let v = to_chars(s);
    let w = to_chars(p);
    let n = v.len();
    for i in 0..n
        invariant
            n == v@.len(),
            v@ == s@,
            w@ == p@,
            forall|j: int| 0 <= j < i ==> !#[trigger] occurs_at(s@, p@, j),
    {
        if matches_at(&v, &w, i) {
            return true;
        }
    }
    if matches_at(&v, &w, n) {
        return true;
    }
    assert forall|j: int| !#[trigger] occurs_at(s@, p@, j) by {
        if 0 <= j < n {
        }
    }
    false
}

proof fn lemma_digit_char_value(d: nat)
    requires
        d < 10,
    ensures
        is_digit(digit_char(d)),
        digit_value(digit_char(d)) == d,
{
    if d == 0 {} else if d == 1 {} else if d == 2 {} else if d == 3 {} else if d == 4 {}
    else if d == 5 {} else if d == 6 {} else if d == 7 {} else if d == 8 {} else {}
}

pub(crate) proof fn lemma_decimal_digits(n: nat)
    ensures
        decimal(n).len() > 0,
        all_digits(decimal(n)),
        digits_value(decimal(n)) == n,
    decreases n,
{
    if n < 10 {
        lemma_digit_char_value(n);
        assert(digits_value(decimal(n)) == digits_value(seq![digit_char(n)]));
        assert(seq![digit_char(n)].drop_last() =~= Seq::<char>::empty());
        assert(digits_value(Seq::<char>::empty()) == 0);
        assert(digits_value(seq![digit_char(n)]) == digits_value(seq![digit_char(n)].drop_last()) * 10 + digit_value(digit_char(n)));
    } else {
        lemma_decimal_digits(n / 10);
        lemma_digit_char_value(n % 10);
        let d = decimal(n / 10);
        let e = d.push(digit_char(n % 10));
        assert(e.drop_last() =~= d);
        assert(n == (n / 10) * 10 + n % 10);
        assert(digits_value(e) == digits_value(d) * 10 + digit_value(digit_char(n % 10)));
        assert forall|i: int| 0 <= i < e.len() implies is_digit(#[trigger] e[i]) by {
            if i < d.len() {
                assert(e[i] == d[i]);
            }
        }
    }
}

/// Reading back a number written in decimal gives the number: what
/// `format_decimal` writes, `parse_u64` reads as the same value.
pub proof fn lemma_parse_decimal_roundtrip(n: u64)
    ensures
        parse_u64_spec(decimal(n as nat)) == Some(n),
{
    lemma_decimal_digits(n as nat);
    let d = decimal(n as nat);
    assert(is_digit(d[0]));
    assert(unsigned_digits(d) == d);
}

} // verus!
