use vstd::prelude::*;
use vstd::utf8::encode_utf8;

verus! {

/// Whether the bytes `a` come strictly before the bytes `b` in lexicographic
/// order, the order of `Ord` on strings.
pub open spec fn lex_lt(a: Seq<u8>, b: Seq<u8>) -> bool
    decreases a.len(),
{
    if b.len() == 0 {
        false
    } else if a.len() == 0 {
        true
    } else if a[0] != b[0] {
        a[0] < b[0]
    } else {
        lex_lt(a.drop_first(), b.drop_first())
    }
}

/// The bytes by which a string is ordered: its UTF-8 encoding.
pub open spec fn key_bytes(s: Seq<char>) -> Seq<u8> {
    encode_utf8(s)
}

pub proof fn lemma_lex_irreflexive(a: Seq<u8>)
    ensures
        !lex_lt(a, a),
    decreases a.len(),
{
    if a.len() > 0 {
        lemma_lex_irreflexive(a.drop_first());
    }
}

pub proof fn lemma_lex_transitive(a: Seq<u8>, b: Seq<u8>, c: Seq<u8>)
    requires
        lex_lt(a, b),
        lex_lt(b, c),
    ensures
        lex_lt(a, c),
    decreases a.len(),
{
    if a.len() > 0 && b.len() > 0 && c.len() > 0 && a[0] == b[0] && b[0] == c[0] {
        lemma_lex_transitive(a.drop_first(), b.drop_first(), c.drop_first());
    }
}

pub proof fn lemma_lex_total(a: Seq<u8>, b: Seq<u8>)
    ensures
        a == b || lex_lt(a, b) || lex_lt(b, a),
    decreases a.len(),
{
    if a.len() > 0 && b.len() > 0 && a[0] == b[0] {
        lemma_lex_total(a.drop_first(), b.drop_first());
        if a.drop_first() == b.drop_first() {
            assert(a =~= seq![a[0]] + a.drop_first());
            assert(b =~= seq![b[0]] + b.drop_first());
        }
    } else if a.len() == 0 && b.len() == 0 {
        assert(a =~= b);
    }
}

pub proof fn lemma_lex_asymmetric(a: Seq<u8>, b: Seq<u8>)
    requires
        lex_lt(a, b),
    ensures
        !lex_lt(b, a),
{
    if lex_lt(b, a) {
        lemma_lex_transitive(a, b, a);
        lemma_lex_irreflexive(a);
    }
}

/// Whether the bytes `a` come strictly before `b`.
pub fn bytes_lt(a: &[u8], b: &[u8]) -> (r: bool)
    ensures
        r == lex_lt(a@, b@),
{
    let n = a.len();
    let m = b.len();
    let mut i: usize = 0;
    assert(a@.skip(0) =~= a@);
    assert(b@.skip(0) =~= b@);
    while i < n && i < m
        invariant
            n == a@.len(),
            m == b@.len(),
            i <= n,
            i <= m,
            lex_lt(a@, b@) == lex_lt(a@.skip(i as int), b@.skip(i as int)),
        decreases n - i,
    {
        if a[i] != b[i] {
            return a[i] < b[i];
        }
        assert(a@.skip(i as int).drop_first() =~= a@.skip(i + 1));
        assert(b@.skip(i as int).drop_first() =~= b@.skip(i + 1));
        i = i + 1;
    }
    i < m
}

/// Whether the string `a` comes strictly before `b` in the order of `Ord` on strings.
pub fn str_lt(a: &str, b: &str) -> (r: bool)
    ensures
        r == lex_lt(key_bytes(a@), key_bytes(b@)),
{
    bytes_lt(a.as_bytes(), b.as_bytes())
}

/// Whether the key `a` must come before the key `b`: strictly smaller when
/// sorting up, strictly greater when sorting down.
pub open spec fn goes_before(a: Seq<u8>, b: Seq<u8>, descending: bool) -> bool {
    if descending {
        lex_lt(b, a)
    } else {
        lex_lt(a, b)
    }
}

/// Whether `order` holds each of the indices `0..n` exactly once.
pub open spec fn is_permutation(order: Seq<usize>, n: nat) -> bool {
    &&& order.len() == n
    &&& forall|i: int| 0 <= i < order.len() ==> order[i] < n
    &&& forall|i: int, j: int| 0 <= i < j < order.len() ==> order[i] != order[j]
}

/// Whether the index `i` occurs in `order`.
pub open spec fn holds_index(order: Seq<usize>, i: int) -> bool {
    exists|k: int| 0 <= k < order.len() && order[k] == i
}

/// Every index below `n` occurs in a permutation of `0..n`.
pub proof fn lemma_permutation_covers(order: Seq<usize>, n: nat)
    requires
        is_permutation(order, n),
    ensures
        forall|i: int| 0 <= i < n ==> #[trigger] holds_index(order, i),
{
    let s = order.map_values(|x: usize| x as int);
    assert(s.no_duplicates()) by {
        assert forall|i: int, j: int| 0 <= i < s.len() && 0 <= j < s.len() && i != j implies s[i] != s[j] by {
            if i < j {
                assert(order[i] != order[j]);
            } else {
                assert(order[j] != order[i]);
            }
        }
    }
    s.unique_seq_to_set();
    vstd::set_lib::lemma_int_range(0, n as int);
    let r = vstd::set_lib::set_int_range(0, n as int);
    assert(s.to_set().subset_of(r)) by {
        assert forall|x: int| s.to_set().contains(x) implies r.contains(x) by {
            assert(s.contains(x));
            let k = choose|k: int| 0 <= k < s.len() && s[k] == x;
            assert(order[k] < n);
        }
    }
    vstd::set_lib::lemma_len_subset(s.to_set(), r);
    vstd::set_lib::lemma_subset_equality(s.to_set(), r);
    assert forall|i: int| 0 <= i < n implies #[trigger] holds_index(order, i) by {
        assert(r.contains(i));
        assert(s.to_set().contains(i));
        assert(s.contains(i));
        let k = choose|k: int| 0 <= k < s.len() && s[k] == i;
        assert(order[k] == i);
    }
}

/// Whether listing the keys `keys` in the order `order` is a stable sort:
/// no key comes after one it must go before, and equal keys keep their order.
pub open spec fn is_stable_sorted(keys: Seq<Seq<u8>>, order: Seq<usize>, descending: bool) -> bool {
    &&& forall|i: int, j: int|
        0 <= i < j < order.len() ==> !goes_before(keys[order[j] as int], keys[order[i] as int], descending)
    &&& forall|i: int, j: int|
        0 <= i < j < order.len() && keys[order[i] as int] == keys[order[j] as int] ==> order[i] < order[j]
}

/// The sort keys of the strings `v`.
pub open spec fn string_keys(v: Seq<String>) -> Seq<Seq<u8>> {
    v.map_values(|s: String| key_bytes(s@))
}

proof fn lemma_insert_position(ks: Seq<Seq<u8>>, order: Seq<usize>, p: int, k: int, descending: bool)
    requires
        0 <= p <= order.len(),
        0 <= k < ks.len(),
        forall|i: int| 0 <= i < order.len() ==> order[i] < ks.len(),
        is_stable_sorted(ks, order, descending),
        p > 0 ==> !goes_before(ks[k], ks[order[p - 1] as int], descending),
    ensures
        forall|q: int| 0 <= q < p ==> !goes_before(ks[k], #[trigger] ks[order[q] as int], descending),
{
    assert forall|q: int| 0 <= q < p implies !goes_before(ks[k], #[trigger] ks[order[q] as int], descending) by {
        let a = ks[k];
        let b = ks[order[p - 1] as int];
        let c = ks[order[q] as int];
        if q < p - 1 {
            assert(!goes_before(b, c, descending));
            if goes_before(a, c, descending) {
                lemma_lex_total(a, b);
                if descending {
                    if lex_lt(a, b) {
                        lemma_lex_transitive(c, a, b);
                    }
                } else {
                    if lex_lt(b, a) {
                        lemma_lex_transitive(b, a, c);
                    }
                }
            }
        }
    }
}

proof fn lemma_insert_sorted(ks: Seq<Seq<u8>>, old_order: Seq<usize>, p: int, k: usize, descending: bool)
    requires
        0 <= p <= old_order.len(),
        k < ks.len(),
        is_permutation(old_order, k as nat),
        is_stable_sorted(ks, old_order, descending),
        forall|q: int| 0 <= q < p ==> !goes_before(ks[k as int], #[trigger] ks[old_order[q] as int], descending),
        forall|q: int| p <= q < old_order.len() ==> goes_before(ks[k as int], #[trigger] ks[old_order[q] as int], descending),
    ensures
        is_permutation(old_order.insert(p, k), (k + 1) as nat),
        is_stable_sorted(ks, old_order.insert(p, k), descending),
{
    let order = old_order.insert(p, k);
    old_order.insert_ensures(p, k);
    assert forall|i: int, j: int|
        0 <= i < j < order.len() implies !goes_before(ks[order[j] as int], ks[order[i] as int], descending) by {
        if j == p {
            assert(order[i] == old_order[i]);
        } else if i == p {
            assert(order[j] == old_order[j - 1]);
            let a = ks[k as int];
            let c = ks[old_order[j - 1] as int];
            assert(goes_before(a, c, descending));
            if descending {
                lemma_lex_asymmetric(c, a);
            } else {
                lemma_lex_asymmetric(a, c);
            }
        } else {
            let oi = if i < p { i } else { i - 1 };
            let oj = if j < p { j } else { j - 1 };
            assert(order[i] == old_order[oi]);
            assert(order[j] == old_order[oj]);
        }
    }
    assert forall|i: int, j: int|
        0 <= i < j < order.len() && ks[order[i] as int] == ks[order[j] as int] implies order[i] < order[j] by {
        if j == p {
            assert(order[i] == old_order[i]);
        } else if i == p {
            assert(order[j] == old_order[j - 1]);
            let a = ks[k as int];
            assert(goes_before(a, ks[old_order[j - 1] as int], descending));
            lemma_lex_irreflexive(a);
        } else {
            let oi = if i < p { i } else { i - 1 };
            let oj = if j < p { j } else { j - 1 };
            assert(order[i] == old_order[oi]);
            assert(order[j] == old_order[oj]);
        }
    }
    assert forall|i: int, j: int| 0 <= i < j < order.len() implies order[i] != order[j] by {
        if i != p && j != p {
            let oi = if i < p { i } else { i - 1 };
            let oj = if j < p { j } else { j - 1 };
            assert(order[i] == old_order[oi]);
            assert(order[j] == old_order[oj]);
        } else if i == p {
            assert(order[j] == old_order[j - 1]);
        } else {
            assert(order[i] == old_order[i]);
        }
    }
    assert forall|i: int| 0 <= i < order.len() implies order[i] < k + 1 by {
        if i < p {
            assert(order[i] == old_order[i]);
        } else if i > p {
            assert(order[i] == old_order[i - 1]);
        }
    }
}

fn key_goes_before(keys: &Vec<String>, a: usize, b: usize, descending: bool) -> (r: bool)
    requires
        a < keys@.len(),
        b < keys@.len(),
    ensures
        r == goes_before(string_keys(keys@)[a as int], string_keys(keys@)[b as int], descending),
{
    if descending {
        str_lt(keys[b].as_str(), keys[a].as_str())
    } else {
        str_lt(keys[a].as_str(), keys[b].as_str())
    }
}

/// Where insertion sort puts the index `k` into the sorted indices `order`:
/// after every index whose key `k`'s key need not go before, scanning from the end.
pub open spec fn insert_position(ks: Seq<Seq<u8>>, order: Seq<usize>, k: int, descending: bool) -> int
    decreases order.len(),
{
    if order.len() == 0 {
        0
    } else if goes_before(ks[k], ks[order.last() as int], descending) {
        insert_position(ks, order.drop_last(), k, descending)
    } else {
        order.len() as int
    }
}

/// The order in which a stable insertion sort lists the first `n` keys of `ks`.
pub open spec fn sort_order_spec(ks: Seq<Seq<u8>>, n: nat, descending: bool) -> Seq<usize>
    decreases n,
{
    if n == 0 {
        seq![]
    } else {
        let prev = sort_order_spec(ks, (n - 1) as nat, descending);
        prev.insert(insert_position(ks, prev, n - 1, descending), (n - 1) as usize)
    }
}

proof fn lemma_insert_position_in_range(ks: Seq<Seq<u8>>, order: Seq<usize>, k: int, descending: bool)
    ensures
        0 <= insert_position(ks, order, k, descending) <= order.len(),
    decreases order.len(),
{
    if order.len() > 0 && goes_before(ks[k], ks[order.last() as int], descending) {
        lemma_insert_position_in_range(ks, order.drop_last(), k, descending);
    }
}

/// The order a stable sort gives to `n` keys lists each index below `n` exactly once.
pub proof fn lemma_sort_order_is_permutation(ks: Seq<Seq<u8>>, n: nat, descending: bool)
    requires
        n <= usize::MAX + 1,
    ensures
        is_permutation(sort_order_spec(ks, n, descending), n),
    decreases n,
{
    if n > 0 {
        let prev = sort_order_spec(ks, (n - 1) as nat, descending);
        lemma_sort_order_is_permutation(ks, (n - 1) as nat, descending);
        let p = insert_position(ks, prev, n - 1, descending);
        lemma_insert_position_in_range(ks, prev, n - 1, descending);
        let x = (n - 1) as usize;
        let order = prev.insert(p, x);
        prev.insert_ensures(p, x);
        assert(order == sort_order_spec(ks, n, descending));
        assert forall|i: int| 0 <= i < order.len() implies order[i] < n by {
            if i < p {
                assert(order[i] == prev[i]);
            } else if i > p {
                assert(order[i] == prev[i - 1]);
            }
        }
        assert forall|i: int, j: int| 0 <= i < j < order.len() implies order[i] != order[j] by {
            if i != p && j != p {
                let oi = if i < p { i } else { i - 1 };
                let oj = if j < p { j } else { j - 1 };
                assert(order[i] == prev[oi]);
                assert(order[j] == prev[oj]);
            } else if i == p {
                assert(order[j] == prev[j - 1]);
            } else {
                assert(order[i] == prev[i]);
            }
        }
    }
}

/// The order in which the strings `keys` come when sorted stably, up or down:
/// the indices of `keys`, each once.
pub fn stable_sort_order(keys: &Vec<String>, descending: bool) -> (order: Vec<usize>)
    ensures
        is_permutation(order@, keys@.len()),
        is_stable_sorted(string_keys(keys@), order@, descending),
        order@ == sort_order_spec(string_keys(keys@), keys@.len(), descending),
{
    let ghost ks = string_keys(keys@);
    let n = keys.len();
    let mut order: Vec<usize> = Vec::new();
    for k in 0..n
        invariant
            n == keys@.len(),
            ks == string_keys(keys@),
            is_permutation(order@, k as nat),
            is_stable_sorted(ks, order@, descending),
            order@ == sort_order_spec(ks, k as nat, descending),
    {
        let mut p = order.len();
        assert(order@.take(p as int) =~= order@);
        while p > 0 && key_goes_before(keys, k, order[p - 1], descending)
            invariant
                n == keys@.len(),
                ks == string_keys(keys@),
                k < n,
                p <= order@.len(),
                order@.len() == k,
                forall|i: int| 0 <= i < order@.len() ==> order@[i] < k,
                forall|q: int| p <= q < order@.len() ==> goes_before(ks[k as int], #[trigger] ks[order@[q] as int], descending),
                insert_position(ks, order@, k as int, descending) == insert_position(ks, order@.take(p as int), k as int, descending),
            decreases p,
        {
            assert(order@.take(p as int).drop_last() =~= order@.take(p - 1));
            p = p - 1;
        }
        let ghost old_order = order@;
        proof {
            lemma_insert_position(ks, old_order, p as int, k as int, descending);
        }
        order.insert(p, k);
        proof {
            lemma_insert_sorted(ks, old_order, p as int, k, descending);
        }
    }
    order
}

/// Whether `sorted` lists the strings `v` in a stable sort order, up or down.
pub open spec fn is_sorted_version(v: Seq<Seq<char>>, sorted: Seq<Seq<char>>, descending: bool) -> bool {
    exists|order: Seq<usize>|
        #![trigger is_permutation(order, v.len())]
        is_permutation(order, v.len()) && is_stable_sorted(v.map_values(|s: Seq<char>| key_bytes(s)), order, descending)
            && sorted == Seq::new(v.len(), |i: int| v[order[i] as int])
}

/// The strings `v` as a stable ascending sort by their bytes lists them.
pub open spec fn sorted_strings(v: Seq<Seq<char>>) -> Seq<Seq<char>> {
    let order = sort_order_spec(v.map_values(|s: Seq<char>| key_bytes(s)), v.len(), false);
    Seq::new(v.len(), |i: int| v[order[i] as int])
}

/// The strings `v` in ascending order of their bytes, as `sort` leaves them.
pub fn sort_strings(v: &Vec<String>) -> (out: Vec<String>)
    ensures
        crate::text::views(out@) == sorted_strings(crate::text::views(v@)),
        is_sorted_version(crate::text::views(v@), crate::text::views(out@), false),
{
    let order = stable_sort_order(v, false);
    let n = order.len();
    let mut out: Vec<String> = Vec::new();
    for i in 0..n
        invariant
            n == order@.len(),
            is_permutation(order@, v@.len()),
            out@.len() == i,
            forall|j: int| 0 <= j < i ==> #[trigger] out@[j]@ == v@[order@[j] as int]@,
    {
        out.push(v[order[i]].clone());
    }
    proof {
        let vs = crate::text::views(v@);
        assert(string_keys(v@) =~= vs.map_values(|s: Seq<char>| key_bytes(s)));
        assert(crate::text::views(out@) =~= Seq::new(vs.len(), |i: int| vs[order@[i] as int]));
        assert(is_permutation(order@, vs.len()));
    }
    out
}

/// The items `items` rearranged so that the `k`-th is the one at `order[k]`.
pub fn apply_order<T>(items: Vec<T>, order: &Vec<usize>) -> (out: Vec<T>)
    requires
        is_permutation(order@, items@.len()),
    ensures
        out@ == Seq::new(items@.len(), |k: int| items@[order@[k] as int]),
{
    let ghost orig = items@;
    let n = order.len();
    let mut slots: Vec<Option<T>> = Vec::new();
    for x in it: items
        invariant
            it.seq() == orig,
            slots@.len() == it.index(),
            forall|j: int| 0 <= j < it.index() ==> slots@[j] == Some(#[trigger] orig[j]),
    {
        slots.push(Some(x));
    }
    assert(slots@.len() == n);
    assert forall|j: int| 0 <= j < n implies (#[trigger] slots@[j] is None <==> exists|q: int| 0 <= q < 0 && order@[q] == j) by {
        assert(slots@[j] == Some(orig[j]));
    }
    let mut out: Vec<T> = Vec::new();
    for k in 0..n
        invariant
            n == order@.len(),
            n == orig.len(),
            slots@.len() == n,
            is_permutation(order@, n as nat),
            out@.len() == k,
            forall|q: int| 0 <= q < k ==> #[trigger] out@[q] == orig[order@[q] as int],
            forall|j: int| 0 <= j < n ==> (#[trigger] slots@[j] is None <==> exists|q: int| 0 <= q < k && order@[q] == j),
            forall|j: int| 0 <= j < n && slots@[j] is Some ==> #[trigger] slots@[j] == Some(orig[j]),
    {
        let j = order[k];
        assert(slots@[j as int] is Some) by {
            if slots@[j as int] is None {
                let q = choose|q: int| 0 <= q < k && order@[q] == j;
                assert(order@[q] != order@[k as int]);
            }
        }
        let mut taken: Option<T> = None;
        slots.set_and_swap(j, &mut taken);
        let x = taken.unwrap();
        out.push(x);
        assert forall|jj: int| 0 <= jj < n implies (#[trigger] slots@[jj] is None <==> exists|q: int| 0 <= q < k + 1 && order@[q] == jj) by {
            if jj == j as int {
                assert(order@[k as int] == jj);
            }
        }
    }
    assert(out@ =~= Seq::new(orig.len(), |k: int| orig[order@[k] as int]));
    out
}

} // verus!
