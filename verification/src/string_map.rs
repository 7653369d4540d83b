use vstd::prelude::*;

use crate::text::{owned, str_eq};

verus! {

/// Lexicographic order of character sequences by code point: the order of `str` (UTF-8 bytes
/// compare as their code points do).
pub open spec fn chars_lt(a: Seq<char>, b: Seq<char>) -> bool
    decreases a.len(),
{
    if a.len() == 0 {
        b.len() > 0
    } else if b.len() == 0 {
        false
    } else if a[0] != b[0] {
        a[0] < b[0]
    } else {
        chars_lt(a.drop_first(), b.drop_first())
    }
}

/// No sequence comes before itself.
pub proof fn lemma_chars_lt_irreflexive(a: Seq<char>)
    ensures
        !chars_lt(a, a),
    decreases a.len(),
{
    if a.len() > 0 {
        lemma_chars_lt_irreflexive(a.drop_first());
    }
}

/// The order is transitive.
pub proof fn lemma_chars_lt_transitive(a: Seq<char>, b: Seq<char>, c: Seq<char>)
    requires
        chars_lt(a, b),
        chars_lt(b, c),
    ensures
        chars_lt(a, c),
    decreases a.len(),
{
    if a.len() > 0 && b.len() > 0 && c.len() > 0 && a[0] == b[0] && b[0] == c[0] {
        lemma_chars_lt_transitive(a.drop_first(), b.drop_first(), c.drop_first());
    }
}

/// Two different sequences are ordered one way or the other.
pub proof fn lemma_chars_lt_total(a: Seq<char>, b: Seq<char>)
    requires
        a != b,
    ensures
        chars_lt(a, b) || chars_lt(b, a),
    decreases a.len(),
{
    if a.len() == 0 {
        assert(b.len() > 0) by {
            if b.len() == 0 {
                assert(a =~= b);
            }
        }
    } else if b.len() == 0 {
    } else if a[0] != b[0] {
    } else {
        assert(a.drop_first() != b.drop_first()) by {
            if a.drop_first() =~= b.drop_first() {
                assert(a =~= seq![a[0]] + a.drop_first());
                assert(b =~= seq![b[0]] + b.drop_first());
            }
        }
        lemma_chars_lt_total(a.drop_first(), b.drop_first());
    }
}

proof fn lemma_chars_lt_skip(a: Seq<char>, b: Seq<char>, i: int)
    requires
        0 <= i <= a.len(),
        i <= b.len(),
        a.subrange(0, i) == b.subrange(0, i),
    ensures
        chars_lt(a, b) == chars_lt(a.subrange(i, a.len() as int), b.subrange(i, b.len() as int)),
    decreases i,
{
    if i > 0 {
        assert(a[0] == a.subrange(0, i)[0]);
        assert(b[0] == b.subrange(0, i)[0]);
        assert(a.drop_first().subrange(0, i - 1) =~= a.subrange(0, i).drop_first());
        assert(b.drop_first().subrange(0, i - 1) =~= b.subrange(0, i).drop_first());
        lemma_chars_lt_skip(a.drop_first(), b.drop_first(), i - 1);
        assert(a.drop_first().subrange(i - 1, a.drop_first().len() as int) =~= a.subrange(
            i,
            a.len() as int,
        ));
        assert(b.drop_first().subrange(i - 1, b.drop_first().len() as int) =~= b.subrange(
            i,
            b.len() as int,
        ));
    } else {
        assert(a.subrange(0, a.len() as int) =~= a);
        assert(b.subrange(0, b.len() as int) =~= b);
    }
}

/// Whether `a` comes before `b` (`<` on `str`).
pub fn str_lt(a: &str, b: &str) -> (r: bool)
    ensures
        r == chars_lt(a@, b@),
{
    let n = a.unicode_len();
    let m = b.unicode_len();
    let mut i: usize = 0;
    while i < n && i < m
        invariant
            n == a@.len(),
            m == b@.len(),
            i <= n,
            i <= m,
            a@.subrange(0, i as int) == b@.subrange(0, i as int),
        decreases n - i,
    {
        let x = a.get_char(i);
        let y = b.get_char(i);
        if x != y {
            proof {
                lemma_chars_lt_skip(a@, b@, i as int);
                let sa = a@.subrange(i as int, n as int);
                let sb = b@.subrange(i as int, m as int);
                assert(sa[0] == x && sb[0] == y);
            }
            return x < y;
        }
        assert(a@.subrange(0, i + 1) =~= a@.subrange(0, i as int).push(x));
        assert(b@.subrange(0, i + 1) =~= b@.subrange(0, i as int).push(y));
        i = i + 1;
    }
    proof {
        lemma_chars_lt_skip(a@, b@, i as int);
    }
    n < m
}

/// Whether keys come in strictly increasing order.
pub open spec fn keys_sorted<V>(pairs: Seq<(String, V)>) -> bool {
    forall|i: int, j: int|
        0 <= i < j < pairs.len() ==> chars_lt(
            (#[trigger] pairs[i]).0@,
            (#[trigger] pairs[j]).0@,
        )
}

/// Whether `k` is the key of some pair.
pub open spec fn has_key<V>(pairs: Seq<(String, V)>, k: Seq<char>) -> bool {
    exists|i: int| 0 <= i < pairs.len() && (#[trigger] pairs[i]).0@ == k
}

/// The index of the pair with key `k`.
pub open spec fn key_index<V>(pairs: Seq<(String, V)>, k: Seq<char>) -> int {
    choose|i: int| 0 <= i < pairs.len() && (#[trigger] pairs[i]).0@ == k
}

/// The map the pairs stand for.
pub open spec fn pairs_map<V>(pairs: Seq<(String, V)>) -> Map<Seq<char>, V> {
    Map::new(|k: Seq<char>| has_key(pairs, k), |k: Seq<char>| pairs[key_index(pairs, k)].1)
}

/// In sorted pairs, the pair with a key is the one at any index holding it.
pub proof fn lemma_sorted_index<V>(pairs: Seq<(String, V)>, i: int)
    requires
        keys_sorted(pairs),
        0 <= i < pairs.len(),
    ensures
        has_key(pairs, pairs[i].0@),
        key_index(pairs, pairs[i].0@) == i,
        pairs_map(pairs).contains_key(pairs[i].0@),
        pairs_map(pairs)[pairs[i].0@] == pairs[i].1,
{
    let k = pairs[i].0@;
    assert(has_key(pairs, k));
    let j = key_index(pairs, k);
    assert(pairs[j].0@ == k);
    if j < i {
        lemma_chars_lt_irreflexive(k);
    } else if j > i {
        lemma_chars_lt_irreflexive(k);
    }
}

/// The pairs after setting `k` to `v` at index `p` (in place, or inserted there) stand for the
/// map with `k` set to `v`.
proof fn lemma_insert_pairs<V>(
    old_pairs: Seq<(String, V)>,
    e: Seq<(String, V)>,
    k: Seq<char>,
    v: V,
    p: int,
    replace: bool,
)
    requires
        keys_sorted(old_pairs),
        keys_sorted(e),
        0 <= p < e.len(),
        e[p].0@ == k,
        e[p].1 == v,
        replace ==> e.len() == old_pairs.len() && old_pairs[p].0@ == k && forall|j: int|
            0 <= j < e.len() && j != p ==> e[j] == old_pairs[j],
        !replace ==> e.len() == old_pairs.len() + 1 && (forall|j: int|
            0 <= j < p ==> e[j] == old_pairs[j]) && (forall|j: int|
            p < j < e.len() ==> e[j] == old_pairs[j - 1]),
    ensures
        pairs_map(e) == pairs_map(old_pairs).insert(k, v),
{
    let m = pairs_map(old_pairs).insert(k, v);
    assert forall|x: Seq<char>| #[trigger] pairs_map(e).dom().contains(x) == m.dom().contains(x)
        && (m.dom().contains(x) ==> pairs_map(e)[x] == m[x]) by {
        if x == k {
            lemma_sorted_index(e, p);
        } else {
            if has_key(e, x) {
                let j = key_index(e, x);
                assert(e[j].0@ == x);
                lemma_sorted_index(e, j);
                let j0 = if replace || j < p {
                    j
                } else {
                    j - 1
                };
                assert(old_pairs[j0] == e[j]);
                lemma_sorted_index(old_pairs, j0);
            }
            if has_key(old_pairs, x) {
                let j0 = key_index(old_pairs, x);
                assert(old_pairs[j0].0@ == x);
                lemma_sorted_index(old_pairs, j0);
                let j = if replace || j0 < p {
                    j0
                } else {
                    j0 + 1
                };
                assert(e[j] == old_pairs[j0]);
                lemma_sorted_index(e, j);
            }
        }
    }
    assert(pairs_map(e).dom() =~= m.dom());
    assert(pairs_map(e) =~= m);
}

/// A map to strings with the strings as characters.
pub open spec fn string_values(m: Map<Seq<char>, String>) -> Map<Seq<char>, Seq<char>> {
    m.map_values(|s: String| s@)
}

/// A map from strings to values, its keys kept in ascending order (a `BTreeMap<String, V>`).
#[derive(Debug, PartialEq, Eq)]
pub struct StringMap<V> {
    entries: Vec<(String, V)>,
}

impl<V> StringMap<V> {
    #[verifier::type_invariant]
    closed spec fn sorted(self) -> bool {
        keys_sorted(self.entries@)
    }

    /// The pairs of the map in ascending order of key.
    pub closed spec fn pairs(&self) -> Seq<(String, V)> {
        self.entries@
    }
}

impl<V> View for StringMap<V> {
    type V = Map<Seq<char>, V>;

    open spec fn view(&self) -> Map<Seq<char>, V> {
        pairs_map(self.pairs())
    }
}

impl<V> StringMap<V> {
    /// An empty map.
    pub fn new() -> (r: StringMap<V>)
        ensures
            r.pairs() == Seq::<(String, V)>::empty(),
            r@ == Map::<Seq<char>, V>::empty(),
    {
        let r = StringMap { entries: Vec::new() };
        assert(r@ =~= Map::<Seq<char>, V>::empty());
        r
    }

    /// The pairs of the map, in ascending order of key.
    pub fn as_slice(&self) -> (r: &[(String, V)])
        ensures
            r@ == self.pairs(),
            keys_sorted(self.pairs()),
    {
        proof {
            use_type_invariant(self);
        }
        self.entries.as_slice()
    }

    /// The number of keys.
    pub fn len(&self) -> (r: usize)
        ensures
            r == self.pairs().len(),
    {
        self.entries.len()
    }

    /// The value of `key`, if it has one.
    pub fn get(&self, key: &str) -> (r: Option<&V>)
        ensures
            match r {
                Some(v) => self@.contains_key(key@) && *v == self@[key@],
                None => !self@.contains_key(key@),
            },
    {
        proof {
            use_type_invariant(self);
        }
        let mut i: usize = 0;
        while i < self.entries.len()
            invariant
                keys_sorted(self.entries@),
                i <= self.entries@.len(),
                forall|j: int| 0 <= j < i ==> (#[trigger] self.entries@[j]).0@ != key@,
            decreases self.entries@.len() - i,
        {
            if str_eq(self.entries[i].0.as_str(), key) {
                proof {
                    lemma_sorted_index(self.entries@, i as int);
                }
                return Some(&self.entries[i].1);
            }
            i = i + 1;
        }
        None
    }

    /// Sets `key` to `value`, in place of any value it had, keeping the keys in order.
    pub fn insert(&mut self, key: String, value: V)
        ensures
            final(self)@ == old(self)@.insert(key@, value),
    {
        proof {
            use_type_invariant(&*self);
        }
        let ghost old_pairs = self.entries@;
        let ghost k = key@;
        let mut p: usize = 0;
        while p < self.entries.len() && str_lt(self.entries[p].0.as_str(), key.as_str())
            invariant
                old_pairs == self.entries@,
                keys_sorted(old_pairs),
                k == key@,
                p <= old_pairs.len(),
                forall|j: int| 0 <= j < p ==> chars_lt((#[trigger] old_pairs[j]).0@, k),
            decreases old_pairs.len() - p,
        {
            p = p + 1;
        }
        let replace = p < self.entries.len() && str_eq(self.entries[p].0.as_str(), key.as_str());
        let mut entries: Vec<(String, V)> = Vec::new();
        std::mem::swap(&mut entries, &mut self.entries);
        if replace {
            entries.set(p, (key, value));
            proof {
                let e = entries@;
                assert forall|a: int, b: int| 0 <= a < b < e.len() implies chars_lt(
                    (#[trigger] e[a]).0@,
                    (#[trigger] e[b]).0@,
                ) by {
                    assert(old_pairs[p as int].0@ == k);
                    if a != p as int {
                        assert(e[a] == old_pairs[a]);
                    }
                    if b != p as int {
                        assert(e[b] == old_pairs[b]);
                    }
                    assert(chars_lt(old_pairs[a].0@, old_pairs[b].0@));
                }
            }
        } else {
            entries.insert(p, (key, value));
            proof {
                let e = entries@;
                assert(p < old_pairs.len() ==> chars_lt(k, old_pairs[p as int].0@)) by {
                    if p < old_pairs.len() {
                        assert(!chars_lt(old_pairs[p as int].0@, k));
                        assert(old_pairs[p as int].0@ != k);
                        lemma_chars_lt_total(old_pairs[p as int].0@, k);
                    }
                }
                assert forall|a: int, b: int| 0 <= a < b < e.len() implies chars_lt(
                    (#[trigger] e[a]).0@,
                    (#[trigger] e[b]).0@,
                ) by {
                    if b < p {
                        assert(e[a] == old_pairs[a] && e[b] == old_pairs[b]);
                    } else if b == p {
                        assert(e[a] == old_pairs[a]);
                    } else if a < p {
                        assert(e[a] == old_pairs[a] && e[b] == old_pairs[b - 1]);
                        assert(chars_lt(old_pairs[a].0@, k));
                        assert(chars_lt(k, old_pairs[p as int].0@));
                        lemma_chars_lt_transitive(old_pairs[a].0@, k, old_pairs[p as int].0@);
                        if b - 1 > p {
                            lemma_chars_lt_transitive(
                                old_pairs[a].0@,
                                old_pairs[p as int].0@,
                                old_pairs[b - 1].0@,
                            );
                        }
                    } else if a == p {
                        assert(e[b] == old_pairs[b - 1]);
                        if b - 1 > p {
                            lemma_chars_lt_transitive(
                                k,
                                old_pairs[p as int].0@,
                                old_pairs[b - 1].0@,
                            );
                        }
                    } else {
                        assert(e[a] == old_pairs[a - 1] && e[b] == old_pairs[b - 1]);
                    }
                }
            }
        }
        self.entries = entries;
        proof {
            lemma_insert_pairs(old_pairs, self.entries@, k, value, p as int, replace);
        }
    }
}

impl<V: Copy> StringMap<V> {
    /// A copy of the map.
    pub fn copied(&self) -> (r: StringMap<V>)
        ensures
            r@ == self@,
    {
        proof {
            use_type_invariant(self);
        }
        let ghost src = self.entries@;
        let mut entries: Vec<(String, V)> = Vec::new();
        let mut i: usize = 0;
        while i < self.entries.len()
            invariant
                src == self.entries@,
                keys_sorted(src),
                i <= src.len(),
                entries@.len() == i,
                forall|j: int|
                    0 <= j < i ==> (#[trigger] entries@[j]).0@ == src[j].0@ && entries@[j].1
                        == src[j].1,
            decreases src.len() - i,
        {
            let key = owned(self.entries[i].0.as_str());
            entries.push((key, self.entries[i].1));
            i = i + 1;
        }
        let ghost e = entries@;
        assert forall|a: int, b: int| 0 <= a < b < e.len() implies chars_lt(
            (#[trigger] e[a]).0@,
            (#[trigger] e[b]).0@,
        ) by {
            assert(e[a].0@ == src[a].0@ && e[b].0@ == src[b].0@);
        }
        let r = StringMap { entries };
        proof {
            assert forall|k: Seq<char>| #[trigger] has_key(e, k) == has_key(src, k) by {
                if has_key(e, k) {
                    let j = choose|j: int| 0 <= j < e.len() && (#[trigger] e[j]).0@ == k;
                    assert(src[j].0@ == k);
                }
                if has_key(src, k) {
                    let j = choose|j: int| 0 <= j < src.len() && (#[trigger] src[j]).0@ == k;
                    assert(e[j].0@ == k);
                }
            }
            assert forall|k: Seq<char>| has_key(e, k) implies pairs_map(e)[k] == pairs_map(
                src,
            )[k] by {
                let j = key_index(src, k);
                assert(src[j].0@ == k);
                lemma_sorted_index(src, j);
                assert(e[j].0@ == k);
                lemma_sorted_index(e, j);
            }
            assert(pairs_map(e) =~= pairs_map(src));
        }
        r
    }
}

} // verus!
