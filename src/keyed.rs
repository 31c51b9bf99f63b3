use vstd::prelude::*;
use vstd::utf8::char_u32_cast;

verus! {

/// Lexicographic order on character sequences, starting at position `i`.
/// Characters compare by code point; a proper prefix sorts first.
pub open spec fn lex_lt_from(a: Seq<char>, b: Seq<char>, i: nat) -> bool
    decreases a.len() - i,
{
    if i >= a.len() {
        i < b.len()
    } else if i >= b.len() {
        false
    } else if a[i as int] != b[i as int] {
        (a[i as int] as u32) < (b[i as int] as u32)
    } else {
        lex_lt_from(a, b, i + 1)
    }
}

/// Lexicographic order on whole character sequences.
pub open spec fn lex_lt(a: Seq<char>, b: Seq<char>) -> bool {
    lex_lt_from(a, b, 0)
}

/// No sequence sorts before itself.
pub proof fn lemma_lex_irreflexive(a: Seq<char>, i: nat)
    ensures
        !lex_lt_from(a, a, i),
    decreases a.len() - i,
{
    if i < a.len() {
        lemma_lex_irreflexive(a, i + 1);
    }
}

/// The order is transitive.
pub proof fn lemma_lex_transitive(a: Seq<char>, b: Seq<char>, c: Seq<char>, i: nat)
    requires
        lex_lt_from(a, b, i),
        lex_lt_from(b, c, i),
    ensures
        lex_lt_from(a, c, i),
    decreases a.len() - i,
{
    if i < a.len() && i < b.len() && i < c.len() && a[i as int] == b[i as int] && b[i as int]
        == c[i as int] {
        lemma_lex_transitive(a, b, c, i + 1);
    }
}

/// Where neither sequence sorts before the other, their rests from `i` on are equal.
pub proof fn lemma_lex_total(a: Seq<char>, b: Seq<char>, i: nat)
    requires
        i <= a.len(),
        i <= b.len(),
        !lex_lt_from(a, b, i),
        !lex_lt_from(b, a, i),
    ensures
        a.subrange(i as int, a.len() as int) == b.subrange(i as int, b.len() as int),
    decreases a.len() - i,
{
    if i < a.len() {
        assert(a[i as int] == b[i as int]) by {
            if a[i as int] != b[i as int] {
                let u = a[i as int] as u32;
                char_u32_cast(a[i as int], u);
                if (b[i as int] as u32) == u {
                    char_u32_cast(b[i as int], u);
                }
            }
        }
        lemma_lex_total(a, b, i + 1);
        assert(a.subrange(i as int, a.len() as int) =~= seq![a[i as int]] + a.subrange(
            (i + 1) as int,
            a.len() as int,
        ));
        assert(b.subrange(i as int, b.len() as int) =~= seq![b[i as int]] + b.subrange(
            (i + 1) as int,
            b.len() as int,
        ));
    } else {
        assert(a.subrange(i as int, a.len() as int) =~= b.subrange(i as int, b.len() as int));
    }
}

/// Two sequences that are not ordered either way are equal.
pub proof fn lemma_lex_trichotomy(a: Seq<char>, b: Seq<char>)
    requires
        !lex_lt(a, b),
        !lex_lt(b, a),
    ensures
        a == b,
{
    lemma_lex_total(a, b, 0);
    assert(a =~= a.subrange(0, a.len() as int));
    assert(b =~= b.subrange(0, b.len() as int));
}

/// Compares two strings in the lexicographic order of their characters.
pub fn str_lt(a: &str, b: &str) -> (r: bool)
    ensures
        r == lex_lt(a@, b@),
{
    let la = a.unicode_len();
    let lb = b.unicode_len();
    let mut i: usize = 0;
    while i < la && i < lb
        invariant
            la == a@.len(),
            lb == b@.len(),
            i <= la,
            i <= lb,
            lex_lt(a@, b@) == lex_lt_from(a@, b@, i as nat),
        decreases la - i,
    {
        let ca = a.get_char(i);
        let cb = b.get_char(i);
        if ca != cb {
            return (ca as u32) < (cb as u32);
        }
        i = i + 1;
    }
    i < lb
}


proof fn lemma_lex_prefix_tail(p: Seq<char>, a: Seq<char>, b: Seq<char>, i: nat)
    ensures
        lex_lt_from(p + a, p + b, p.len() + i) == lex_lt_from(a, b, i),
    decreases a.len() - i,
{
    if i < a.len() && i < b.len() {
        assert((p + a)[(p.len() + i) as int] == a[i as int]);
        assert((p + b)[(p.len() + i) as int] == b[i as int]);
        lemma_lex_prefix_tail(p, a, b, i + 1);
    }
}

proof fn lemma_lex_prefix_head(p: Seq<char>, a: Seq<char>, b: Seq<char>, i: nat)
    requires
        i <= p.len(),
    ensures
        lex_lt_from(p + a, p + b, i) == lex_lt_from(p + a, p + b, p.len()),
    decreases p.len() - i,
{
    if i < p.len() {
        assert((p + a)[i as int] == p[i as int]);
        assert((p + b)[i as int] == p[i as int]);
        lemma_lex_prefix_head(p, a, b, i + 1);
    }
}

/// A common prefix does not change the order of two sequences.
pub proof fn lemma_lex_common_prefix(p: Seq<char>, a: Seq<char>, b: Seq<char>)
    ensures
        lex_lt(p + a, p + b) == lex_lt(a, b),
{
    lemma_lex_prefix_head(p, a, b, 0);
    lemma_lex_prefix_tail(p, a, b, 0);
}

/// Compares two strings for equality of their characters.
pub fn str_eq(a: &str, b: &str) -> (r: bool)
    ensures
        r == (a@ == b@),
{
    let r = !str_lt(a, b) && !str_lt(b, a);
    proof {
        if r {
            lemma_lex_trichotomy(a@, b@);
        } else {
            lemma_lex_irreflexive(a@, 0);
        }
    }
    r
}

/// Whether the keys of `s` are strictly increasing, so that each key occurs once.
pub open spec fn keys_sorted<V>(s: Seq<(Seq<char>, V)>) -> bool {
    forall|i: int, j: int| 0 <= i < j < s.len() ==> lex_lt(#[trigger] s[i].0, #[trigger] s[j].0)
}

/// Whether some entry of `s` has key `k`.
pub open spec fn has_key<V>(s: Seq<(Seq<char>, V)>, k: Seq<char>) -> bool {
    exists|i: int| 0 <= i < s.len() && #[trigger] s[i].0 == k
}

/// The key-value mapping that the entries `s` describe.
pub open spec fn map_of<V>(s: Seq<(Seq<char>, V)>) -> Map<Seq<char>, V> {
    Map::new(
        |k: Seq<char>| has_key(s, k),
        |k: Seq<char>| s[choose|i: int| 0 <= i < s.len() && #[trigger] s[i].0 == k].1,
    )
}

/// In sorted entries, the entry at `i` is the one that `map_of` finds for its key.
pub proof fn lemma_map_of_at<V>(s: Seq<(Seq<char>, V)>, i: int)
    requires
        keys_sorted(s),
        0 <= i < s.len(),
    ensures
        map_of(s).contains_key(s[i].0),
        map_of(s)[s[i].0] == s[i].1,
{
    assert(has_key(s, s[i].0));
    let j = choose|j: int| 0 <= j < s.len() && #[trigger] s[j].0 == s[i].0;
    if j < i {
        assert(lex_lt(s[j].0, s[i].0));
        lemma_lex_irreflexive(s[i].0, 0);
    } else if i < j {
        assert(lex_lt(s[i].0, s[j].0));
        lemma_lex_irreflexive(s[i].0, 0);
    }
}

/// Distinct positions of sorted entries hold distinct keys.
pub proof fn lemma_sorted_distinct<V>(s: Seq<(Seq<char>, V)>, i: int, j: int)
    requires
        keys_sorted(s),
        0 <= i < s.len(),
        0 <= j < s.len(),
        i != j,
    ensures
        s[i].0 != s[j].0,
{
    if i < j {
        assert(lex_lt(s[i].0, s[j].0));
    } else {
        assert(lex_lt(s[j].0, s[i].0));
    }
    lemma_lex_irreflexive(s[i].0, 0);
}

/// Replacing the value of an entry keeps the order and updates the mapping.
proof fn lemma_update_keeps<V>(s: Seq<(Seq<char>, V)>, i: int, k: Seq<char>, v: V)
    requires
        keys_sorted(s),
        0 <= i < s.len(),
        s[i].0 == k,
    ensures
        keys_sorted(s.update(i, (k, v))),
        map_of(s).contains_key(k),
        map_of(s.update(i, (k, v))) == map_of(s).insert(k, v),
{
    let t = s.update(i, (k, v));
    assert forall|a: int, b: int| 0 <= a < b < t.len() implies lex_lt(
        #[trigger] t[a].0,
        #[trigger] t[b].0,
    ) by {
        assert(t[a].0 == s[a].0 && t[b].0 == s[b].0);
    }
    lemma_map_of_at(s, i);
    let m = map_of(s).insert(k, v);
    assert forall|x: Seq<char>| #[trigger] map_of(t).contains_key(x) <==> m.contains_key(x) by {
        if has_key(t, x) {
            let j = choose|j: int| 0 <= j < t.len() && #[trigger] t[j].0 == x;
            assert(s[j].0 == x);
        }
        if has_key(s, x) {
            let j = choose|j: int| 0 <= j < s.len() && #[trigger] s[j].0 == x;
            assert(t[j].0 == x);
        }
    }
    assert forall|x: Seq<char>| #[trigger] map_of(t).contains_key(x) implies map_of(t)[x]
        == m[x] by {
        let j = choose|j: int| 0 <= j < t.len() && #[trigger] t[j].0 == x;
        lemma_map_of_at(t, j);
        if j != i {
            lemma_map_of_at(s, j);
            lemma_sorted_distinct(s, i, j);
        }
    }
    assert(map_of(t) =~= m);
}

/// Placing a new key where it belongs in the order keeps the order and adds
/// the key to the mapping.
proof fn lemma_insert_keeps<V>(s: Seq<(Seq<char>, V)>, i: int, k: Seq<char>, v: V)
    requires
        keys_sorted(s),
        0 <= i <= s.len(),
        forall|j: int| 0 <= j < i ==> lex_lt(#[trigger] s[j].0, k),
        i < s.len() ==> lex_lt(k, s[i].0),
    ensures
        keys_sorted(s.insert(i, (k, v))),
        !map_of(s).contains_key(k),
        map_of(s.insert(i, (k, v))) == map_of(s).insert(k, v),
{
    let t = s.insert(i, (k, v));
    assert forall|j: int| 0 <= j < s.len() implies lex_lt(#[trigger] s[j].0, k) || lex_lt(
        k,
        s[j].0,
    ) by {
        if j > i {
            assert(lex_lt(s[i].0, s[j].0));
            lemma_lex_transitive(k, s[i].0, s[j].0, 0);
        }
    }
    assert forall|a: int, b: int| 0 <= a < b < t.len() implies lex_lt(
        #[trigger] t[a].0,
        #[trigger] t[b].0,
    ) by {
        if b < i {
            assert(t[a] == s[a] && t[b] == s[b]);
        } else if b == i {
            assert(t[a] == s[a]);
        } else if a > i {
            assert(t[a] == s[a - 1] && t[b] == s[b - 1]);
        } else if a == i {
            assert(t[b] == s[b - 1]);
            if b - 1 > i {
                assert(lex_lt(s[i].0, s[b - 1].0));
                lemma_lex_transitive(k, s[i].0, s[b - 1].0, 0);
            }
        } else {
            assert(t[a] == s[a] && t[b] == s[b - 1]);
            if b - 1 > i {
                assert(lex_lt(s[i].0, s[b - 1].0));
                lemma_lex_transitive(k, s[i].0, s[b - 1].0, 0);
            }
            lemma_lex_transitive(s[a].0, k, s[b - 1].0, 0);
        }
    }
    assert(!has_key(s, k)) by {
        lemma_lex_irreflexive(k, 0);
        if has_key(s, k) {
            let j = choose|j: int| 0 <= j < s.len() && #[trigger] s[j].0 == k;
            assert(lex_lt(s[j].0, k) || lex_lt(k, s[j].0));
        }
    }
    let m = map_of(s).insert(k, v);
    assert forall|x: Seq<char>| #[trigger] map_of(t).contains_key(x) <==> m.contains_key(x) by {
        if has_key(t, x) {
            let j = choose|j: int| 0 <= j < t.len() && #[trigger] t[j].0 == x;
            if j < i {
                assert(s[j].0 == x);
            } else if j > i {
                assert(s[j - 1].0 == x);
            }
        }
        if has_key(s, x) {
            let j = choose|j: int| 0 <= j < s.len() && #[trigger] s[j].0 == x;
            if j < i {
                assert(t[j].0 == x);
            } else {
                assert(t[j + 1].0 == x);
            }
        }
        assert(t[i].0 == k);
    }
    assert forall|x: Seq<char>| #[trigger] map_of(t).contains_key(x) implies map_of(t)[x]
        == m[x] by {
        let j = choose|j: int| 0 <= j < t.len() && #[trigger] t[j].0 == x;
        lemma_map_of_at(t, j);
        if j < i {
            lemma_map_of_at(s, j);
            assert(t[j] == s[j]);
            lemma_sorted_distinct(t, i, j);
        } else if j > i {
            lemma_map_of_at(s, j - 1);
            assert(t[j] == s[j - 1]);
            lemma_sorted_distinct(t, i, j);
        }
    }
    assert(map_of(t) =~= m);
}

/// Two sorted entry sequences with the same keys hold those keys at the same
/// positions.
pub proof fn lemma_sorted_same_keys<V, W>(s1: Seq<(Seq<char>, V)>, s2: Seq<(Seq<char>, W)>)
    requires
        keys_sorted(s1),
        keys_sorted(s2),
        forall|k: Seq<char>| has_key(s1, k) <==> has_key(s2, k),
    ensures
        s1.len() == s2.len(),
        forall|i: int| 0 <= i < s1.len() ==> #[trigger] s1[i].0 == s2[i].0,
    decreases s1.len() + s2.len(),
{
    if s1.len() == 0 {
        if s2.len() > 0 {
            assert(has_key(s2, s2[0].0));
        }
    } else if s2.len() == 0 {
        assert(has_key(s1, s1[0].0));
    } else {
        let n1 = s1.len() - 1;
        let n2 = s2.len() - 1;
        let a = s1[n1].0;
        let b = s2[n2].0;
        assert(has_key(s1, a));
        assert(has_key(s2, b));
        let j = choose|j: int| 0 <= j < s2.len() && #[trigger] s2[j].0 == a;
        let jj = choose|j: int| 0 <= j < s1.len() && #[trigger] s1[j].0 == b;
        if a != b {
            assert(lex_lt(s2[j].0, s2[n2].0));
            assert(lex_lt(s1[jj].0, s1[n1].0));
            lemma_lex_transitive(a, b, a, 0);
            lemma_lex_irreflexive(a, 0);
        }
        let t1 = s1.drop_last();
        let t2 = s2.drop_last();
        assert forall|k: Seq<char>| has_key(t1, k) <==> has_key(t2, k) by {
            if has_key(t1, k) {
                let i = choose|i: int| 0 <= i < t1.len() && #[trigger] t1[i].0 == k;
                assert(s1[i].0 == k);
                assert(has_key(s1, k));
                let i2 = choose|i2: int| 0 <= i2 < s2.len() && #[trigger] s2[i2].0 == k;
                lemma_sorted_distinct(s1, i, n1);
                assert(t2[i2].0 == k);
            }
            if has_key(t2, k) {
                let i = choose|i: int| 0 <= i < t2.len() && #[trigger] t2[i].0 == k;
                assert(s2[i].0 == k);
                assert(has_key(s2, k));
                let i1 = choose|i1: int| 0 <= i1 < s1.len() && #[trigger] s1[i1].0 == k;
                lemma_sorted_distinct(s2, i, n2);
                assert(t1[i1].0 == k);
            }
        }
        lemma_sorted_same_keys(t1, t2);
        assert forall|i: int| 0 <= i < s1.len() implies #[trigger] s1[i].0 == s2[i].0 by {
            if i < n1 {
                assert(t1[i].0 == t2[i].0);
            }
        }
    }
}

/// A collection of values under string keys, kept in increasing key order with
/// each key at most once.
#[derive(Clone, Debug)]
pub struct KeyedCollection<V> {
    entries: Vec<(String, V)>,
}

impl<V> View for KeyedCollection<V> {
    type V = Seq<(Seq<char>, V)>;

    closed spec fn view(&self) -> Seq<(Seq<char>, V)> {
        self.entries@.map_values(|e: (String, V)| (e.0@, e.1))
    }
}

impl<V> KeyedCollection<V> {
    /// The entries are in strictly increasing key order.
    pub open spec fn wf(&self) -> bool {
        keys_sorted(self@)
    }

    /// The collection read as a mapping from keys to values.
    pub open spec fn as_map(&self) -> Map<Seq<char>, V> {
        map_of(self@)
    }

    pub fn new() -> (r: Self)
        ensures
            r.wf(),
            r@ == Seq::<(Seq<char>, V)>::empty(),
    {
        let r = KeyedCollection { entries: Vec::new() };
        assert(r@ =~= Seq::<(Seq<char>, V)>::empty());
        r
    }

    pub fn len(&self) -> (r: usize)
        ensures
            r == self@.len(),
    {
        self.entries.len()
    }

    pub fn is_empty(&self) -> (r: bool)
        ensures
            r == (self@.len() == 0),
    {
        self.entries.len() == 0
    }

    /// The entries in key order.
    pub fn entries(&self) -> (r: &Vec<(String, V)>)
        ensures
            r@.len() == self@.len(),
            forall|i: int|
                0 <= i < r@.len() ==> (#[trigger] r@[i]).0@ == self@[i].0 && r@[i].1
                    == self@[i].1,
    {
        &self.entries
    }

    /// Gives up the entries, in key order.
    pub fn into_entries(self) -> (r: Vec<(String, V)>)
        ensures
            r@.len() == self@.len(),
            forall|i: int|
                0 <= i < r@.len() ==> (#[trigger] r@[i]).0@ == self@[i].0 && r@[i].1
                    == self@[i].1,
    {
        self.entries
    }

    /// The value under key `k`, if there is one.
    pub fn get(&self, k: &str) -> (r: Option<&V>)
        requires
            self.wf(),
        ensures
            r is Some <==> self.as_map().contains_key(k@),
            r matches Some(v) ==> *v == self.as_map()[k@],
    {
        let n = self.entries.len();
        let mut i: usize = 0;
        while i < n
            invariant
                n == self@.len(),
                i <= n,
                self.wf(),
                forall|j: int| 0 <= j < i ==> self@[j].0 != k@,
            decreases n - i,
        {
            let key: &str = self.entries[i].0.as_str();
            if !str_lt(key, k) && !str_lt(k, key) {
                proof {
                    lemma_lex_trichotomy(key@, k@);
                    lemma_map_of_at(self@, i as int);
                }
                return Some(&self.entries[i].1);
            }
            proof {
                lemma_lex_irreflexive(k@, 0);
            }
            i = i + 1;
        }
        None
    }

    /// Appends an entry whose key follows every key already present.
    pub fn push_last(&mut self, k: String, v: V)
        requires
            old(self).wf(),
            old(self)@.len() > 0 ==> lex_lt(old(self)@.last().0, k@),
        ensures
            final(self).wf(),
            final(self)@ == old(self)@.push((k@, v)),
    {
        let ghost s = self@;
        self.entries.push((k, v));
        proof {
            assert(self@ =~= s.push((k@, v)));
            assert forall|a: int, b: int| 0 <= a < b < self@.len() implies lex_lt(
                #[trigger] self@[a].0,
                #[trigger] self@[b].0,
            ) by {
                if b == s.len() && a < s.len() - 1 {
                    assert(lex_lt(s[a].0, s[s.len() - 1].0));
                    lemma_lex_transitive(s[a].0, s[s.len() - 1].0, k@, 0);
                }
            }
        }
    }

    /// Puts `v` under key `k`, replacing the value that was there.
    pub fn insert(&mut self, k: String, v: V)
        requires
            old(self).wf(),
        ensures
            final(self).wf(),
            final(self).as_map() == old(self).as_map().insert(k@, v),
            final(self)@.len() == old(self)@.len() + if old(self).as_map().contains_key(k@) {
                0int
            } else {
                1int
            },
    {
        let n = self.entries.len();
        let mut i: usize = 0;
        while i < n && str_lt(self.entries[i].0.as_str(), k.as_str())
            invariant
                n == self@.len(),
                i <= n,
                self.wf(),
                forall|j: int| 0 <= j < i ==> lex_lt(#[trigger] self@[j].0, k@),
            decreases n - i,
        {
            i = i + 1;
        }
        let ghost s = self@;
        if i < n && !str_lt(k.as_str(), self.entries[i].0.as_str()) {
            proof {
                lemma_lex_trichotomy(s[i as int].0, k@);
            }
            self.entries.set(i, (k, v));
            proof {
                assert(self@ =~= s.update(i as int, (k@, v)));
                lemma_update_keeps(s, i as int, k@, v);
            }
        } else {
            self.entries.insert(i, (k, v));
            proof {
                assert(self@ =~= s.insert(i as int, (k@, v)));
                lemma_insert_keeps(s, i as int, k@, v);
            }
        }
    }
}

} // verus!
