//! Maps from strings, kept in the order of their keys.

use vstd::prelude::*;
use crate::text::{chars_of, eq};

verus! {

/// `a` comes before `b` in the order of their characters.
pub open spec fn before(a: Seq<char>, b: Seq<char>) -> bool
    decreases a.len(),
{
    if b.len() == 0 {
        false
    } else if a.len() == 0 {
        true
    } else if a[0] != b[0] {
        a[0] < b[0]
    } else {
        before(a.skip(1), b.skip(1))
    }
}

/// Whether `a` comes before `b` in the order of their characters.
pub fn comes_before(a: &[char], b: &[char]) -> (r: bool)
    ensures
        r == before(a@, b@),
{
    let mut i: usize = 0;
    assert(a@.skip(0) == a@);
    assert(b@.skip(0) == b@);
    loop
        invariant
            i <= a@.len(),
            i <= b@.len(),
            before(a@, b@) == before(a@.skip(i as int), b@.skip(i as int)),
        decreases a@.len() - i,
    {
        if i >= b.len() {
            return false;
        }
        if i >= a.len() {
            return true;
        }
        if a[i] != b[i] {
            return a[i] < b[i];
        }
        assert(a@.skip(i as int).skip(1) == a@.skip(i + 1));
        assert(b@.skip(i as int).skip(1) == b@.skip(i + 1));
        i += 1;
    }
}

/// How many leading keys of `s` come before `k`.
pub open spec fn rank<V>(s: Seq<(Seq<char>, V)>, k: Seq<char>) -> int
    decreases s.len(),
{
    if s.len() == 0 || !before(s[0].0, k) {
        0
    } else {
        1 + rank(s.skip(1), k)
    }
}

/// The value that the ordered entries `s` hold for the key `k`.
pub open spec fn lookup<V>(s: Seq<(Seq<char>, V)>, k: Seq<char>) -> Option<V> {
    let i = rank(s, k);
    if i < s.len() && s[i].0 == k {
        Some(s[i].1)
    } else {
        None
    }
}

/// The ordered entries `s` with the value `v` for the key `k`.
pub open spec fn with_entry<V>(s: Seq<(Seq<char>, V)>, k: Seq<char>, v: V) -> Seq<(Seq<char>, V)> {
    let i = rank(s, k);
    if i < s.len() && s[i].0 == k {
        s.update(i, (k, v))
    } else {
        s.insert(i, (k, v))
    }
}

/// The keys of `s` ascend.
pub open spec fn ascending<V>(s: Seq<(Seq<char>, V)>) -> bool {
    forall|i: int, j: int| 0 <= i < j < s.len() ==> before(#[trigger] s[i].0, #[trigger] s[j].0)
}

proof fn lemma_before_total(a: Seq<char>, b: Seq<char>)
    ensures
        before(a, b) || before(b, a) || a == b,
        !(before(a, b) && before(b, a)),
        !before(a, a),
    decreases a.len(),
{
    if a.len() > 0 && b.len() > 0 && a[0] == b[0] {
        lemma_before_total(a.skip(1), b.skip(1));
        if a.skip(1) == b.skip(1) {
            assert(a =~= seq![a[0]] + a.skip(1));
            assert(b =~= seq![b[0]] + b.skip(1));
        }
    }
    if a.len() == 0 && b.len() == 0 {
        assert(a =~= b);
    }
    if a.len() > 0 {
        lemma_before_irreflexive(a);
    }
}

proof fn lemma_before_irreflexive(a: Seq<char>)
    ensures
        !before(a, a),
    decreases a.len(),
{
    if a.len() > 0 {
        lemma_before_irreflexive(a.skip(1));
    }
}

proof fn lemma_before_transitive(a: Seq<char>, b: Seq<char>, c: Seq<char>)
    requires
        before(a, b),
        before(b, c),
    ensures
        before(a, c),
    decreases a.len(),
{
    if a.len() > 0 && b.len() > 0 && c.len() > 0 {
        if a[0] == b[0] && b[0] == c[0] {
            lemma_before_transitive(a.skip(1), b.skip(1), c.skip(1));
        }
    }
}

/// The keys in front of the rank of `k` come before `k`; the key at the rank,
/// if there is one, does not.
pub proof fn lemma_rank<V>(s: Seq<(Seq<char>, V)>, k: Seq<char>)
    ensures
        0 <= rank(s, k) <= s.len(),
        forall|i: int| 0 <= i < rank(s, k) ==> before(#[trigger] s[i].0, k),
        rank(s, k) < s.len() ==> !before(s[rank(s, k)].0, k),
    decreases s.len(),
{
    if s.len() > 0 && before(s[0].0, k) {
        lemma_rank(s.skip(1), k);
        assert forall|i: int| 0 <= i < rank(s, k) implies before(#[trigger] s[i].0, k) by {
            if i > 0 {
                assert(s.skip(1)[i - 1] == s[i]);
            }
        }
    }
}

/// The rank is the only position with that property.
proof fn lemma_rank_is<V>(s: Seq<(Seq<char>, V)>, k: Seq<char>, n: int)
    requires
        0 <= n <= s.len(),
        forall|i: int| 0 <= i < n ==> before(#[trigger] s[i].0, k),
        n < s.len() ==> !before(s[n].0, k),
    ensures
        rank(s, k) == n,
    decreases s.len(),
{
    if n > 0 {
        assert(before(s[0].0, k));
        assert forall|i: int| 0 <= i < n - 1 implies before(#[trigger] s.skip(1)[i].0, k) by {
            assert(s.skip(1)[i] == s[i + 1]);
        }
        lemma_rank_is(s.skip(1), k, n - 1);
    }
}

/// Storing a value keeps the keys ascending.
pub proof fn law_with_entry_ascending<V>(s: Seq<(Seq<char>, V)>, k: Seq<char>, v: V)
    requires
        ascending(s),
    ensures
        ascending(with_entry(s, k, v)),
{
    let n = rank(s, k);
    let t = with_entry(s, k, v);
    lemma_rank(s, k);
    assert forall|i: int, j: int| 0 <= i < j < t.len() implies before(
        #[trigger] t[i].0,
        #[trigger] t[j].0,
    ) by {
        if n < s.len() && s[n].0 == k {
            assert(t[i].0 == s[i].0);
            assert(t[j].0 == s[j].0);
        } else {
            if j < n {
                assert(before(s[i].0, s[j].0));
            } else if j == n {
                assert(before(s[i].0, k));
            } else {
                let b = s[j - 1].0;
                assert(n <= j - 1);
                lemma_before_total(s[n].0, k);
                assert(before(k, s[n].0));
                if n < j - 1 {
                    assert(before(s[n].0, s[j - 1].0));
                    lemma_before_transitive(k, s[n].0, b);
                }
                if i < n {
                    lemma_before_transitive(s[i].0, k, b);
                } else if i > n {
                    assert(before(s[i - 1].0, s[j - 1].0));
                }
            }
        }
    }
}

/// A lookup gives back the value that was stored last for the key.
pub proof fn law_lookup_stored<V>(s: Seq<(Seq<char>, V)>, k: Seq<char>, v: V)
    ensures
        lookup(with_entry(s, k, v), k) == Some(v),
{
    let n = rank(s, k);
    let t = with_entry(s, k, v);
    lemma_rank(s, k);
    lemma_before_total(k, k);
    assert forall|i: int| 0 <= i < n implies before(#[trigger] t[i].0, k) by {
        assert(t[i] == s[i]);
    }
    lemma_rank_is(t, k, n);
}

/// Storing a value for one key leaves the values of the others as they were.
pub proof fn law_lookup_other<V>(s: Seq<(Seq<char>, V)>, k: Seq<char>, v: V, other: Seq<char>)
    requires
        ascending(s),
        other != k,
    ensures
        lookup(with_entry(s, k, v), other) == lookup(s, other),
{
    let n = rank(s, k);
    let m = rank(s, other);
    let t = with_entry(s, k, v);
    lemma_rank(s, k);
    lemma_rank(s, other);
    lemma_before_total(k, other);
    if n < s.len() && s[n].0 == k {
        assert forall|i: int| 0 <= i < m implies before(#[trigger] t[i].0, other) by {
            assert(before(s[i].0, other));
        }
        lemma_rank_is(t, other, m);
    } else if before(k, other) {
        assert(n <= m) by {
            if m < n {
                assert(before(s[m].0, k));
                lemma_before_transitive(s[m].0, k, other);
            }
        }
        assert forall|i: int| 0 <= i < m + 1 implies before(#[trigger] t[i].0, other) by {
            if i < n {
                assert(before(s[i].0, other));
            } else if i > n {
                assert(before(s[i - 1].0, other));
            }
        }
        lemma_rank_is(t, other, m + 1);
    } else {
        assert(m <= n) by {
            if n < m {
                assert(before(s[n].0, other));
                lemma_before_transitive(s[n].0, other, k);
            }
        }
        assert forall|i: int| 0 <= i < m implies before(#[trigger] t[i].0, other) by {
            assert(before(s[i].0, other));
        }
        lemma_rank_is(t, other, m);
    }
}

/// A map from strings, its entries in the order of their keys.
#[derive(Debug)]
pub struct StrMap<V> {
    pub entries: Vec<(String, V)>,
}

impl<V: DeepView> View for StrMap<V> {
    type V = Seq<(Seq<char>, V::V)>;

    open spec fn view(&self) -> Seq<(Seq<char>, V::V)> {
        self.entries.deep_view()
    }
}

impl<V: DeepView> DeepView for StrMap<V> {
    type V = Seq<(Seq<char>, V::V)>;

    open spec fn deep_view(&self) -> Seq<(Seq<char>, V::V)> {
        self.entries.deep_view()
    }
}

impl<V: DeepView> StrMap<V> {
    /// The keys ascend: no key stands twice, and each stands in its place.
    #[verifier::opaque]
    pub open spec fn wf(self) -> bool {
        ascending(self@)
    }

    /// A map without entries.
    pub fn new() -> (r: Self)
        ensures
            r@ == Seq::<(Seq<char>, V::V)>::empty(),
            r.wf(),
    {
        reveal(StrMap::wf);
        let r = StrMap { entries: Vec::new() };
        assert(r@ =~= Seq::<(Seq<char>, V::V)>::empty());
        r
    }

    /// The position at which the key stands or would be put.
    fn position(&self, key: &str) -> (r: usize)
        ensures
            r == rank(self@, key@),
            r <= self@.len(),
    {
        let k = chars_of(key);
        let n: usize = self.entries.len();
        let mut i: usize = 0;
        assert(self@.skip(0) == self@);
        while i < n
            invariant
                i <= n,
                n == self.entries@.len(),
                k@ == key@,
                rank(self@, key@) == i + rank(self@.skip(i as int), key@),
            decreases n - i,
        {
            let c = chars_of(self.entries[i].0.as_str());
            assert(self@.skip(i as int)[0] == self@[i as int]);
            if !comes_before(c.as_slice(), k.as_slice()) {
                return i;
            }
            assert(self@.skip(i as int).skip(1) == self@.skip(i + 1));
            i += 1;
        }
        i
    }

    /// The value for the key.
    pub fn get(&self, key: &str) -> (r: Option<&V>)
        ensures
            match r {
                Some(v) => lookup(self@, key@) == Some(v.deep_view()),
                None => lookup(self@, key@) is None,
            },
    {
        let i: usize = self.position(key);
        if i < self.entries.len() && eq(self.entries[i].0.as_str(), key) {
            Some(&self.entries[i].1)
        } else {
            None
        }
    }

    /// Whether there is a value for the key.
    pub fn contains_key(&self, key: &str) -> (r: bool)
        ensures
            r == (lookup(self@, key@) is Some),
    {
        self.get(key).is_some()
    }

    /// The number of entries.
    pub fn len(&self) -> (r: usize)
        ensures
            r == self@.len(),
    {
        self.entries.len()
    }

    /// Whether there are no entries.
    pub fn is_empty(&self) -> (r: bool)
        ensures
            r == (self@.len() == 0),
    {
        self.entries.len() == 0
    }

    /// Stores a value for the key, in place of the one before.
    pub fn insert(&mut self, key: String, value: V)
        ensures
            final(self)@ == with_entry(old(self)@, key@, value.deep_view()),
            old(self).wf() ==> final(self).wf(),
    {
        reveal(StrMap::wf);
        proof {
            if self.wf() {
                law_with_entry_ascending(self@, key@, value.deep_view());
            }
        }
        let i: usize = self.position(key.as_str());
        let ghost before = self@;
        if i < self.entries.len() && eq(self.entries[i].0.as_str(), key.as_str()) {
            self.entries.set(i, (key, value));
            assert(self@ =~= before.update(i as int, (key@, value.deep_view())));
        } else {
            self.entries.insert(i, (key, value));
            assert(self@ =~= before.insert(i as int, (key@, value.deep_view())));
        }
    }
}

/// A key that comes before another one is not that key.
pub proof fn lemma_before_differs(a: Seq<char>, b: Seq<char>)
    requires
        before(a, b),
    ensures
        a != b,
{
    lemma_before_irreflexive(a);
}

} // verus!
