//! A map from text keys to values, kept in ascending key order.
//!
//! Keys are ordered by the lexicographic order of their characters (code
//! points), which is the order in which Rust orders `String` keys. Iteration
//! order therefore matches an ordered map keyed by `String`.
use vstd::prelude::*;
use crate::text::{chars_of, vec_eq};

verus! {

broadcast use vstd::string::group_string_axioms;

// ─── Key order ──────────────────────────────────────────────────────────────

/// Strict lexicographic order on character sequences.
pub open spec fn str_lt(a: Seq<char>, b: Seq<char>) -> bool
    decreases a.len(),
{
    if a.len() == 0 {
        b.len() > 0
    } else if b.len() == 0 {
        false
    } else if a[0] != b[0] {
        a[0] < b[0]
    } else {
        str_lt(a.drop_first(), b.drop_first())
    }
}

pub proof fn lemma_str_lt_irreflexive(a: Seq<char>)
    ensures
        !str_lt(a, a),
    decreases a.len(),
{
    if a.len() > 0 {
        lemma_str_lt_irreflexive(a.drop_first());
    }
}

pub proof fn lemma_str_lt_transitive(a: Seq<char>, b: Seq<char>, c: Seq<char>)
    requires
        str_lt(a, b),
        str_lt(b, c),
    ensures
        str_lt(a, c),
    decreases a.len(),
{
    if a.len() > 0 && b.len() > 0 && c.len() > 0 && a[0] == b[0] && b[0] == c[0] {
        lemma_str_lt_transitive(a.drop_first(), b.drop_first(), c.drop_first());
    }
}

/// Two different sequences are ordered one way or the other.
pub proof fn lemma_str_lt_total(a: Seq<char>, b: Seq<char>)
    requires
        a != b,
    ensures
        str_lt(a, b) || str_lt(b, a),
    decreases a.len(),
{
    if a.len() > 0 && b.len() > 0 && a[0] == b[0] {
        if a.drop_first() == b.drop_first() {
            assert(a =~= seq![a[0]] + a.drop_first());
            assert(b =~= seq![b[0]] + b.drop_first());
        }
        lemma_str_lt_total(a.drop_first(), b.drop_first());
    } else if a.len() == 0 && b.len() == 0 {
        assert(a =~= b);
    }
}

pub proof fn lemma_str_lt_asymmetric(a: Seq<char>, b: Seq<char>)
    requires
        str_lt(a, b),
    ensures
        !str_lt(b, a),
{
    if str_lt(b, a) {
        lemma_str_lt_transitive(a, b, a);
        lemma_str_lt_irreflexive(a);
    }
}

/// Does `a` come strictly before `b` in key order?
pub fn chars_lt(a: &Vec<char>, b: &Vec<char>) -> (r: bool)
    ensures
        r == str_lt(a@, b@),
{
    let mut i: usize = 0;
    assert(a@.skip(0) =~= a@);
    assert(b@.skip(0) =~= b@);
    while i < a.len() && i < b.len() && a[i] == b[i]
        invariant
            i <= a.len(),
            i <= b.len(),
            str_lt(a@, b@) == str_lt(a@.skip(i as int), b@.skip(i as int)),
        decreases a.len() - i,
    {
        assert(a@.skip(i as int).drop_first() =~= a@.skip(i + 1));
        assert(b@.skip(i as int).drop_first() =~= b@.skip(i + 1));
        i = i + 1;
    }
    if i == a.len() {
        i < b.len()
    } else if i == b.len() {
        false
    } else {
        a[i] < b[i]
    }
}

// ─── Entry sequences ────────────────────────────────────────────────────────

/// The keys are in strictly ascending order (so no key occurs twice).
pub open spec fn keys_sorted<V>(s: Seq<(Seq<char>, V)>) -> bool {
    forall|i: int, j: int| 0 <= i < j < s.len() ==> str_lt(#[trigger] s[i].0, #[trigger] s[j].0)
}

/// Position of the first entry with key `k`, or `-1` when there is none.
pub open spec fn key_pos<V>(s: Seq<(Seq<char>, V)>, k: Seq<char>) -> int
    decreases s.len(),
{
    if s.len() == 0 {
        -1
    } else if s[0].0 == k {
        0
    } else {
        let r = key_pos(s.drop_first(), k);
        if r < 0 {
            -1
        } else {
            r + 1
        }
    }
}

/// The value stored under `k`, if any.
pub open spec fn lookup<V>(s: Seq<(Seq<char>, V)>, k: Seq<char>) -> Option<V> {
    if key_pos(s, k) >= 0 {
        Some(s[key_pos(s, k)].1)
    } else {
        None
    }
}

pub proof fn lemma_key_pos<V>(s: Seq<(Seq<char>, V)>, k: Seq<char>)
    ensures
        -1 <= key_pos(s, k) < s.len(),
        key_pos(s, k) == -1 <==> (forall|i: int| 0 <= i < s.len() ==> s[i].0 != k),
        key_pos(s, k) >= 0 ==> s[key_pos(s, k)].0 == k && (forall|j: int|
            0 <= j < key_pos(s, k) ==> s[j].0 != k),
    decreases s.len(),
{
    if s.len() > 0 && s[0].0 != k {
        let t = s.drop_first();
        lemma_key_pos(t, k);
        assert forall|i: int| 1 <= i < s.len() implies s[i] == t[i - 1] by {}
        if key_pos(t, k) == -1 {
            assert forall|i: int| 0 <= i < s.len() implies s[i].0 != k by {
                if i > 0 {
                    assert(s[i] == t[i - 1]);
                }
            }
        } else {
            assert forall|j: int| 0 <= j < key_pos(s, k) implies s[j].0 != k by {
                if j > 0 {
                    assert(s[j] == t[j - 1]);
                }
            }
        }
    }
}

/// In a sorted sequence, an entry holding key `k` is found at its own position.
pub proof fn lemma_key_pos_sorted<V>(s: Seq<(Seq<char>, V)>, k: Seq<char>, i: int)
    requires
        keys_sorted(s),
        0 <= i < s.len(),
        s[i].0 == k,
    ensures
        key_pos(s, k) == i,
{
    lemma_key_pos(s, k);
    let p = key_pos(s, k);
    if p != i {
        if p < i {
            lemma_str_lt_irreflexive(k);
            assert(str_lt(s[p].0, s[i].0));
        }
    }
}

/// Lookup in a sorted sequence after inserting an entry at position `i`.
pub proof fn lemma_lookup_insert<V>(s: Seq<(Seq<char>, V)>, i: int, k: Seq<char>, v: V)
    requires
        keys_sorted(s),
        keys_sorted(s.insert(i, (k, v))),
        0 <= i <= s.len(),
    ensures
        forall|key: Seq<char>| #[trigger]
            lookup(s.insert(i, (k, v)), key) == if key == k {
                Some(v)
            } else {
                lookup(s, key)
            },
{
    let t = s.insert(i, (k, v));
    assert forall|key: Seq<char>| #[trigger]
        lookup(t, key) == if key == k {
            Some(v)
        } else {
            lookup(s, key)
        } by {
        lemma_key_pos(s, key);
        lemma_key_pos(t, key);
        if key == k {
            lemma_key_pos_sorted(t, key, i);
        } else if key_pos(s, key) >= 0 {
            let p = key_pos(s, key);
            if p < i {
                assert(t[p] == s[p]);
                lemma_key_pos_sorted(t, key, p);
            } else {
                assert(t[p + 1] == s[p]);
                lemma_key_pos_sorted(t, key, p + 1);
            }
        } else {
            assert forall|j: int| 0 <= j < t.len() implies t[j].0 != key by {
                if j < i {
                    assert(t[j] == s[j]);
                } else if j > i {
                    assert(t[j] == s[j - 1]);
                }
            }
        }
    }
}

/// Lookup in a sorted sequence after replacing the value at position `i`.
pub proof fn lemma_lookup_update<V>(s: Seq<(Seq<char>, V)>, i: int, v: V)
    requires
        keys_sorted(s),
        0 <= i < s.len(),
    ensures
        keys_sorted(s.update(i, (s[i].0, v))),
        forall|key: Seq<char>| #[trigger]
            lookup(s.update(i, (s[i].0, v)), key) == if key == s[i].0 {
                Some(v)
            } else {
                lookup(s, key)
            },
{
    let t = s.update(i, (s[i].0, v));
    assert forall|a: int, b: int| 0 <= a < b < t.len() implies str_lt(
        #[trigger] t[a].0,
        #[trigger] t[b].0,
    ) by {
        assert(t[a].0 == s[a].0 && t[b].0 == s[b].0);
    }
    assert forall|key: Seq<char>| #[trigger]
        lookup(t, key) == if key == s[i].0 {
            Some(v)
        } else {
            lookup(s, key)
        } by {
        lemma_key_pos(s, key);
        lemma_key_pos(t, key);
        if key == s[i].0 {
            lemma_key_pos_sorted(t, key, i);
        } else if key_pos(s, key) >= 0 {
            let p = key_pos(s, key);
            lemma_key_pos_sorted(t, key, p);
        } else {
            assert forall|j: int| 0 <= j < t.len() implies t[j].0 != key by {
                if j != i {
                    assert(t[j] == s[j]);
                }
            }
        }
    }
}

/// Lookup in a sorted sequence after removing the entry at position `i`.
pub proof fn lemma_lookup_remove<V>(s: Seq<(Seq<char>, V)>, i: int)
    requires
        keys_sorted(s),
        0 <= i < s.len(),
    ensures
        keys_sorted(s.remove(i)),
        forall|key: Seq<char>| #[trigger]
            lookup(s.remove(i), key) == if key == s[i].0 {
                None
            } else {
                lookup(s, key)
            },
{
    let t = s.remove(i);
    assert forall|a: int, b: int| 0 <= a < b < t.len() implies str_lt(
        #[trigger] t[a].0,
        #[trigger] t[b].0,
    ) by {
        let a2 = if a < i { a } else { a + 1 };
        let b2 = if b < i { b } else { b + 1 };
        assert(t[a] == s[a2] && t[b] == s[b2]);
    }
    assert forall|key: Seq<char>| #[trigger]
        lookup(t, key) == if key == s[i].0 {
            None
        } else {
            lookup(s, key)
        } by {
        lemma_key_pos(s, key);
        lemma_key_pos(t, key);
        if key == s[i].0 {
            assert forall|j: int| 0 <= j < t.len() implies t[j].0 != key by {
                lemma_str_lt_irreflexive(key);
                if j < i {
                    assert(t[j] == s[j]);
                    assert(str_lt(s[j].0, s[i].0));
                } else {
                    assert(t[j] == s[j + 1]);
                    assert(str_lt(s[i].0, s[j + 1].0));
                }
            }
        } else if key_pos(s, key) >= 0 {
            let p = key_pos(s, key);
            if p < i {
                assert(t[p] == s[p]);
                lemma_key_pos_sorted(t, key, p);
            } else {
                assert(t[p - 1] == s[p]);
                lemma_key_pos_sorted(t, key, p - 1);
            }
        } else {
            assert forall|j: int| 0 <= j < t.len() implies t[j].0 != key by {
                if j < i {
                    assert(t[j] == s[j]);
                } else {
                    assert(t[j] == s[j + 1]);
                }
            }
        }
    }
}

// ─── The map ────────────────────────────────────────────────────────────────

/// A map from `String` keys to values, iterated in ascending key order.
pub struct TextMap<V> {
    entries: Vec<(String, V)>,
}

impl<V> View for TextMap<V> {
    type V = Seq<(Seq<char>, V)>;

    /// The entries in ascending key order, keys taken by their characters.
    closed spec fn view(&self) -> Seq<(Seq<char>, V)> {
        Seq::new(self.entries@.len(), |i: int| (self.entries@[i].0@, self.entries@[i].1))
    }
}

impl<V> TextMap<V> {
    /// The entries are kept in ascending key order.
    pub open spec fn wf(&self) -> bool {
        keys_sorted(self@)
    }

    /// An empty map.
    pub fn new() -> (m: Self)
        ensures
            m.wf(),
            m@ == Seq::<(Seq<char>, V)>::empty(),
    {
        let m = TextMap { entries: Vec::new() };
        assert(m@ =~= Seq::<(Seq<char>, V)>::empty());
        m
    }

    /// Number of entries.
    pub fn len(&self) -> (n: usize)
        ensures
            n == self@.len(),
    {
        self.entries.len()
    }

    pub fn is_empty(&self) -> (b: bool)
        ensures
            b == (self@.len() == 0),
    {
        self.entries.len() == 0
    }

    /// The key of the entry at position `i`.
    pub fn key_at(&self, i: usize) -> (k: &String)
        requires
            i < self@.len(),
        ensures
            k@ == self@[i as int].0,
    {
        &self.entries[i].0
    }

    /// The value of the entry at position `i`.
    pub fn value_at(&self, i: usize) -> (v: &V)
        requires
            i < self@.len(),
        ensures
            *v == self@[i as int].1,
    {
        &self.entries[i].1
    }

    /// Position of the entry with key `key`.
    pub fn find(&self, key: &str) -> (r: Option<usize>)
        ensures
            match r {
                Some(i) => i < self@.len() && key_pos(self@, key@) == i as int,
                None => key_pos(self@, key@) == -1,
            },
    {
        let kv = chars_of(key);
        let mut i: usize = 0;
        proof {
            lemma_key_pos(self@, key@);
        }
        while i < self.entries.len()
            invariant
                i <= self.entries@.len(),
                kv@ == key@,
                self@.len() == self.entries@.len(),
                forall|j: int| 0 <= j < i ==> self@[j].0 != key@,
                -1 <= key_pos(self@, key@) < self@.len(),
                key_pos(self@, key@) == -1 <==> (forall|j: int|
                    0 <= j < self@.len() ==> self@[j].0 != key@),
                key_pos(self@, key@) >= 0 ==> self@[key_pos(self@, key@)].0 == key@ && (forall|
                    j: int,
                | 0 <= j < key_pos(self@, key@) ==> self@[j].0 != key@),
            decreases self.entries.len() - i,
        {
            assert(self@[i as int].0 == self.entries@[i as int].0@);
            if vec_eq(&chars_of(&self.entries[i].0), &kv) {
                return Some(i);
            }
            i = i + 1;
        }
        None
    }

    /// Is there an entry with key `key`?
    pub fn contains_key(&self, key: &str) -> (b: bool)
        ensures
            b == (lookup(self@, key@) is Some),
    {
        self.find(key).is_some()
    }

    /// The value stored under `key`.
    pub fn get(&self, key: &str) -> (r: Option<&V>)
        ensures
            match r {
                Some(v) => lookup(self@, key@) == Some(*v),
                None => lookup(self@, key@) is None,
            },
    {
        match self.find(key) {
            Some(i) => Some(&self.entries[i].1),
            None => None,
        }
    }

    /// A mutable reference to the value stored under `key`.
    pub fn get_mut(&mut self, key: &str) -> (r: Option<&mut V>)
        ensures
            match r {
                Some(v) => {
                    &&& lookup(old(self)@, key@) == Some(*v)
                    &&& final(self)@ == old(self)@.update(
                        key_pos(old(self)@, key@),
                        (key@, *final(v)),
                    )
                },
                None => {
                    &&& lookup(old(self)@, key@) is None
                    &&& final(self)@ == old(self)@
                },
            },
    {
        match self.find(key) {
            Some(i) => {
                proof {
                    lemma_key_pos(self@, key@);
                }
                let r = &mut self.entries[i].1;
                Some(r)
            },
            None => None,
        }
    }

    /// Stores `value` under `key`, replacing any earlier value.
    pub fn insert(&mut self, key: String, value: V)
        requires
            old(self).wf(),
        ensures
            final(self).wf(),
            forall|k: Seq<char>| #[trigger]
                lookup(final(self)@, k) == if k == key@ {
                    Some(value)
                } else {
                    lookup(old(self)@, k)
                },
            final(self)@.len() == old(self)@.len() + if lookup(old(self)@, key@) is Some {
                0int
            } else {
                1int
            },
    {
        let kv = chars_of(key.as_str());
        let mut i: usize = 0;
        while i < self.entries.len()
            invariant
                i <= self.entries@.len(),
                kv@ == key@,
                self@.len() == self.entries@.len(),
                self == old(self),
                keys_sorted(self@),
                forall|j: int| 0 <= j < i ==> str_lt(#[trigger] self@[j].0, key@),
            ensures
                i <= self.entries@.len(),
                i < self.entries@.len() ==> !str_lt(self@[i as int].0, key@),
            decreases self.entries.len() - i,
        {
            assert(self@[i as int].0 == self.entries@[i as int].0@);
            if !chars_lt(&chars_of(&self.entries[i].0), &kv) {
                break;
            }
            i = i + 1;
        }
        let ghost s = self@;
        proof {
            if i < self.entries.len() {
                assert(s[i as int].0 == self.entries@[i as int].0@);
            }
        }
        if i < self.entries.len() && vec_eq(&chars_of(&self.entries[i].0), &kv) {
            assert(s[i as int].0 == key@);
            self.entries.set(i, (key, value));
            proof {
                assert(self@ =~= s.update(i as int, (s[i as int].0, value)));
                lemma_lookup_update(s, i as int, value);
                lemma_key_pos_sorted(s, key@, i as int);
            }
        } else {
            proof {
                if i < s.len() {
                    lemma_str_lt_total(s[i as int].0, key@);
                }
            }
            self.entries.insert(i, (key, value));
            proof {
                let t = s.insert(i as int, (key@, value));
                assert(self@ =~= t);
                assert forall|a: int, b: int| 0 <= a < b < t.len() implies str_lt(
                    #[trigger] t[a].0,
                    #[trigger] t[b].0,
                ) by {
                    if b < i {
                        assert(t[a] == s[a] && t[b] == s[b]);
                    } else if b == i {
                        assert(t[a] == s[a]);
                    } else if a < i {
                        assert(t[a] == s[a] && t[b] == s[b - 1]);
                        assert(str_lt(s[a].0, key@));
                        assert(str_lt(key@, s[i as int].0));
                        if b - 1 > i {
                            assert(str_lt(s[i as int].0, s[b - 1].0));
                            lemma_str_lt_transitive(key@, s[i as int].0, s[b - 1].0);
                        }
                        lemma_str_lt_transitive(s[a].0, key@, s[b - 1].0);
                    } else if a == i {
                        assert(t[b] == s[b - 1]);
                        if b - 1 > i {
                            assert(str_lt(s[i as int].0, s[b - 1].0));
                            lemma_str_lt_transitive(key@, s[i as int].0, s[b - 1].0);
                        }
                    } else {
                        assert(t[a] == s[a - 1] && t[b] == s[b - 1]);
                    }
                }
                lemma_lookup_insert(s, i as int, key@, value);
                lemma_key_pos(s, key@);
                assert forall|j: int| 0 <= j < s.len() implies s[j].0 != key@ by {
                    lemma_str_lt_irreflexive(key@);
                    if j < i {
                        assert(str_lt(s[j].0, key@));
                    } else if j > i {
                        assert(str_lt(s[i as int].0, s[j].0));
                        lemma_str_lt_asymmetric(key@, s[i as int].0);
                        if s[j].0 == key@ {
                            lemma_str_lt_asymmetric(s[i as int].0, key@);
                        }
                    }
                }
            }
        }
    }

    /// Removes the entry with key `key`, returning its value.
    pub fn remove(&mut self, key: &str) -> (r: Option<V>)
        requires
            old(self).wf(),
        ensures
            final(self).wf(),
            r == lookup(old(self)@, key@),
            forall|k: Seq<char>| #[trigger]
                lookup(final(self)@, k) == if k == key@ {
                    None
                } else {
                    lookup(old(self)@, k)
                },
            r is Some ==> final(self)@.len() == old(self)@.len() - 1,
            r is None ==> final(self)@ == old(self)@,
    {
        match self.find(key) {
            Some(i) => {
                proof {
                    lemma_key_pos(self@, key@);
                }
                let ghost s = self@;
                let (_, v) = self.entries.remove(i);
                proof {
                    assert(self@ =~= s.remove(i as int));
                    lemma_lookup_remove(s, i as int);
                }
                Some(v)
            },
            None => {
                proof {
                    assert forall|k: Seq<char>| #[trigger]
                        lookup(self@, k) == if k == key@ {
                            None
                        } else {
                            lookup(self@, k)
                        } by {}
                }
                None
            },
        }
    }

    /// Removes every entry.
    pub fn clear(&mut self)
        ensures
            final(self).wf(),
            final(self)@ == Seq::<(Seq<char>, V)>::empty(),
    {
        self.entries.clear();
        assert(self@ =~= Seq::<(Seq<char>, V)>::empty());
    }
}

} // verus!
