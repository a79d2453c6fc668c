//! A map from strings to values, kept as a list of entries.

use vstd::prelude::*;
use crate::text::{find_key, has_key, is_first_key, lookup_key};

verus! {

/// No two entries of a keyed list have the same key.
pub open spec fn unique_keys<T>(s: Seq<(String, T)>) -> bool {
    forall|i: int, j: int| 0 <= i < s.len() && 0 <= j < s.len() && i != j ==> #[trigger] s[i].0@ != #[trigger] s[j].0@
}

/// The map a keyed list stands for.
pub open spec fn map_of<T>(s: Seq<(String, T)>) -> Map<Seq<char>, T> {
    Map::new(|k: Seq<char>| has_key(s, k), |k: Seq<char>| lookup_key(s, k).unwrap())
}

pub proof fn lemma_unique_lookup<T>(s: Seq<(String, T)>, k: Seq<char>, i: int)
    requires
        unique_keys(s),
        0 <= i < s.len(),
        s[i].0@ == k,
    ensures
        is_first_key(s, k, i),
        lookup_key(s, k) == Some(s[i].1),
        map_of(s).contains_key(k),
        map_of(s)[k] == s[i].1,
{
    assert forall|j: int| 0 <= j < i implies #[trigger] s[j].0@ != k by {
        assert(s[j].0@ != s[i].0@);
    }
    assert(has_key(s, k));
    assert(is_first_key(s, k, i));
    let c = choose|c: int| is_first_key(s, k, c);
    if c != i {
        assert(s[c].0@ != s[i].0@);
    }
}

/// Adding an entry of a new key to a list adds it to the map.
pub proof fn lemma_map_of_push<T>(s: Seq<(String, T)>, x: (String, T))
    requires
        unique_keys(s.push(x)),
    ensures
        unique_keys(s),
        map_of(s.push(x)) == map_of(s).insert(x.0@, x.1),
{
    let t = s.push(x);
    assert forall|i: int, j: int| 0 <= i < s.len() && 0 <= j < s.len() && i != j implies #[trigger] s[i].0@
        != #[trigger] s[j].0@ by {
        assert(t[i] == s[i] && t[j] == s[j]);
    }
    assert forall|k: Seq<char>| #[trigger] has_key(t, k) == (has_key(s, k) || k == x.0@) by {
        if has_key(s, k) {
            let i = choose|i: int| 0 <= i < s.len() && #[trigger] s[i].0@ == k;
            assert(t[i].0@ == k);
        }
        if k == x.0@ {
            assert(t[s.len() as int].0@ == k);
        }
        if has_key(t, k) && k != x.0@ {
            let i = choose|i: int| 0 <= i < t.len() && #[trigger] t[i].0@ == k;
            assert(i < s.len());
            assert(s[i].0@ == k);
        }
    }
    assert forall|k: Seq<char>| has_key(t, k) implies #[trigger] lookup_key(t, k).unwrap() == map_of(s).insert(
        x.0@,
        x.1,
    )[k] by {
        if k == x.0@ {
            lemma_unique_lookup(t, k, s.len() as int);
        } else {
            let i = choose|i: int| 0 <= i < t.len() && #[trigger] t[i].0@ == k;
            assert(i < s.len());
            lemma_unique_lookup(t, k, i);
            lemma_unique_lookup(s, k, i);
        }
    }
    assert(map_of(t) =~= map_of(s).insert(x.0@, x.1));
}

/// A map from strings to values; each key occurs once.
#[derive(Debug)]
pub struct KeyedMap<T> {
    entries: Vec<(String, T)>,
}

impl<T> View for KeyedMap<T> {
    type V = Map<Seq<char>, T>;

    closed spec fn view(&self) -> Map<Seq<char>, T> {
        map_of(self.entries@)
    }
}

impl<T> KeyedMap<T> {
    /// Each key occurs once.
    pub closed spec fn wf(&self) -> bool {
        unique_keys(self.entries@)
    }

    /// The entries, in order.
    pub closed spec fn entry_list(&self) -> Seq<(String, T)> {
        self.entries@
    }

    /// The empty map.
    pub fn new() -> (r: Self)
        ensures
            r.wf(),
            r@ == Map::<Seq<char>, T>::empty(),
            r.entry_list().len() == 0,
    {
        let r = KeyedMap { entries: Vec::new() };
        assert(r@ =~= Map::<Seq<char>, T>::empty());
        r
    }

    /// The entries stand for the map, each key once.
    pub proof fn lemma_entries(&self)
        requires
            self.wf(),
        ensures
            unique_keys(self.entry_list()),
            map_of(self.entry_list()) == self@,
    {
    }

    /// Whether the key has an entry.
    pub fn contains_key(&self, k: &String) -> (r: bool)
        ensures
            r == self@.contains_key(k@),
    {
        find_key(&self.entries, k).is_some()
    }

    /// The value under a key.
    pub fn get(&self, k: &String) -> (r: Option<&T>)
        requires
            self.wf(),
        ensures
            match r {
                Some(v) => self@.contains_key(k@) && *v == self@[k@],
                None => !self@.contains_key(k@),
            },
    {
        match find_key(&self.entries, k) {
            Some(i) => {
                proof {
                    lemma_unique_lookup(self.entries@, k@, i as int);
                }
                Some(&self.entries[i].1)
            },
            None => None,
        }
    }

    /// Sets the value under a key.
    pub fn insert(&mut self, k: String, v: T)
        requires
            old(self).wf(),
        ensures
            final(self).wf(),
            final(self)@ == old(self)@.insert(k@, v),
    {
        let ghost s0 = self.entries@;
        let ghost kv = k@;
        match find_key(&self.entries, &k) {
            Some(i) => {
                self.entries.set(i, (k, v));
                let ghost s1 = self.entries@;
                assert forall|a: int, b: int| 0 <= a < s1.len() && 0 <= b < s1.len() && a != b implies #[trigger] s1[a].0@
                    != #[trigger] s1[b].0@ by {
                    assert(s0[a].0@ != s0[b].0@);
                }
                assert(self@ =~= map_of(s0).insert(kv, v)) by {
                    assert forall|x: Seq<char>| #[trigger] has_key(s1, x) == (has_key(s0, x) || x == kv) by {
                        if has_key(s1, x) {
                            let a = choose|a: int| 0 <= a < s1.len() && #[trigger] s1[a].0@ == x;
                            assert(s0[a].0@ == x);
                        }
                        if has_key(s0, x) {
                            let a = choose|a: int| 0 <= a < s0.len() && #[trigger] s0[a].0@ == x;
                            assert(s1[a].0@ == x);
                        }
                        if x == kv {
                            assert(s1[i as int].0@ == x);
                        }
                    }
                    assert forall|x: Seq<char>| has_key(s1, x) implies #[trigger] lookup_key(s1, x).unwrap()
                        == map_of(s0).insert(kv, v)[x] by {
                        let a = choose|a: int| 0 <= a < s1.len() && #[trigger] s1[a].0@ == x;
                        lemma_unique_lookup(s1, x, a);
                        if a != i {
                            lemma_unique_lookup(s0, x, a);
                        }
                    }
                }
            },
            None => {
                self.entries.push((k, v));
                let ghost s1 = self.entries@;
                assert forall|a: int, b: int| 0 <= a < s1.len() && 0 <= b < s1.len() && a != b implies #[trigger] s1[a].0@
                    != #[trigger] s1[b].0@ by {
                    if a < s0.len() && b < s0.len() {
                        assert(s0[a].0@ != s0[b].0@);
                    } else if a < s0.len() {
                        assert(s0[a].0@ == s1[a].0@);
                    } else {
                        assert(s0[b].0@ == s1[b].0@);
                    }
                }
                assert(self@ =~= map_of(s0).insert(kv, v)) by {
                    assert forall|x: Seq<char>| #[trigger] has_key(s1, x) == (has_key(s0, x) || x == kv) by {
                        if has_key(s1, x) {
                            let a = choose|a: int| 0 <= a < s1.len() && #[trigger] s1[a].0@ == x;
                            if a < s0.len() {
                                assert(s0[a].0@ == x);
                            }
                        }
                        if has_key(s0, x) {
                            let a = choose|a: int| 0 <= a < s0.len() && #[trigger] s0[a].0@ == x;
                            assert(s1[a].0@ == x);
                        }
                        if x == kv {
                            assert(s1[s0.len() as int].0@ == x);
                        }
                    }
                    assert forall|x: Seq<char>| has_key(s1, x) implies #[trigger] lookup_key(s1, x).unwrap()
                        == map_of(s0).insert(kv, v)[x] by {
                        let a = choose|a: int| 0 <= a < s1.len() && #[trigger] s1[a].0@ == x;
                        lemma_unique_lookup(s1, x, a);
                        if a < s0.len() {
                            lemma_unique_lookup(s0, x, a);
                        }
                    }
                }
            },
        }
    }

    /// Drops the entry under a key, if any.
    pub fn remove(&mut self, k: &String)
        requires
            old(self).wf(),
        ensures
            final(self).wf(),
            final(self)@ == old(self)@.remove(k@),
    {
        let ghost s0 = self.entries@;
        match find_key(&self.entries, k) {
            Some(i) => {
                self.entries.remove(i);
                let ghost s1 = self.entries@;
                assert(s1 =~= s0.remove(i as int));
                assert forall|a: int, b: int| 0 <= a < s1.len() && 0 <= b < s1.len() && a != b implies #[trigger] s1[a].0@
                    != #[trigger] s1[b].0@ by {
                    let a0 = if a < i { a } else { a + 1 };
                    let b0 = if b < i { b } else { b + 1 };
                    assert(s0[a0].0@ != s0[b0].0@);
                }
                assert(self@ =~= map_of(s0).remove(k@)) by {
                    assert forall|x: Seq<char>| #[trigger] has_key(s1, x) == (has_key(s0, x) && x != k@) by {
                        if has_key(s1, x) {
                            let a = choose|a: int| 0 <= a < s1.len() && #[trigger] s1[a].0@ == x;
                            let a0 = if a < i { a } else { a + 1 };
                            assert(s0[a0].0@ == x);
                            assert(s0[a0].0@ != s0[i as int].0@);
                        }
                        if has_key(s0, x) && x != k@ {
                            let a = choose|a: int| 0 <= a < s0.len() && #[trigger] s0[a].0@ == x;
                            if a < i {
                                assert(s1[a].0@ == x);
                            } else {
                                assert(a != i);
                                assert(s1[a - 1].0@ == x);
                            }
                        }
                    }
                    assert forall|x: Seq<char>| has_key(s1, x) implies #[trigger] lookup_key(s1, x).unwrap()
                        == map_of(s0).remove(k@)[x] by {
                        let a = choose|a: int| 0 <= a < s1.len() && #[trigger] s1[a].0@ == x;
                        let a0 = if a < i { a } else { a + 1 };
                        lemma_unique_lookup(s1, x, a);
                        lemma_unique_lookup(s0, x, a0);
                    }
                }
            },
            None => {
                assert(self@ =~= map_of(s0).remove(k@));
            },
        }
    }

    /// Removes and returns the value under a key.
    pub fn take(&mut self, k: &String) -> (r: Option<T>)
        requires
            old(self).wf(),
        ensures
            final(self).wf(),
            final(self)@ == old(self)@.remove(k@),
            match r {
                Some(v) => old(self)@.contains_key(k@) && v == old(self)@[k@],
                None => !old(self)@.contains_key(k@),
            },
    {
        let ghost s0 = self.entries@;
        match find_key(&self.entries, k) {
            Some(i) => {
                proof {
                    lemma_unique_lookup(s0, k@, i as int);
                }
                let (key, v) = self.entries.remove(i);
                let ghost s1 = self.entries@;
                assert(s1 =~= s0.remove(i as int));
                assert forall|a: int, b: int| 0 <= a < s1.len() && 0 <= b < s1.len() && a != b implies #[trigger] s1[a].0@
                    != #[trigger] s1[b].0@ by {
                    let a0 = if a < i { a } else { a + 1 };
                    let b0 = if b < i { b } else { b + 1 };
                    assert(s0[a0].0@ != s0[b0].0@);
                }
                assert(self@ =~= map_of(s0).remove(k@)) by {
                    assert forall|x: Seq<char>| #[trigger] has_key(s1, x) == (has_key(s0, x) && x != k@) by {
                        if has_key(s1, x) {
                            let a = choose|a: int| 0 <= a < s1.len() && #[trigger] s1[a].0@ == x;
                            let a0 = if a < i { a } else { a + 1 };
                            assert(s0[a0].0@ == x);
                            assert(s0[a0].0@ != s0[i as int].0@);
                        }
                        if has_key(s0, x) && x != k@ {
                            let a = choose|a: int| 0 <= a < s0.len() && #[trigger] s0[a].0@ == x;
                            if a < i {
                                assert(s1[a].0@ == x);
                            } else {
                                assert(a != i);
                                assert(s1[a - 1].0@ == x);
                            }
                        }
                    }
                    assert forall|x: Seq<char>| has_key(s1, x) implies #[trigger] lookup_key(s1, x).unwrap()
                        == map_of(s0).remove(k@)[x] by {
                        let a = choose|a: int| 0 <= a < s1.len() && #[trigger] s1[a].0@ == x;
                        let a0 = if a < i { a } else { a + 1 };
                        lemma_unique_lookup(s1, x, a);
                        lemma_unique_lookup(s0, x, a0);
                    }
                }
                Some(v)
            },
            None => {
                assert(self@ =~= map_of(s0).remove(k@));
                None
            },
        }
    }

    /// The entries, in order, taken out of the map.
    pub fn into_entries(self) -> (r: Vec<(String, T)>)
        requires
            self.wf(),
        ensures
            r@ == self.entry_list(),
            unique_keys(r@),
            map_of(r@) == self@,
    {
        self.entries
    }

    /// The entries, in order: each key of the map once, with its value.
    pub fn entries(&self) -> (r: &Vec<(String, T)>)
        requires
            self.wf(),
        ensures
            r@ == self.entry_list(),
            unique_keys(r@),
            map_of(r@) == self@,
    {
        &self.entries
    }
}

} // verus!
