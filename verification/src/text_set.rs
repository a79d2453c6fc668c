//! A set of strings kept in insertion order.

use vstd::prelude::*;
use crate::text::{texts, texts_contain};

verus! {

/// A set of strings; each occurs once, in the order first inserted.
#[derive(Debug)]
pub struct TextSet {
    items: Vec<String>,
}

impl View for TextSet {
    type V = Set<Seq<char>>;

    closed spec fn view(&self) -> Set<Seq<char>> {
        texts(self.items@).to_set()
    }
}

impl TextSet {
    /// The items are distinct.
    pub closed spec fn wf(&self) -> bool {
        texts(self.items@).no_duplicates()
    }

    /// The empty set.
    pub fn new() -> (r: Self)
        ensures
            r.wf(),
            r@ == Set::<Seq<char>>::empty(),
    {
        let r = TextSet { items: Vec::new() };
        assert(texts(r.items@) =~= Seq::<Seq<char>>::empty());
        assert(r@ =~= Set::<Seq<char>>::empty());
        r
    }

    /// Whether the set holds `t`.
    pub fn contains(&self, t: &String) -> (r: bool)
        ensures
            r == self@.contains(t@),
    {
        texts_contain(&self.items, t)
    }

    /// Adds `t`.
    pub fn insert(&mut self, t: String)
        requires
            old(self).wf(),
        ensures
            final(self).wf(),
            final(self)@ == old(self)@.insert(t@),
    {
        let ghost before = texts(self.items@);
        if !texts_contain(&self.items, &t) {
            let ghost tv = t@;
            self.items.push(t);
            assert(texts(self.items@) =~= before.push(tv));
            assert(texts(self.items@).to_set() =~= before.to_set().insert(tv)) by {
                assert forall|x: Seq<char>| texts(self.items@).to_set().contains(x) <==> before.to_set().insert(tv).contains(x) by {
                    if texts(self.items@).contains(x) && x != tv {
                        let i = choose|i: int| 0 <= i < texts(self.items@).len() && texts(self.items@)[i] == x;
                        assert(before[i] == x);
                    }
                    if before.contains(x) {
                        let i = choose|i: int| 0 <= i < before.len() && before[i] == x;
                        assert(texts(self.items@)[i] == x);
                    }
                    if x == tv {
                        assert(texts(self.items@)[before.len() as int] == x);
                    }
                }
            }
        } else {
            assert(before.to_set().insert(t@) =~= before.to_set());
        }
    }

    /// Removes `t`.
    pub fn remove(&mut self, t: &String)
        requires
            old(self).wf(),
        ensures
            final(self).wf(),
            final(self)@ == old(self)@.remove(t@),
    {
        let ghost before = texts(self.items@);
        let mut i: usize = 0;
        while i < self.items.len()
            invariant
                i <= self.items@.len(),
                self.items@ == old(self).items@,
                before == texts(self.items@),
                before.no_duplicates(),
                forall|j: int| 0 <= j < i ==> before[j] != t@,
            decreases self.items@.len() - i,
        {
            if self.items[i] == *t {
                self.items.remove(i);
                let ghost after = texts(self.items@);
                assert(after =~= before.remove(i as int));
                assert(after.no_duplicates()) by {
                    assert forall|a: int, b: int| 0 <= a < after.len() && 0 <= b < after.len() && a != b implies after[a] != after[b] by {
                        let a0 = if a < i { a } else { a + 1 };
                        let b0 = if b < i { b } else { b + 1 };
                        assert(before[a0] != before[b0]);
                    }
                }
                assert(after.to_set() =~= before.to_set().remove(t@)) by {
                    assert forall|x: Seq<char>| after.to_set().contains(x) <==> before.to_set().remove(t@).contains(x) by {
                        if after.contains(x) {
                            let a = choose|a: int| 0 <= a < after.len() && after[a] == x;
                            let a0 = if a < i { a } else { a + 1 };
                            assert(before[a0] == x);
                            assert(before[a0] != before[i as int]);
                        }
                        if before.contains(x) && x != t@ {
                            let a = choose|a: int| 0 <= a < before.len() && before[a] == x;
                            if a < i {
                                assert(after[a] == x);
                            } else {
                                assert(a != i);
                                assert(after[a - 1] == x);
                            }
                        }
                    }
                }
                return;
            }
            i = i + 1;
        }
        assert(before.to_set().remove(t@) =~= before.to_set()) by {
            assert(!before.contains(t@));
        }
    }

    /// The items, in insertion order.
    pub fn to_vec(&self) -> (r: Vec<String>)
        requires
            self.wf(),
        ensures
            texts(r@).to_set() == self@,
            texts(r@).no_duplicates(),
    {
        self.items.clone()
    }
}

} // verus!
