use vstd::prelude::*;

verus! {

/// Equality of two values as their views, whatever order their parts are stored in.
pub trait DeepEq: View + Sized {
    fn deep_eq(&self, other: &Self) -> (r: bool)
        ensures
            r == (self@ == other@),
    ;
}

/// A finite map from string keys to values, stored as a vector of entries
/// whose keys are pairwise distinct.
#[derive(Debug)]
pub struct KeyedMap<V> {
    entries: Vec<(String, V)>,
}

spec fn distinct_keys<V>(s: Seq<(String, V)>) -> bool {
    forall|i: int, j: int| 0 <= i < j < s.len() ==> s[i].0@ != s[j].0@
}

spec fn has_key<V>(s: Seq<(String, V)>, k: Seq<char>) -> bool {
    exists|i: int| 0 <= i < s.len() && s[i].0@ == k
}

spec fn entries_view<V: View>(s: Seq<(String, V)>) -> Map<Seq<char>, V::V> {
    Map::new(
        |k: Seq<char>| has_key(s, k),
        |k: Seq<char>| s[choose|i: int| 0 <= i < s.len() && s[i].0@ == k].1@,
    )
}

proof fn lemma_entry<V: View>(s: Seq<(String, V)>, i: int)
    requires
        distinct_keys(s),
        0 <= i < s.len(),
    ensures
        entries_view(s).contains_key(s[i].0@),
        entries_view(s)[s[i].0@] == s[i].1@,
{
    let k = s[i].0@;
    assert(0 <= i < s.len() && s[i].0@ == k);
    let j = choose|j: int| 0 <= j < s.len() && s[j].0@ == k;
    assert(i == j);
}

impl<V: View> View for KeyedMap<V> {
    type V = Map<Seq<char>, V::V>;

    closed spec fn view(&self) -> Map<Seq<char>, V::V> {
        entries_view(self.entries@)
    }
}

fn find<V>(s: &Vec<(String, V)>, k: &String) -> (r: Option<usize>)
    ensures
        match r {
            Some(i) => i < s@.len() && s@[i as int].0@ == k@,
            None => !has_key(s@, k@),
        },
{
    let mut i: usize = 0;
    while i < s.len()
        invariant
            i <= s@.len(),
            forall|j: int| 0 <= j < i ==> s@[j].0@ != k@,
        decreases s@.len() - i,
    {
        if s[i].0 == *k {
            return Some(i);
        }
        i = i + 1;
    }
    None
}

impl<V> KeyedMap<V> {
    #[verifier::type_invariant]
    spec fn wf(self) -> bool {
        distinct_keys(self.entries@)
    }
}

impl<V: Clone> Clone for KeyedMap<V> {
    fn clone(&self) -> (r: Self) {
        proof {
            use_type_invariant(self);
        }
        let mut entries: Vec<(String, V)> = Vec::new();
        let mut i: usize = 0;
        while i < self.entries.len()
            invariant
                distinct_keys(self.entries@),
                i <= self.entries@.len(),
                entries@.len() == i,
                forall|j: int| 0 <= j < i ==> #[trigger] entries@[j].0@ == self.entries@[j].0@,
            decreases self.entries@.len() - i,
        {
            entries.push((self.entries[i].0.clone(), self.entries[i].1.clone()));
            i = i + 1;
        }
        KeyedMap { entries }
    }
}

impl<V: View> KeyedMap<V> {
    pub fn new() -> (r: Self)
        ensures
            r@ == Map::<Seq<char>, V::V>::empty(),
            r.key_seq().len() == 0,
    {
        let r = KeyedMap { entries: Vec::new() };
        assert(r@ =~= Map::<Seq<char>, V::V>::empty());
        r
    }

    /// The keys in the order in which the entries are stored.
    pub closed spec fn key_seq(&self) -> Seq<Seq<char>> {
        Seq::new(self.entries@.len(), |i: int| self.entries@[i].0@)
    }

    /// The number of entries; the stored keys are distinct and are exactly
    /// the keys of the map.
    pub fn len(&self) -> (r: usize)
        ensures
            r == self.key_seq().len(),
            self.key_seq().no_duplicates(),
            forall|k: Seq<char>| #[trigger] self@.contains_key(k) <==> self.key_seq().contains(k),
    {
        proof {
            use_type_invariant(self);
            assert forall|k: Seq<char>| #[trigger] self@.contains_key(k) <==> self.key_seq().contains(k) by {
                if self@.contains_key(k) {
                    let i = choose|i: int| 0 <= i < self.entries@.len() && self.entries@[i].0@ == k;
                    assert(self.key_seq()[i] == k);
                }
                if self.key_seq().contains(k) {
                    let i = choose|i: int| 0 <= i < self.key_seq().len() && self.key_seq()[i] == k;
                    assert(0 <= i < self.entries@.len() && self.entries@[i].0@ == k);
                }
            }
        }
        self.entries.len()
    }

    pub fn is_empty(&self) -> (r: bool)
        ensures
            r == (self@ == Map::<Seq<char>, V::V>::empty()),
    {
        proof {
            use_type_invariant(self);
        }
        if self.entries.len() == 0 {
            assert(self@ =~= Map::<Seq<char>, V::V>::empty());
            true
        } else {
            proof {
                lemma_entry(self.entries@, 0);
                assert(!Map::<Seq<char>, V::V>::empty().contains_key(self.entries@[0].0@));
            }
            false
        }
    }

    pub fn key_at(&self, i: usize) -> (r: &String)
        requires
            i < self.key_seq().len(),
        ensures
            r@ == self.key_seq()[i as int],
    {
        &self.entries[i].0
    }

    pub fn value_at(&self, i: usize) -> (r: &V)
        requires
            i < self.key_seq().len(),
        ensures
            r@ == self@[self.key_seq()[i as int]],
    {
        proof {
            use_type_invariant(self);
            lemma_entry(self.entries@, i as int);
        }
        &self.entries[i].1
    }

    pub fn get(&self, k: &String) -> (r: Option<&V>)
        ensures
            r.is_some() == self@.contains_key(k@),
            r.is_some() ==> r.unwrap()@ == self@[k@],
    {
        proof {
            use_type_invariant(self);
        }
        match find(&self.entries, k) {
            Some(i) => {
                proof {
                    lemma_entry(self.entries@, i as int);
                }
                Some(&self.entries[i].1)
            },
            None => None,
        }
    }

    pub fn contains_key(&self, k: &String) -> (r: bool)
        ensures
            r == self@.contains_key(k@),
    {
        self.get(k).is_some()
    }

    /// Sets the value of `k` to `v`, replacing any value it had.
    pub fn insert(&mut self, k: String, v: V)
        ensures
            final(self)@ == old(self)@.insert(k@, v@),
    {
        proof {
            use_type_invariant(&*self);
        }
        let mut entries: Vec<(String, V)> = Vec::new();
        std::mem::swap(&mut entries, &mut self.entries);
        let ghost pre = entries@;
        let ghost kv = k@;
        let ghost vv = v@;
        match find(&entries, &k) {
            Some(i) => {
                entries.set(i, (k, v));
            },
            None => {
                entries.push((k, v));
            },
        }
        let ghost post = entries@;
        assert(distinct_keys(post));
        assert forall|a: Seq<char>|
            #[trigger] has_key(post, a) <==> entries_view(pre).insert(kv, vv).contains_key(a) by {
            if has_key(post, a) {
                let j = choose|j: int| 0 <= j < post.len() && post[j].0@ == a;
                if a != kv {
                    assert(0 <= j < pre.len() && pre[j].0@ == a);
                }
            }
            if has_key(pre, a) && a != kv {
                let j = choose|j: int| 0 <= j < pre.len() && pre[j].0@ == a;
                assert(0 <= j < post.len() && post[j].0@ == a);
            }
            if a == kv {
                let j = if post.len() > pre.len() {
                    pre.len() as int
                } else {
                    choose|j: int| 0 <= j < pre.len() && pre[j].0@ == kv
                };
                assert(0 <= j < post.len() && post[j].0@ == a);
            }
        }
        assert forall|a: Seq<char>| #[trigger] has_key(post, a) implies entries_view(post)[a]
            == entries_view(pre).insert(kv, vv)[a] by {
            let j = choose|j: int| 0 <= j < post.len() && post[j].0@ == a;
            lemma_entry(post, j);
            if a != kv {
                assert(pre[j] == post[j]);
                lemma_entry(pre, j);
            }
        }
        assert(entries_view(post) =~= entries_view(pre).insert(kv, vv));
        self.entries = entries;
    }

    /// Takes the entry of `k` out of the map, if it has one.
    pub fn remove(&mut self, k: &String) -> (r: Option<V>)
        ensures
            final(self)@ == old(self)@.remove(k@),
            r.is_some() == old(self)@.contains_key(k@),
            r.is_some() ==> r.unwrap()@ == old(self)@[k@],
    {
        proof {
            use_type_invariant(&*self);
        }
        let mut entries: Vec<(String, V)> = Vec::new();
        std::mem::swap(&mut entries, &mut self.entries);
        let ghost pre = entries@;
        let r = match find(&entries, k) {
            Some(i) => {
                proof {
                    lemma_entry(pre, i as int);
                }
                let (_, v) = entries.remove(i);
                let ghost post = entries@;
                proof {
                    assert forall|a: Seq<char>| #[trigger] has_key(post, a) <==> entries_view(
                        pre,
                    ).remove(k@).contains_key(a) by {
                        if has_key(post, a) {
                            let j = choose|j: int| 0 <= j < post.len() && post[j].0@ == a;
                            let jj = if j < i { j } else { j + 1 };
                            assert(pre[jj] == post[j]);
                            assert(0 <= jj < pre.len() && pre[jj].0@ == a);
                        }
                        if has_key(pre, a) && a != k@ {
                            let j = choose|j: int| 0 <= j < pre.len() && pre[j].0@ == a;
                            let jj = if j < i { j } else { j - 1 };
                            assert(0 <= jj < post.len() && post[jj].0@ == a);
                        }
                    }
                    assert forall|a: Seq<char>| #[trigger] has_key(post, a) implies entries_view(post)[a]
                        == entries_view(pre)[a] by {
                        let j = choose|j: int| 0 <= j < post.len() && post[j].0@ == a;
                        let jj = if j < i { j } else { j + 1 };
                        lemma_entry(post, j);
                        lemma_entry(pre, jj);
                    }
                    assert(entries_view(post) =~= entries_view(pre).remove(k@));
                }
                Some(v)
            },
            None => {
                proof {
                    assert(entries_view(pre) =~= entries_view(pre).remove(k@));
                }
                None
            },
        };
        self.entries = entries;
        r
    }
}

impl<V: DeepEq> KeyedMap<V> {
    /// Whether every key of `self` is a key of `other` with an equal value.
    fn is_submap_of(&self, other: &Self) -> (r: bool)
        ensures
            r == self@.submap_of(other@),
    {
        let n = self.len();
        let mut i: usize = 0;
        while i < n
            invariant
                n == self.key_seq().len(),
                i <= n,
                forall|k: Seq<char>| #[trigger] self@.contains_key(k) <==> self.key_seq().contains(k),
                forall|j: int|
                    0 <= j < i ==> other@.contains_key(#[trigger] self.key_seq()[j]) && self@[self.key_seq()[j]]
                        == other@[self.key_seq()[j]],
            decreases self.key_seq().len() - i,
        {
            let v = self.value_at(i);
            proof {
                assert(self.key_seq().contains(self.key_seq()[i as int]));
            }
            let k = self.key_at(i);
            match other.get(k) {
                Some(w) => {
                    if !v.deep_eq(w) {
                        proof {
                            assert(self@.contains_key(k@) && other@.contains_key(k@));
                            assert(self@[k@] != other@[k@]);
                        }
                        return false;
                    }
                },
                None => {
                    proof {
                        assert(self@.contains_key(k@) && !other@.contains_key(k@));
                    }
                    return false;
                },
            }
            assert(other@.contains_key(self.key_seq()[i as int]));
            assert(self@[self.key_seq()[i as int]] == other@[self.key_seq()[i as int]]);
            i = i + 1;
        }
        proof {
            assert forall|k: Seq<char>| #[trigger] self@.contains_key(k) implies other@.contains_key(k)
                && self@[k] == other@[k] by {
                let j = choose|j: int| 0 <= j < self.key_seq().len() && self.key_seq()[j] == k;
                assert(other@.contains_key(self.key_seq()[j]));
            }
        }
        true
    }
}

impl<V: DeepEq> DeepEq for KeyedMap<V> {
    fn deep_eq(&self, other: &Self) -> (r: bool) {
        let r = self.is_submap_of(other) && other.is_submap_of(self);
        proof {
            if self@.submap_of(other@) && other@.submap_of(self@) {
                assert(self@.dom() =~= other@.dom());
                assert(self@ =~= other@);
            }
        }
        r
    }
}

} // verus!
