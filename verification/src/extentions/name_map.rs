use vstd::prelude::*;

use crate::extentions::arc_string::ArcString;

verus! {

/// The texts of a sequence of shared strings, in order.
pub open spec fn texts(s: Seq<ArcString>) -> Seq<Seq<char>> {
    s.map_values(|a: ArcString| a@)
}

/// The texts of a sequence of strings, in order.
pub open spec fn string_texts(s: Seq<String>) -> Seq<Seq<char>> {
    s.map_values(|x: String| x@)
}

/// The set of a sequence with one more element has that element too.
pub proof fn lemma_push_to_set<A>(s: Seq<A>, x: A)
    ensures
        s.push(x).to_set() == s.to_set().insert(x),
{
    assert forall|a: A| #[trigger] s.push(x).to_set().contains(a) implies s.to_set().insert(x).contains(a) by {
        let j = choose|j: int| 0 <= j < s.push(x).len() && s.push(x)[j] == a;
        if j < s.len() {
            assert(s[j] == a);
        }
    }
    assert forall|a: A| #[trigger] s.to_set().insert(x).contains(a) implies s.push(x).to_set().contains(a) by {
        if a == x {
            assert(s.push(x)[s.len() as int] == a);
        } else {
            let j = choose|j: int| 0 <= j < s.len() && s[j] == a;
            assert(s.push(x)[j] == a);
        }
    }
    assert(s.push(x).to_set() =~= s.to_set().insert(x));
}

/// Two sequences with the same elements, each as often, have the same texts, each as often.
pub proof fn lemma_permutation_texts(s1: Seq<ArcString>, s2: Seq<ArcString>)
    requires
        s1.to_multiset() == s2.to_multiset(),
    ensures
        texts(s1).to_multiset() == texts(s2).to_multiset(),
    decreases s1.len(),
{
    broadcast use vstd::seq_lib::group_to_multiset_ensures;

    s1.to_multiset_ensures();
    s2.to_multiset_ensures();
    if s1.len() == 0 {
        assert(s2.len() == 0);
        assert(texts(s1) =~= texts(s2));
    } else {
        let x = s1.last();
        let rest = s1.drop_last();
        assert(s1 =~= rest.push(x));
        assert(s2.to_multiset().count(x) > 0);
        assert(s2.contains(x));
        let j = choose|j: int| 0 <= j < s2.len() && s2[j] == x;
        assert(s2.remove(j).to_multiset() =~= rest.to_multiset());
        lemma_permutation_texts(rest, s2.remove(j));
        assert(texts(s1) =~= texts(rest).push(x@));
        assert(texts(s2.remove(j)) =~= texts(s2).remove(j));
        assert(texts(s2)[j] == x@);
        assert(texts(s2).to_multiset() =~= texts(s2).remove(j).to_multiset().insert(x@));
    }
}

/// The texts of a permutation keep their set and stay free of duplicates.
pub proof fn lemma_permutation_keeps_distinct_texts(s1: Seq<ArcString>, s2: Seq<ArcString>)
    requires
        s1.to_multiset() == s2.to_multiset(),
    ensures
        texts(s2).to_set() == texts(s1).to_set(),
        texts(s1).no_duplicates() ==> texts(s2).no_duplicates(),
{
    broadcast use vstd::seq_lib::group_to_multiset_ensures;

    lemma_permutation_texts(s1, s2);
    assert forall|x: Seq<char>| texts(s2).to_set().contains(x) <==> texts(s1).to_set().contains(x) by {
        assert(texts(s2).contains(x) <==> texts(s2).to_multiset().count(x) > 0);
        assert(texts(s1).contains(x) <==> texts(s1).to_multiset().count(x) > 0);
    }
    assert(texts(s2).to_set() =~= texts(s1).to_set());
    if texts(s1).no_duplicates() {
        texts(s1).lemma_multiset_has_no_duplicates();
        texts(s2).lemma_multiset_has_no_duplicates_conv();
    }
}

/// In a sequence without duplicates, removing an element removes its value from the set.
pub proof fn lemma_remove_to_set<A>(s: Seq<A>, i: int)
    requires
        s.no_duplicates(),
        0 <= i < s.len(),
    ensures
        s.remove(i).to_set() == s.to_set().remove(s[i]),
        s.remove(i).no_duplicates(),
{
    assert forall|a: A| #[trigger] s.remove(i).to_set().contains(a) <==> s.to_set().remove(s[i]).contains(a) by {
        if s.remove(i).contains(a) {
            let j = choose|j: int| 0 <= j < s.remove(i).len() && s.remove(i)[j] == a;
            let j0 = if j < i { j } else { j + 1 };
            assert(s[j0] == a);
        }
        if s.to_set().remove(s[i]).contains(a) {
            let j0 = choose|j: int| 0 <= j < s.len() && s[j] == a;
            assert(j0 != i);
            let j = if j0 < i { j0 } else { j0 - 1 };
            assert(s.remove(i)[j] == a);
        }
    }
    assert(s.remove(i).to_set() =~= s.to_set().remove(s[i]));
    assert forall|a: int, b: int| 0 <= a < s.remove(i).len() && 0 <= b < s.remove(i).len() && a != b
        implies s.remove(i)[a] != s.remove(i)[b] by {
        let a0 = if a < i { a } else { a + 1 };
        let b0 = if b < i { b } else { b + 1 };
        assert(s[a0] != s[b0]);
    }
}

/// In a sequence without duplicates, the index of an element is the one where it stands.
pub proof fn lemma_index_of_unique<A>(s: Seq<A>, i: int)
    requires
        s.no_duplicates(),
        0 <= i < s.len(),
    ensures
        s.index_of(s[i]) == i,
{
    assert(s.contains(s[i]));
    let j = s.index_of(s[i]);
    assert(0 <= j < s.len() && s[j] == s[i]);
}

/// A map from player names to values, kept as two parallel vectors.
/// No name occurs twice (see `wf`), so the pairs form a finite map.
pub struct NameMap<V> {
    keys: Vec<ArcString>,
    values: Vec<V>,
}

impl<V> View for NameMap<V> {
    type V = Map<Seq<char>, V>;

    closed spec fn view(&self) -> Map<Seq<char>, V> {
        Map::new(
            |k: Seq<char>| self.key_texts().contains(k),
            |k: Seq<char>| self.values@[self.key_texts().index_of(k)],
        )
    }
}

impl<V> NameMap<V> {
    /// The names that are keys, in order of their entries.
    pub closed spec fn key_texts(&self) -> Seq<Seq<char>> {
        texts(self.keys@)
    }

    /// The keys, in order of their entries.
    pub closed spec fn key_seq(&self) -> Seq<ArcString> {
        self.keys@
    }

    /// The values, in order of their entries.
    pub closed spec fn value_seq(&self) -> Seq<V> {
        self.values@
    }

    /// The position of a name's entry.
    pub closed spec fn key_index(&self, key: Seq<char>) -> int {
        self.key_texts().index_of(key)
    }

    /// Every key has a value and no key occurs twice.
    pub closed spec fn wf(&self) -> bool {
        &&& self.keys@.len() == self.values@.len()
        &&& self.key_texts().no_duplicates()
    }

    proof fn lemma_view_at(&self, i: int)
        requires
            self.wf(),
            0 <= i < self.keys@.len(),
        ensures
            self@.dom().contains(self.keys@[i]@),
            self@[self.keys@[i]@] == self.values@[i],
    {
        assert(self.key_texts()[i] == self.keys@[i]@);
        lemma_index_of_unique(self.key_texts(), i);
    }

    /// The empty map.
    pub fn new() -> (m: Self)
        ensures
            m.wf(),
            m@ == Map::<Seq<char>, V>::empty(),
            m.value_seq().len() == 0,
    {
        let m = NameMap { keys: Vec::new(), values: Vec::new() };
        assert(m@ =~= Map::<Seq<char>, V>::empty());
        m
    }

    /// The value of a key stands in the value sequence at the key's position.
    pub proof fn lemma_value_seq_at(&self, key: Seq<char>)
        requires
            self.wf(),
            self@.contains_key(key),
        ensures
            0 <= self.key_index(key) < self.value_seq().len(),
            self.value_seq()[self.key_index(key)] == self@[key],
    {
        assert(self.key_texts().contains(key));
        let j = self.key_texts().index_of(key);
        assert(0 <= j < self.key_texts().len() && self.key_texts()[j] == key);
    }

    /// The number of entries.
    pub fn len(&self) -> (n: usize)
        requires
            self.wf(),
        ensures
            n == self@.len(),
            n == self@.dom().len(),
    {
        proof {
            self.lemma_dom_len();
        }
        self.keys.len()
    }

    proof fn lemma_dom_len(&self)
        requires
            self.wf(),
        ensures
            self@.dom().len() == self.keys@.len(),
            self@.dom() == self.key_texts().to_set(),
            self@.dom().finite(),
    {
        assert(self@.dom() =~= self.key_texts().to_set());
        self.key_texts().unique_seq_to_set();
    }

    fn find(&self, key: &ArcString) -> (r: Option<usize>)
        requires
            self.wf(),
        ensures
            r is None <==> !self@.dom().contains(key@),
            r matches Some(i) ==> i < self.keys@.len() && self.keys@[i as int]@ == key@,
    {
        let mut i: usize = 0;
        while i < self.keys.len()
            invariant
                self.wf(),
                i <= self.keys@.len(),
                forall|j: int| 0 <= j < i ==> self.keys@[j]@ != key@,
            decreases self.keys@.len() - i,
        {
            if self.keys[i].same_text(key) {
                assert(self.key_texts()[i as int] == key@);
                return Some(i);
            }
            i = i + 1;
        }
        proof {
            if self.key_texts().contains(key@) {
                let j = choose|j: int| 0 <= j < self.key_texts().len() && self.key_texts()[j] == key@;
                assert(self.keys@[j]@ == key@);
            }
        }
        None
    }

    /// Whether the name is a key.
    pub fn contains_key(&self, key: &ArcString) -> (b: bool)
        requires
            self.wf(),
        ensures
            b == self@.dom().contains(key@),
    {
        self.find(key).is_some()
    }

    /// The value for a name, if the name is a key.
    pub fn get(&self, key: &ArcString) -> (r: Option<&V>)
        requires
            self.wf(),
        ensures
            r is None <==> !self@.dom().contains(key@),
            r matches Some(v) ==> *v == self@[key@],
    {
        match self.find(key) {
            Some(i) => {
                proof {
                    self.lemma_view_at(i as int);
                }
                Some(&self.values[i])
            },
            None => None,
        }
    }

    /// Sets the value for a name, adding the name if it is not a key yet.
    pub fn insert(&mut self, key: ArcString, value: V)
        requires
            old(self).wf(),
        ensures
            final(self).wf(),
            final(self)@ == old(self)@.insert(key@, value),
            old(self)@.contains_key(key@) ==> {
                &&& 0 <= old(self).key_index(key@) < old(self).value_seq().len()
                &&& old(self).value_seq()[old(self).key_index(key@)] == old(self)@[key@]
                &&& final(self).value_seq() == old(self).value_seq().update(
                    old(self).key_index(key@),
                    value,
                )
            },
            !old(self)@.contains_key(key@) ==> final(self).value_seq() == old(self).value_seq().push(
                value,
            ),
    {
        match self.find(&key) {
            Some(i) => {
                let ghost old_keys = self.key_texts();
                let ghost old_view = self@;
                self.values[i] = value;
                proof {
                    assert(self.key_texts() == old_keys);
                    assert(old_keys[i as int] == key@);
                    lemma_index_of_unique(old_keys, i as int);
                    assert forall|k: Seq<char>| #[trigger] self@.dom().contains(k) && k != key@
                        implies self@[k] == old_view[k] by {
                        let j = self.key_texts().index_of(k);
                        assert(self.key_texts()[i as int] == key@);
                    }
                    self.lemma_view_at(i as int);
                    assert(self@ =~= old_view.insert(key@, value));
                }
            },
            None => {
                let ghost old_view = self@;
                let ghost old_keys = self.key_texts();
                let ghost n = self.keys@.len();
                self.keys.push(key);
                self.values.push(value);
                proof {
                    assert(self.key_texts() =~= old_keys.push(key@));
                    assert(forall|j: int| 0 <= j < n ==> old_keys[j] != key@);
                    assert(self.key_texts().no_duplicates());
                    assert forall|k: Seq<char>| #[trigger] old_view.dom().contains(k)
                        implies self@.dom().contains(k) && self@[k] == old_view[k] by {
                        let j = old_keys.index_of(k);
                        assert(old_keys[j] == k);
                        assert(self.key_texts()[j] == k);
                        lemma_index_of_unique(self.key_texts(), j);
                    }
                    self.lemma_view_at(n as int);
                    assert(self@ =~= old_view.insert(key@, value));
                }
            },
        }
    }

    /// Removes a name and gives back its entry, if the name is a key.
    pub fn remove_entry(&mut self, key: &ArcString) -> (r: Option<(ArcString, V)>)
        requires
            old(self).wf(),
        ensures
            final(self).wf(),
            final(self)@ == old(self)@.remove(key@),
            r is None <==> !old(self)@.dom().contains(key@),
            r matches Some(e) ==> e.0@ == key@ && e.1 == old(self)@[key@],
    {
        match self.find(key) {
            Some(i) => {
                let ghost old_view = self@;
                let ghost old_keys = self.key_texts();
                let ghost old_values = self.values@;
                proof {
                    self.lemma_view_at(i as int);
                }
                let k = self.keys.remove(i);
                let v = self.values.remove(i);
                proof {
                    assert(self.key_texts() =~= old_keys.remove(i as int));
                    assert forall|a: int, b: int|
                        0 <= a < self.key_texts().len() && 0 <= b < self.key_texts().len() && a != b
                        implies self.key_texts()[a] != self.key_texts()[b] by {
                        let a0 = if a < i { a } else { a + 1 };
                        let b0 = if b < i { b } else { b + 1 };
                        assert(old_keys[a0] != old_keys[b0]);
                    }
                    assert forall|kk: Seq<char>| #[trigger] self@.dom().contains(kk)
                        implies old_view.dom().contains(kk) && kk != key@ && self@[kk] == old_view[kk] by {
                        assert(self.key_texts().contains(kk));
                        let j = self.key_texts().index_of(kk);
                        assert(0 <= j < self.key_texts().len() && self.key_texts()[j] == kk);
                        let j0 = if j < i { j } else { j + 1 };
                        assert(old_keys[j0] == kk);
                        assert(old_keys[i as int] == key@);
                        assert(j0 != i);
                        assert(self.values@ == old_values.remove(i as int));
                        assert(self.values@[j] == old_values[j0]);
                        lemma_index_of_unique(old_keys, j0);
                    }
                    assert forall|kk: Seq<char>| #[trigger] old_view.dom().contains(kk) && kk != key@
                        implies self@.dom().contains(kk) by {
                        let j0 = old_keys.index_of(kk);
                        assert(old_keys[j0] == kk);
                        assert(j0 != i);
                        let j = if j0 < i { j0 } else { j0 - 1 };
                        assert(self.key_texts()[j] == kk);
                    }
                    assert(self@ =~= old_view.remove(key@));
                }
                Some((k, v))
            },
            None => {
                proof {
                    assert(self@ =~= self@.remove(key@));
                }
                None
            },
        }
    }

    /// The keys, in order of their entries.
    pub fn keys(&self) -> (r: &Vec<ArcString>)
        requires
            self.wf(),
        ensures
            r@ == self.key_seq(),
            texts(r@).no_duplicates(),
            texts(r@).to_set() == self@.dom(),
            r@.len() == self@.dom().len(),
    {
        proof {
            self.lemma_dom_len();
        }
        &self.keys
    }

    /// The values, in order of their entries: the value at an index belongs to the key there.
    pub fn values(&self) -> (r: &Vec<V>)
        requires
            self.wf(),
        ensures
            r@ == self.value_seq(),
            r@.len() == self.key_seq().len(),
            forall|i: int| 0 <= i < r@.len() ==> #[trigger] r@[i] == self@[self.key_seq()[i]@],
    {
        proof {
            assert forall|i: int| 0 <= i < self.values@.len() implies #[trigger] self.values@[i]
                == self@[self.keys@[i]@] by {
                self.lemma_view_at(i);
            }
        }
        &self.values
    }
}

} // verus!
