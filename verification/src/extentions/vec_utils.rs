use vstd::prelude::*;

use crate::extentions::arc_string::ArcString;
use crate::extentions::name_map::texts;

verus! {

/// `s` without its first element whose text is `t`; `s` itself if there is none.
pub open spec fn remove_first_text(s: Seq<ArcString>, t: Seq<char>) -> Seq<ArcString>
    decreases s.len(),
{
    if s.len() == 0 {
        s
    } else if s[0]@ == t {
        s.drop_first()
    } else {
        seq![s[0]] + remove_first_text(s.drop_first(), t)
    }
}

/// The index of the first element of `s` whose text is `t`.
pub open spec fn first_text_index(s: Seq<ArcString>, t: Seq<char>) -> int
    decreases s.len(),
{
    if s.len() == 0 || s[0]@ == t {
        0
    } else {
        1 + first_text_index(s.drop_first(), t)
    }
}

/// Where some element has the text, the first such index is in range, holds the text,
/// and removing the first match removes the element there.
pub proof fn lemma_first_text_index(s: Seq<ArcString>, t: Seq<char>)
    requires
        texts(s).contains(t),
    ensures
        0 <= first_text_index(s, t) < s.len(),
        s[first_text_index(s, t)]@ == t,
        forall|j: int| 0 <= j < first_text_index(s, t) ==> s[j]@ != t,
        remove_first_text(s, t) == s.remove(first_text_index(s, t)),
    decreases s.len(),
{
    let j = choose|j: int| 0 <= j < texts(s).len() && texts(s)[j] == t;
    if s[0]@ != t {
        assert(j > 0);
        assert(texts(s.drop_first())[j - 1] == t);
        lemma_first_text_index(s.drop_first(), t);
        assert forall|k: int| 0 <= k < first_text_index(s, t) implies s[k]@ != t by {
            if k > 0 {
                assert(s[k] == s.drop_first()[k - 1]);
            }
        }
    }
    lemma_remove_first_text_at(s, t, first_text_index(s, t));
}

/// Removing the first match is removing at the first index whose text matches.
pub proof fn lemma_remove_first_text_at(s: Seq<ArcString>, t: Seq<char>, i: int)
    requires
        0 <= i < s.len(),
        s[i]@ == t,
        forall|j: int| 0 <= j < i ==> s[j]@ != t,
    ensures
        remove_first_text(s, t) == s.remove(i),
    decreases i,
{
    if i == 0 {
        assert(s.drop_first() =~= s.remove(0));
    } else {
        lemma_remove_first_text_at(s.drop_first(), t, i - 1);
        assert(seq![s[0]] + s.drop_first().remove(i - 1) =~= s.remove(i));
    }
}

/// Without a match, nothing is removed.
pub proof fn lemma_remove_first_text_absent(s: Seq<ArcString>, t: Seq<char>)
    requires
        !texts(s).contains(t),
    ensures
        remove_first_text(s, t) == s,
    decreases s.len(),
{
    if s.len() > 0 {
        assert(texts(s)[0] == s[0]@);
        assert(!texts(s.drop_first()).contains(t)) by {
            if texts(s.drop_first()).contains(t) {
                let j = choose|j: int| 0 <= j < texts(s.drop_first()).len() && texts(s.drop_first())[j] == t;
                assert(texts(s)[j + 1] == t);
            }
        }
        lemma_remove_first_text_absent(s.drop_first(), t);
        assert(seq![s[0]] + s.drop_first() =~= s);
    }
}

/// Removing the first match keeps the texts free of duplicates.
pub proof fn lemma_remove_first_text_distinct(s: Seq<ArcString>, t: Seq<char>)
    requires
        texts(s).no_duplicates(),
    ensures
        texts(remove_first_text(s, t)).no_duplicates(),
{
    if texts(s).contains(t) {
        lemma_first_text_index(s, t);
        let i = first_text_index(s, t);
        assert(texts(s.remove(i)) =~= texts(s).remove(i));
        assert forall|a: int, b: int|
            0 <= a < texts(s).remove(i).len() && 0 <= b < texts(s).remove(i).len() && a != b
            implies texts(s).remove(i)[a] != texts(s).remove(i)[b] by {
            let a0 = if a < i { a } else { a + 1 };
            let b0 = if b < i { b } else { b + 1 };
            assert(texts(s)[a0] != texts(s)[b0]);
        }
    } else {
        lemma_remove_first_text_absent(s, t);
    }
}

/// Removing the first match of the text of an element just pushed, which the
/// sequence did not hold before, gives back the sequence.
pub proof fn lemma_remove_first_text_pushed(s: Seq<ArcString>, x: ArcString)
    requires
        !texts(s).contains(x@),
    ensures
        remove_first_text(s.push(x), x@) == s,
{
    let i = s.len() as int;
    assert forall|j: int| 0 <= j < i implies s.push(x)[j]@ != x@ by {
        assert(texts(s)[j] == s[j]@);
    }
    lemma_remove_first_text_at(s.push(x), x@, i);
    assert(s.push(x).remove(i) =~= s);
}

/// Removing the first match of the text of an element just pushed gives back the
/// texts of the sequence, each as often as before.
pub proof fn lemma_remove_first_text_pushed_texts(s: Seq<ArcString>, x: ArcString)
    ensures
        texts(remove_first_text(s.push(x), x@)).to_multiset() == texts(s).to_multiset(),
{
    broadcast use vstd::seq_lib::group_to_multiset_ensures, vstd::multiset::group_multiset_axioms;

    let p = s.push(x);
    assert(texts(p) =~= texts(s).push(x@));
    assert(texts(p)[s.len() as int] == x@);
    lemma_first_text_index(p, x@);
    let i = first_text_index(p, x@);
    assert(texts(p.remove(i)) =~= texts(p).remove(i));
    assert(texts(p)[i] == x@);
    assert(texts(p).remove(i).to_multiset() =~= texts(s).to_multiset().insert(x@).remove(x@));
    assert(texts(s).to_multiset().insert(x@).remove(x@) =~= texts(s).to_multiset());
}

/// Removing the first element with a text removes one occurrence of the text, where
/// there is one, and nothing else: each other text keeps its count.
pub proof fn lemma_remove_first_text_counts(s: Seq<ArcString>, t: Seq<char>)
    ensures
        texts(remove_first_text(s, t)).to_multiset() == texts(s).to_multiset().remove(t),
{
    broadcast use vstd::seq_lib::group_to_multiset_ensures, vstd::multiset::group_multiset_axioms;

    if texts(s).contains(t) {
        lemma_first_text_index(s, t);
        let i = first_text_index(s, t);
        assert(texts(s.remove(i)) =~= texts(s).remove(i));
        assert(texts(s)[i] == t);
    } else {
        lemma_remove_first_text_absent(s, t);
        assert(texts(s).to_multiset().count(t) == 0);
        assert(texts(s).to_multiset().remove(t) =~= texts(s).to_multiset());
    }
}

/// The index of the first element of `v` whose text is that of `t`, if there is one.
pub fn find_text(v: &Vec<ArcString>, t: &ArcString) -> (r: Option<usize>)
    ensures
        r is None <==> !texts(v@).contains(t@),
        r matches Some(i) ==> i == first_text_index(v@, t@) && i < v@.len(),
{
    let mut i: usize = 0;
    while i < v.len()
        invariant
            i <= v@.len(),
            forall|j: int| 0 <= j < i ==> v@[j]@ != t@,
        decreases v@.len() - i,
    {
        if v[i].same_text(t) {
            proof {
                assert(texts(v@)[i as int] == t@);
                lemma_first_text_index(v@, t@);
                if first_text_index(v@, t@) < i {
                    assert(v@[first_text_index(v@, t@)]@ != t@);
                }
            }
            return Some(i);
        }
        i = i + 1;
    }
    proof {
        if texts(v@).contains(t@) {
            let j = choose|j: int| 0 <= j < texts(v@).len() && texts(v@)[j] == t@;
            assert(v@[j]@ == t@);
        }
    }
    None
}

/// `i` is the index of the last element of `s` whose text is `t`.
pub open spec fn is_last_text_index(s: Seq<ArcString>, t: Seq<char>, i: int) -> bool {
    &&& 0 <= i < s.len()
    &&& s[i]@ == t
    &&& forall|j: int| i < j < s.len() ==> #[trigger] s[j]@ != t
}

/// The index of the last element of `s` whose text is `t` (meaningful where there is one).
pub open spec fn last_text_index(s: Seq<ArcString>, t: Seq<char>) -> int {
    choose|i: int| is_last_text_index(s, t, i)
}

/// Only one index is the last with a text.
pub proof fn lemma_last_text_index_unique(s: Seq<ArcString>, t: Seq<char>, i: int)
    requires
        is_last_text_index(s, t, i),
    ensures
        last_text_index(s, t) == i,
{
    let k = last_text_index(s, t);
    assert(is_last_text_index(s, t, k));
    if k < i {
        assert(s[i]@ != t);
    } else if i < k {
        assert(s[k]@ != t);
    }
}

/// The index of the last element of `v` whose text is that of `t`, if there is one.
pub fn find_last_text(v: &Vec<ArcString>, t: &ArcString) -> (r: Option<usize>)
    ensures
        r is None <==> !texts(v@).contains(t@),
        r matches Some(i) ==> i == last_text_index(v@, t@) && is_last_text_index(v@, t@, i as int),
{
    let mut i: usize = v.len();
    while i > 0
        invariant
            i <= v@.len(),
            forall|j: int| i <= j < v@.len() ==> #[trigger] v@[j]@ != t@,
        decreases i,
    {
        if v[i - 1].same_text(t) {
            proof {
                assert(texts(v@)[i - 1] == t@);
                lemma_last_text_index_unique(v@, t@, i - 1);
            }
            return Some(i - 1);
        }
        i = i - 1;
    }
    proof {
        if texts(v@).contains(t@) {
            let j = choose|j: int| 0 <= j < texts(v@).len() && texts(v@)[j] == t@;
            assert(v@[j]@ == t@);
        }
    }
    None
}

/// Removal of one element, found by equality.
pub trait RemoveElem<T: PartialEq> {
    /// Removes the first element equal to `elem`; tells whether there was one.
    fn remove_element(&mut self, elem: T) -> bool;
}

impl RemoveElem<ArcString> for Vec<ArcString> {
    fn remove_element(&mut self, elem: ArcString) -> (found: bool)
        ensures
            found == texts(old(self)@).contains(elem@),
            final(self)@ == remove_first_text(old(self)@, elem@),
    {
        let mut i: usize = 0;
        while i < self.len()
            invariant
                self@ == old(self)@,
                i <= self@.len(),
                forall|j: int| 0 <= j < i ==> self@[j]@ != elem@,
            decreases self@.len() - i,
        {
            if self[i].same_text(&elem) {
                proof {
                    lemma_remove_first_text_at(self@, elem@, i as int);
                    assert(texts(self@)[i as int] == elem@);
                }
                self.remove(i);
                return true;
            }
            i = i + 1;
        }
        proof {
            assert(!texts(self@).contains(elem@)) by {
                if texts(self@).contains(elem@) {
                    let j = choose|j: int| 0 <= j < texts(self@).len() && texts(self@)[j] == elem@;
                    assert(self@[j]@ == elem@);
                }
            }
            lemma_remove_first_text_absent(self@, elem@);
        }
        false
    }
}

} // verus!
