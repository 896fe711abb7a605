//! A string-keyed association map kept sorted by key, with a `Map` view.
//!
//! Configuration sources, credential records and hash indexes are all maps
//! with string keys whose on-disk form must list keys in lexicographic
//! order; keeping the entries sorted makes that order an invariant instead
//! of a serialization step.

use vstd::prelude::*;
use vstd::map::*;

use crate::strings::lex_lt;
use crate::strings::lemma_lex_lt_asymmetric;
use crate::strings::lemma_lex_lt_total;
use crate::strings::lemma_lex_lt_transitive;
use crate::strings::str_eq;
use crate::strings::str_lt;

verus! {

/// The partial map described by an entry list: later entries win.
pub open spec fn map_of_entries<V>(s: Seq<(String, V)>) -> Map<Seq<char>, V>
    decreases s.len(),
{
    if s.len() == 0 {
        Map::empty()
    } else {
        map_of_entries(s.drop_last()).insert(s.last().0@, s.last().1)
    }
}

proof fn lemma_map_of_entries_contains<V>(s: Seq<(String, V)>, k: Seq<char>)
    ensures
        map_of_entries(s).contains_key(k) <==> exists|i: int|
            0 <= i < s.len() && s[i].0@ == k,
    decreases s.len(),
{
    if s.len() > 0 {
        lemma_map_of_entries_contains(s.drop_last(), k);
        if map_of_entries(s).contains_key(k) {
            if s.last().0@ != k {
                let i = choose|i: int| 0 <= i < s.drop_last().len() && s.drop_last()[i].0@ == k;
                assert(s[i].0@ == k);
            } else {
                assert(s[s.len() - 1].0@ == k);
            }
        }
        if exists|i: int| 0 <= i < s.len() && s[i].0@ == k {
            let i = choose|i: int| 0 <= i < s.len() && s[i].0@ == k;
            if i < s.len() - 1 {
                assert(s.drop_last()[i].0@ == k);
            }
        }
    }
}

proof fn lemma_map_of_entries_value<V>(s: Seq<(String, V)>, i: int)
    requires
        0 <= i < s.len(),
        forall|j: int| 0 <= j < s.len() && j != i ==> s[j].0@ != s[i].0@,
    ensures
        map_of_entries(s).contains_key(s[i].0@),
        map_of_entries(s)[s[i].0@] == s[i].1,
    decreases s.len(),
{
    if i == s.len() - 1 {
    } else {
        assert(s.drop_last()[i] == s[i]);
        lemma_map_of_entries_value(s.drop_last(), i);
    }
}

/// Removing entry `i`, whose key occurs nowhere else, removes its key from
/// the described map.
proof fn lemma_map_remove_entry<V>(s: Seq<(String, V)>, i: int)
    requires
        0 <= i < s.len(),
        forall|j: int| 0 <= j < s.len() && j != i ==> s[j].0@ != s[i].0@,
    ensures
        map_of_entries(s.remove(i)) =~= map_of_entries(s).remove(s[i].0@),
    decreases s.len(),
{
    let k = s[i].0@;
    lemma_map_of_entries_contains(s.remove(i), k);
    if i == s.len() - 1 {
        assert(s.remove(i) =~= s.drop_last());
        lemma_map_of_entries_contains(s.drop_last(), k);
        assert(map_of_entries(s).remove(k) =~= map_of_entries(s.drop_last()));
    } else {
        assert(s.remove(i).last() == s.last());
        assert(s.remove(i).drop_last() =~= s.drop_last().remove(i));
        assert(s.drop_last()[i] == s[i]);
        lemma_map_remove_entry(s.drop_last(), i);
        assert(map_of_entries(s.remove(i)) == map_of_entries(s.drop_last().remove(i)).insert(
            s.last().0@,
            s.last().1,
        ));
        assert(map_of_entries(s.remove(i)) =~= map_of_entries(s).remove(k));
    }
}

/// Inserting an entry under a fresh key at any position inserts its key
/// into the described map.
proof fn lemma_map_insert_entry<V>(s: Seq<(String, V)>, i: int, e: (String, V))
    requires
        0 <= i <= s.len(),
        forall|j: int| 0 <= j < s.len() ==> s[j].0@ != e.0@,
    ensures
        map_of_entries(s.insert(i, e)) =~= map_of_entries(s).insert(e.0@, e.1),
    decreases s.len(),
{
    let t = s.insert(i, e);
    if i == s.len() {
        assert(t.drop_last() =~= s);
        assert(t.last() == e);
    } else {
        assert(t.last() == s.last());
        assert(t.drop_last() =~= s.drop_last().insert(i, e));
        lemma_map_insert_entry(s.drop_last(), i, e);
        assert(map_of_entries(t) == map_of_entries(s.drop_last().insert(i, e)).insert(
            s.last().0@,
            s.last().1,
        ));
        assert(map_of_entries(t) =~= map_of_entries(s).insert(e.0@, e.1));
    }
}


/// An entry list's map holds exactly the listed keys.
pub proof fn lemma_entries_contain<V>(s: Seq<(String, V)>, k: Seq<char>)
    ensures
        map_of_entries(s).contains_key(k) <==> exists|i: int|
            0 <= i < s.len() && s[i].0@ == k,
{
    lemma_map_of_entries_contains(s, k);
}

/// An association map from strings to values whose entries stay sorted in
/// strict lexicographic key order.
pub struct StrMap<V> {
    pub entries: Vec<(String, V)>,
}

impl<V> StrMap<V> {
    /// Entry keys, as character sequences, in storage order.
    pub open spec fn spec_keys(self) -> Seq<Seq<char>> {
        Seq::new(self.entries@.len(), |i: int| self.entries@[i].0@)
    }

    /// The abstract partial map this value represents.
    pub open spec fn as_map(self) -> Map<Seq<char>, V> {
        map_of_entries(self.entries@)
    }

    pub open spec fn spec_len(self) -> nat {
        self.entries@.len()
    }

    /// Entries sorted strictly: every key is lexicographically below the next.
    pub open spec fn wf(self) -> bool {
        forall|i: int, j: int|
            0 <= i < j < self.entries@.len() ==> lex_lt(
                self.entries@[i].0@,
                self.entries@[j].0@,
            )
    }

    /// In a well-formed map no key occurs twice.
    pub proof fn lemma_keys_distinct(self, i: int, j: int)
        requires
            self.wf(),
            0 <= i < self.spec_len(),
            0 <= j < self.spec_len(),
            i != j,
        ensures
            self.entries@[i].0@ != self.entries@[j].0@,
    {
        if i < j {
            lemma_lex_lt_asymmetric(self.entries@[i].0@, self.entries@[j].0@);
        } else {
            lemma_lex_lt_asymmetric(self.entries@[j].0@, self.entries@[i].0@);
        }
    }

    /// A well-formed map contains exactly its listed keys, each bound to the
    /// value stored beside it.
    pub proof fn lemma_entries_in_map(self)
        requires
            self.wf(),
        ensures
            forall|i: int|
                0 <= i < self.spec_len() ==> self.as_map().contains_key(
                    #[trigger] self.spec_keys()[i],
                ) && self.as_map()[self.spec_keys()[i]] == self.entries@[i].1,
            forall|k: Seq<char>|
                self.as_map().contains_key(k) ==> exists|i: int|
                    0 <= i < self.spec_len() && #[trigger] self.spec_keys()[i] == k,
    {
        assert forall|i: int| 0 <= i < self.spec_len() implies self.as_map().contains_key(
            #[trigger] self.spec_keys()[i],
        ) && self.as_map()[self.spec_keys()[i]] == self.entries@[i].1 by {
            assert forall|j: int|
                0 <= j < self.entries@.len() && j != i implies self.entries@[j].0@
                != self.entries@[i].0@ by {
                self.lemma_keys_distinct(j, i);
            }
            lemma_map_of_entries_value(self.entries@, i);
        }
        assert forall|k: Seq<char>| self.as_map().contains_key(k) implies exists|i: int|
            0 <= i < self.spec_len() && #[trigger] self.spec_keys()[i] == k by {
            lemma_map_of_entries_contains(self.entries@, k);
            let i = choose|i: int| 0 <= i < self.entries@.len() && self.entries@[i].0@ == k;
            assert(self.spec_keys()[i] == k);
        }
    }

    /// Creates an empty map.
    pub fn new() -> (r: Self)
        ensures
            r.wf(),
            r.as_map() == Map::<Seq<char>, V>::empty(),
            r.spec_len() == 0,
    {
        StrMap { entries: Vec::new() }
    }

    pub fn len(&self) -> (n: usize)
        ensures
            n == self.spec_len(),
    {
        self.entries.len()
    }

    /// The key stored at position `i`.
    pub fn key_at(&self, i: usize) -> (k: &String)
        requires
            i < self.spec_len(),
        ensures
            k@ == self.spec_keys()[i as int],
    {
        &self.entries[i].0
    }

    /// The value stored at position `i`.
    pub fn val_at(&self, i: usize) -> (v: &V)
        requires
            i < self.spec_len(),
        ensures
            *v == self.entries@[i as int].1,
    {
        &self.entries[i].1
    }

    /// The first position whose key is not below `k`; the length if all are.
    fn lower_bound(&self, k: &String) -> (i: usize)
        ensures
            0 <= i <= self.spec_len(),
            forall|j: int| 0 <= j < i ==> lex_lt(self.entries@[j].0@, k@),
            i < self.spec_len() ==> !lex_lt(self.entries@[i as int].0@, k@),
    {
        let n = self.entries.len();
        let mut i: usize = 0;
        while i < n
            invariant
                0 <= i <= n,
                n == self.spec_len(),
                forall|j: int| 0 <= j < i ==> lex_lt(self.entries@[j].0@, k@),
            decreases n - i,
        {
            if !str_lt(&self.entries[i].0, k) {
                return i;
            }
            i += 1;
        }
        i
    }

    /// Looks a key up.
    pub fn get(&self, k: &String) -> (r: Option<&V>)
        requires
            self.wf(),
        ensures
            match r {
                Some(v) => self.as_map().contains_key(k@) && *v == self.as_map()[k@],
                None => !self.as_map().contains_key(k@),
            },
    {
        proof {
            self.lemma_entries_in_map();
        }
        let n = self.entries.len();
        let mut i: usize = 0;
        while i < n
            invariant
                0 <= i <= n,
                n == self.spec_len(),
                self.wf(),
                forall|j: int| 0 <= j < i ==> self.entries@[j].0@ != k@,
                forall|j: int|
                    0 <= j < self.spec_len() ==> self.as_map().contains_key(
                        #[trigger] self.spec_keys()[j],
                    ) && self.as_map()[self.spec_keys()[j]] == self.entries@[j].1,
                forall|kk: Seq<char>|
                    self.as_map().contains_key(kk) ==> exists|j: int|
                        0 <= j < self.spec_len() && #[trigger] self.spec_keys()[j] == kk,
            decreases n - i,
        {
            if str_eq(&self.entries[i].0, k) {
                assert(self.spec_keys()[i as int] == k@);
                return Some(&self.entries[i].1);
            }
            i += 1;
        }
        proof {
            if self.as_map().contains_key(k@) {
                let j = choose|j: int|
                    0 <= j < self.spec_len() && #[trigger] self.spec_keys()[j] == k@;
                assert(self.entries@[j].0@ == k@);
            }
        }
        None
    }

    /// Tests whether a key is present.
    pub fn contains_key(&self, k: &String) -> (r: bool)
        requires
            self.wf(),
        ensures
            r == self.as_map().contains_key(k@),
    {
        match self.get(k) {
            Some(_) => true,
            None => false,
        }
    }

    /// Inserts a binding, replacing any previous value under the same key.
    pub fn insert(&mut self, k: String, v: V)
        requires
            old(self).wf(),
        ensures
            final(self).wf(),
            final(self).as_map() == old(self).as_map().insert(k@, v),
            old(self).as_map().contains_key(k@) ==> final(self).spec_len() == old(
                self,
            ).spec_len(),
            !old(self).as_map().contains_key(k@) ==> final(self).spec_len() == old(
                self,
            ).spec_len() + 1,
    {
        let ghost m0 = old(self).as_map();
        let i = self.lower_bound(&k);
        let n = self.entries.len();
        if i < n && str_eq(&self.entries[i].0, &k) {
            proof {
                assert forall|j: int|
                    0 <= j < self.entries@.len() && j != i implies self.entries@[j].0@
                    != k@ by {
                    self.lemma_keys_distinct(j, i as int);
                }
                lemma_map_of_entries_contains(self.entries@, k@);
            }
            self.entries.remove(i);
            proof {
                lemma_map_remove_entry(old(self).entries@, i as int);
            }
            let ghost s1 = self.entries@;
            self.entries.insert(i, (k, v));
            proof {
                assert(forall|j: int| 0 <= j < s1.len() ==> s1[j].0@ != k@);
                lemma_map_insert_entry(s1, i as int, (k, v));
                assert(self.as_map() =~= m0.insert(k@, v));
                assert forall|x: int, y: int|
                    0 <= x < y < self.entries@.len() implies lex_lt(
                    self.entries@[x].0@,
                    self.entries@[y].0@,
                ) by {
                    let s0 = old(self).entries@;
                    assert(forall|j: int| 0 <= j < i ==> self.entries@[j] == s0[j]);
                    assert(forall|j: int| i < j < self.entries@.len() ==> self.entries@[j] == s0[j]);
                    assert(self.entries@[i as int].0@ == s0[i as int].0@);
                }
            }
        } else {
            proof {
                assert forall|j: int| i <= j < self.entries@.len() implies lex_lt(
                    k@,
                    self.entries@[j].0@,
                ) by {
                    lemma_lex_lt_total(self.entries@[i as int].0@, k@);
                    if j > i {
                        lemma_lex_lt_transitive(k@, self.entries@[i as int].0@, self.entries@[j].0@);
                    }
                }
                assert forall|j: int| 0 <= j < self.entries@.len() implies self.entries@[j].0@
                    != k@ by {
                    if j < i {
                        lemma_lex_lt_asymmetric(self.entries@[j].0@, k@);
                    } else {
                        lemma_lex_lt_asymmetric(k@, self.entries@[j].0@);
                    }
                }
                lemma_map_of_entries_contains(self.entries@, k@);
            }
            let ghost s0 = self.entries@;
            self.entries.insert(i, (k, v));
            proof {
                lemma_map_insert_entry(s0, i as int, (k, v));
                assert(self.as_map() =~= m0.insert(k@, v));
                assert forall|x: int, y: int|
                    0 <= x < y < self.entries@.len() implies lex_lt(
                    self.entries@[x].0@,
                    self.entries@[y].0@,
                ) by {
                    assert(forall|j: int| 0 <= j < i ==> self.entries@[j] == s0[j]);
                    assert(forall|j: int| i < j < self.entries@.len() ==> self.entries@[j] == s0[j
                        - 1]);
                    assert(self.entries@[i as int].0@ == k@);
                }
            }
        }
    }

    /// Removes a binding if it is present.
    pub fn remove(&mut self, k: &String)
        requires
            old(self).wf(),
        ensures
            final(self).wf(),
            final(self).as_map() == old(self).as_map().remove(k@),
            old(self).as_map().contains_key(k@) ==> final(self).spec_len() == old(
                self,
            ).spec_len() - 1,
            !old(self).as_map().contains_key(k@) ==> final(self).spec_len() == old(
                self,
            ).spec_len(),
    {
        let n = self.entries.len();
        let mut i: usize = 0;
        while i < n
            invariant
                0 <= i <= n,
                n == self.spec_len(),
                self == old(self),
                old(self).wf(),
                forall|j: int| 0 <= j < i ==> self.entries@[j].0@ != k@,
            decreases n - i,
        {
            if str_eq(&self.entries[i].0, k) {
                proof {
                    assert forall|j: int|
                        0 <= j < self.entries@.len() && j != i implies self.entries@[j].0@
                        != self.entries@[i as int].0@ by {
                        self.lemma_keys_distinct(j, i as int);
                    }
                }
                proof {
                    assert(self.entries@ == old(self).entries@);
                    assert(old(self).entries@[i as int].0@ == k@);
                }
                self.entries.remove(i);
                proof {
                    assert(self.entries@ == old(self).entries@.remove(i as int));
                    lemma_map_remove_entry(old(self).entries@, i as int);
                    assert(old(self).entries@[i as int].0@ == k@);
                    assert(self.as_map() == old(self).as_map().remove(k@));
                    old(self).lemma_entries_in_map();
                    assert(old(self).spec_keys()[i as int] == k@);
                }
                return ;
            }
            i += 1;
        }
        proof {
            lemma_map_of_entries_contains(self.entries@, k@);
            assert(!old(self).as_map().contains_key(k@));
            assert(self.as_map() =~= old(self).as_map().remove(k@));
        }
    }
}

} // verus!
