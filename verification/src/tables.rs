//! A small association table keyed by step-identity digests. Build backends
//! key their reports by digest strings; the aggregator needs verified lookup
//! and upsert against a `Map<Seq<char>, _>` abstraction, which `Vec`-backed
//! entries with pairwise-distinct keys provide.

use vstd::prelude::*;

use crate::text::str_eq;

verus! {

/// The map an entry sequence denotes: later entries win (keys are unique
/// whenever [`AssocTable::wf`] holds, so order never actually matters).
pub open spec fn entries_map<T: View>(s: Seq<(String, T)>) -> Map<Seq<char>, T::V>
    decreases s.len(),
{
    if s.len() == 0 {
        Map::empty()
    } else {
        entries_map(s.drop_last()).insert(s.last().0@, s.last().1@)
    }
}

/// Pairwise-distinct keys.
pub open spec fn distinct_keys<T: View>(s: Seq<(String, T)>) -> bool {
    forall|i: int, j: int| 0 <= i < j < s.len() ==> s[i].0@ != s[j].0@
}

proof fn lemma_entries_map_props<T: View>(s: Seq<(String, T)>)
    requires
        distinct_keys(s),
    ensures
        entries_map(s).dom().finite(),
        entries_map(s).dom().len() == s.len(),
        forall|k: Seq<char>| #[trigger]
            entries_map(s).contains_key(k) <==> exists|i: int| 0 <= i < s.len() && s[i].0@ == k,
        forall|i: int| 0 <= i < s.len() ==> #[trigger] entries_map(s)[s[i].0@] == s[i].1@,
    decreases s.len(),
{
    if s.len() > 0 {
        let t = s.drop_last();
        lemma_entries_map_props(t);
        let m = entries_map(s);
        let k_last = s.last().0@;
        assert(!entries_map(t).contains_key(k_last)) by {
            if entries_map(t).contains_key(k_last) {
                let i = choose|i: int| 0 <= i < t.len() && t[i].0@ == k_last;
                assert(s[i].0@ == s[s.len() - 1].0@);
            }
        }
        assert forall|k: Seq<char>| #[trigger] m.contains_key(k) implies exists|i: int|
            0 <= i < s.len() && s[i].0@ == k by {
            if k == k_last {
                assert(s[s.len() - 1].0@ == k);
            } else {
                let i = choose|i: int| 0 <= i < t.len() && t[i].0@ == k;
                assert(s[i].0@ == k);
            }
        }
        assert forall|k: Seq<char>| (exists|i: int| 0 <= i < s.len() && s[i].0@ == k) implies
            #[trigger] m.contains_key(k) by {
            let i = choose|i: int| 0 <= i < s.len() && s[i].0@ == k;
            if i < s.len() - 1 {
                assert(t[i].0@ == k);
                assert(entries_map(t).contains_key(k));
            }
        }
        assert forall|i: int| 0 <= i < s.len() implies #[trigger] m[s[i].0@] == s[i].1@ by {
            if i < s.len() - 1 {
                assert(s[i].0@ != k_last);
                assert(t[i].0@ == s[i].0@ && t[i].1@ == s[i].1@);
                assert(entries_map(t)[t[i].0@] == t[i].1@);
            }
        }
    }
}

proof fn lemma_entries_map_push<T: View>(s: Seq<(String, T)>, key: String, v: T)
    ensures
        entries_map(s.push((key, v))) == entries_map(s).insert(key@, v@),
{
    let p = s.push((key, v));
    assert(p.drop_last() =~= s);
    assert(p.last() == (key, v));
}

proof fn lemma_entries_map_update<T: View>(s: Seq<(String, T)>, i: int, key: String, v: T)
    requires
        distinct_keys(s),
        0 <= i < s.len(),
        key@ == s[i].0@,
    ensures
        entries_map(s.update(i, (key, v))) == entries_map(s).insert(key@, v@),
        distinct_keys(s.update(i, (key, v))),
    decreases s.len(),
{
    let u = s.update(i, (key, v));
    assert(distinct_keys(u)) by {
        assert(forall|a: int| 0 <= a < s.len() ==> u[a].0@ == s[a].0@);
    }
    if i == s.len() - 1 {
        assert(u.drop_last() =~= s.drop_last());
        assert(u.last() == (key, v));
        assert(entries_map(u) == entries_map(s.drop_last()).insert(key@, v@));
        assert(entries_map(s) == entries_map(s.drop_last()).insert(s.last().0@, s.last().1@));
        assert(entries_map(s).insert(key@, v@) =~= entries_map(s.drop_last()).insert(key@, v@));
    } else {
        let t = s.drop_last();
        assert(distinct_keys(t)) by {
            assert(forall|a: int| 0 <= a < t.len() ==> t[a].0@ == s[a].0@);
        }
        lemma_entries_map_update(t, i, key, v);
        assert(u.drop_last() =~= t.update(i, (key, v)));
        assert(u.last() == s.last());
        assert(entries_map(u) == entries_map(t).insert(key@, v@).insert(s.last().0@, s.last().1@));
        assert(key@ != s.last().0@) by {
            assert(s[i].0@ != s[s.len() - 1].0@);
        }
        assert(entries_map(t).insert(key@, v@).insert(s.last().0@, s.last().1@) =~= entries_map(
            t,
        ).insert(s.last().0@, s.last().1@).insert(key@, v@));
    }
}

/// A digest-keyed table with verified map semantics.
pub struct AssocTable<T: View> {
    entries: Vec<(String, T)>,
}

impl<T: View> View for AssocTable<T> {
    type V = Map<Seq<char>, T::V>;

    /// The map this table holds.
    closed spec fn view(&self) -> Map<Seq<char>, T::V> {
        entries_map(self.entries@)
    }
}

impl<T: View> AssocTable<T> {
    /// Keys are pairwise distinct: one entry per identity.
    pub closed spec fn wf(&self) -> bool {
        distinct_keys(self.entries@)
    }

    /// Number of entries.
    pub closed spec fn spec_len(&self) -> nat {
        self.entries@.len()
    }

    /// Key of the entry at position `i`.
    pub closed spec fn key_at(&self, i: int) -> Seq<char> {
        self.entries@[i].0@
    }

    /// Value of the entry at position `i`.
    pub closed spec fn val_at(&self, i: int) -> T::V {
        self.entries@[i].1@
    }

    /// The table's map reflects its entries exactly.
    pub proof fn lemma_view(&self)
        requires
            self.wf(),
        ensures
            self@.dom().finite(),
            self@.dom().len() == self.spec_len(),
            forall|k: Seq<char>| #[trigger]
                self@.contains_key(k) <==> exists|i: int|
                    0 <= i < self.spec_len() && self.key_at(i) == k,
            forall|i: int|
                0 <= i < self.spec_len() ==> #[trigger] self@.contains_key(self.key_at(i))
                    && self@[self.key_at(i)] == self.val_at(i),
            forall|i: int, j: int|
                0 <= i < j < self.spec_len() ==> self.key_at(i) != self.key_at(j),
    {
        lemma_entries_map_props(self.entries@);
        let s = self.entries@;
        assert forall|i: int|
            0 <= i < self.spec_len() implies #[trigger] self@.contains_key(self.key_at(i))
            && self@[self.key_at(i)] == self.val_at(i) by {
            assert(s[i].0@ == self.key_at(i));
        }
        assert forall|k: Seq<char>| #[trigger] self@.contains_key(k) implies exists|i: int|
            0 <= i < self.spec_len() && self.key_at(i) == k by {
            let i = choose|i: int| 0 <= i < s.len() && s[i].0@ == k;
            assert(self.key_at(i) == k);
        }
        assert forall|k: Seq<char>|
            (exists|i: int| 0 <= i < self.spec_len() && self.key_at(i) == k) implies #[trigger] self@.contains_key(k) by {
            let i = choose|i: int| 0 <= i < self.spec_len() && self.key_at(i) == k;
            assert(s[i].0@ == k);
            assert(exists|j: int| 0 <= j < s.len() && s[j].0@ == k);
        }
    }

    /// An empty table.
    pub fn new() -> (r: Self)
        ensures
            r@ == Map::<Seq<char>, T::V>::empty(),
            r.wf(),
            r.spec_len() == 0,
    {
        AssocTable { entries: Vec::new() }
    }

    /// Number of tracked identities.
    pub fn len(&self) -> (r: usize)
        ensures
            r == self.spec_len(),
    {
        self.entries.len()
    }

    /// Position of the entry for digest `d`, if one exists.
    pub fn index_of(&self, d: &str) -> (r: Option<usize>)
        requires
            self.wf(),
        ensures
            match r {
                Some(i) => i < self.spec_len() && self.key_at(i as int) == d@
                    && self@.contains_key(d@) && self@[d@] == self.val_at(i as int),
                None => !self@.contains_key(d@),
            },
    {
        proof {
            self.lemma_view();
        }
        let n = self.entries.len();
        let mut i: usize = 0;
        while i < n
            invariant
                i <= n,
                n == self.spec_len(),
                self.wf(),
                forall|k: int| 0 <= k < i ==> self.key_at(k) != d@,
            decreases n - i,
        {
            assert(self.entries@[i as int].0@ == self.key_at(i as int));
            if str_eq(self.entries[i].0.as_str(), d) {
                proof {
                    self.lemma_view();
                }
                return Some(i);
            }
            i += 1;
        }
        proof {
            self.lemma_view();
            if self@.contains_key(d@) {
                let j = choose|j: int| 0 <= j < self.spec_len() && self.key_at(j) == d@;
                assert(self.key_at(j) != d@);
            }
        }
        None
    }

    /// Value of the entry at position `i`.
    pub fn value_at(&self, i: usize) -> (r: &T)
        requires
            i < self.spec_len(),
        ensures
            r@ == self.val_at(i as int),
    {
        &self.entries[i].1
    }

    /// Replaces the value at position `i`, keeping its key.
    pub fn replace_at(&mut self, i: usize, v: T)
        requires
            old(self).wf(),
            i < old(self).spec_len(),
        ensures
            final(self).wf(),
            final(self)@ == old(self)@.insert(old(self).key_at(i as int), v@),
            final(self).spec_len() == old(self).spec_len(),
            forall|j: int|
                0 <= j < final(self).spec_len() ==> final(self).key_at(j) == old(self).key_at(j),
            final(self).val_at(i as int) == v@,
            forall|j: int|
                0 <= j < final(self).spec_len() && j != i ==> final(self).val_at(j) == old(
                    self,
                ).val_at(j),
    {
        let ghost s0 = self.entries@;
        let entry = self.entries.remove(i);
        let key = entry.0;
        proof {
            assert(key@ == s0[i as int].0@);
        }
        self.entries.insert(i, (key, v));
        proof {
            assert(self.entries@ =~= s0.update(i as int, self.entries@[i as int]));
            lemma_entries_map_update(s0, i as int, self.entries@[i as int].0, self.entries@[
                i as int].1);
            assert(self.entries@[i as int].0@ == s0[i as int].0@);
        }
    }

    /// Inserts a fresh entry for digest `d`. The digest must not be present.
    pub fn insert_new(&mut self, d: &str, v: T)
        requires
            old(self).wf(),
            !old(self)@.contains_key(d@),
        ensures
            final(self).wf(),
            final(self)@ == old(self)@.insert(d@, v@),
            final(self).spec_len() == old(self).spec_len() + 1,
            forall|j: int|
                0 <= j < old(self).spec_len() ==> final(self).key_at(j) == old(self).key_at(j)
                    && final(self).val_at(j) == old(self).val_at(j),
            final(self).key_at(old(self).spec_len() as int) == d@,
            final(self).val_at(old(self).spec_len() as int) == v@,
    {
        proof {
            self.lemma_view();
        }
        let ghost s0 = self.entries@;
        let key = d.to_owned();
        self.entries.push((key, v));
        proof {
            lemma_entries_map_push(s0, self.entries@.last().0, self.entries@.last().1);
            assert(self.entries@.drop_last() =~= s0);
            assert(distinct_keys(self.entries@)) by {
                assert forall|a: int, b: int|
                    0 <= a < b < self.entries@.len() implies self.entries@[a].0@
                    != self.entries@[b].0@ by {
                    if b == self.entries@.len() - 1 {
                        assert(self.entries@[b].0@ == d@);
                        assert(self.entries@[a].0@ == s0[a].0@);
                        if s0[a].0@ == d@ {
                            assert(old(self).key_at(a) == d@);
                            assert(exists|i: int|
                                0 <= i < old(self).spec_len() && old(self).key_at(i) == d@);
                        }
                    } else {
                        assert(s0[a].0@ != s0[b].0@);
                    }
                }
            }
        }
    }
}

} // verus!
