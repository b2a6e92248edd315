//! The registry's backbone: an insertion-ordered association map from names
//! to values.  Registering under an existing name overwrites the prior
//! entry in place, as the shared namespace's documented behaviour asks;
//! nothing is ever removed during a run.
//!
//! The map views to a mathematical `Map` from character sequences to the
//! values' own views, and every operation is specified against that view.

use vstd::prelude::*;

verus! {

/// The mathematical content of an association list: later entries win.
pub open spec fn assoc_view<V: View>(s: Seq<(String, V)>) -> Map<Seq<char>, V::V>
    decreases s.len(),
{
    if s.len() == 0 {
        Map::empty()
    } else {
        assoc_view(s.drop_last()).insert(s.last().0@, s.last().1@)
    }
}

/// An insertion-ordered name-to-value map with overwrite-on-re-registration
/// semantics.
pub struct NameMap<V> {
    entries: Vec<(String, V)>,
}

impl<V: View> View for NameMap<V> {
    type V = Map<Seq<char>, V::V>;

    closed spec fn view(&self) -> Map<Seq<char>, V::V> {
        assoc_view(self.entries@)
    }
}

impl<V: View> NameMap<V> {
    /// The underlying entry list, in insertion order.
    pub closed spec fn entry_seq(&self) -> Seq<(String, V)> {
        self.entries@
    }

    /// Well-formedness: no name occurs twice.
    pub closed spec fn wf(&self) -> bool {
        forall|i: int, j: int|
            0 <= i < j < self.entries@.len() ==> (#[trigger] self.entries@[i].0@) != (
            #[trigger] self.entries@[j].0@)
    }

    pub fn new() -> (r: NameMap<V>)
        ensures
            r@ == Map::<Seq<char>, V::V>::empty(),
            r.wf(),
            r.entry_seq().len() == 0,
    {
        NameMap { entries: Vec::new() }
    }

    pub fn len(&self) -> (r: usize)
        ensures
            r == self.entry_seq().len(),
    {
        self.entries.len()
    }

    /// The entries as a list, for callers that walk the map in insertion
    /// order; `lemma_entries_agree` ties the list to the map view.
    pub fn entries(&self) -> (r: &Vec<(String, V)>)
        ensures
            r@ == self.entry_seq(),
    {
        &self.entries
    }

    /// Looks a name up, returning the value registered under it last.
    pub fn get(&self, name: &String) -> (r: Option<&V>)
        requires
            self.wf(),
        ensures
            match r {
                Some(v) => self@.contains_key(name@) && v@ == self@[name@],
                None => !self@.contains_key(name@),
            },
    {
        let n: usize = self.entries.len();
        let mut i: usize = 0;
        while i < n
            invariant
                0 <= i <= n,
                n == self.entries@.len(),
                self.wf(),
                forall|j: int| 0 <= j < i ==> (#[trigger] self.entries@[j].0@) != name@,
            decreases n - i,
        {
            let pair = &self.entries[i];
            if pair.0.eq(name) {
                proof {
                    lemma_assoc_at_index(self.entries@, i as int);
                }
                return Some(&pair.1);
            }
            i = i + 1;
        }
        proof {
            lemma_assoc_contains(self.entries@, name@);
        }
        None
    }

    /// Registers a value under a name.  A fresh name goes to the end of the
    /// entry list; an existing one has its entry overwritten in place.
    pub fn insert(&mut self, name: String, value: V)
        requires
            old(self).wf(),
        ensures
            final(self)@ == old(self)@.insert(name@, value@),
            final(self).wf(),
            old(self)@.contains_key(name@) ==> final(self).entry_seq().len() == old(
                self,
            ).entry_seq().len(),
            !old(self)@.contains_key(name@) ==> final(self).entry_seq() == old(
                self,
            ).entry_seq().push((name, value)),
    {
        let n: usize = self.entries.len();
        let mut i: usize = 0;
        while i < n
            invariant
                0 <= i <= n,
                n == self.entries@.len(),
                self.wf(),
                self.entries@ == old(self).entries@,
                forall|j: int| 0 <= j < i ==> (#[trigger] self.entries@[j].0@) != name@,
            decreases n - i,
        {
            let hit: bool = self.entries[i].0.eq(&name);
            if hit {
                proof {
                    lemma_assoc_at_index(self.entries@, i as int);
                    lemma_assoc_contains(self.entries@, name@);
                }
                self.entries[i] = (name, value);
                proof {
                    lemma_assoc_update(old(self).entries@, i as int, self.entries@[i as int]);
                    assert forall|a: int, b: int|
                        0 <= a < b < self.entries@.len() implies (self.entries@[a].0@) != (
                    self.entries@[b].0@) by {
                        assert(self.entries@[a].0@ == old(self).entries@[a].0@);
                        assert(self.entries@[b].0@ == old(self).entries@[b].0@);
                    }
                }
                return ;
            }
            i = i + 1;
        }
        proof {
            lemma_assoc_contains(self.entries@, name@);
        }
        self.entries.push((name, value));
        proof {
            assert(self.entries@.drop_last() =~= old(self).entries@);
            assert forall|a: int, b: int|
                0 <= a < b < self.entries@.len() implies (self.entries@[a].0@) != (
            self.entries@[b].0@) by {
                assert(self.entries@[a].0@ == old(self).entries@[a].0@);
                if b < self.entries@.len() - 1 {
                    assert(self.entries@[b].0@ == old(self).entries@[b].0@);
                }
            }
        }
    }

    /// Every listed entry is what the map view holds for its name, and the
    /// view holds exactly the listed names.
    pub proof fn lemma_entries_agree(&self)
        requires
            self.wf(),
        ensures
            forall|i: int|
                0 <= i < self.entry_seq().len() ==> self@.contains_key(
                    (#[trigger] self.entry_seq()[i]).0@,
                ) && self@[self.entry_seq()[i].0@] == self.entry_seq()[i].1@,
            forall|k: Seq<char>|
                self@.contains_key(k) ==> exists|i: int|
                    0 <= i < self.entry_seq().len() && (#[trigger] self.entry_seq()[i]).0@ == k,
    {
        assert forall|i: int| 0 <= i < self.entry_seq().len() implies self@.contains_key(
            (#[trigger] self.entry_seq()[i]).0@,
        ) && self@[self.entry_seq()[i].0@] == self.entry_seq()[i].1@ by {
            lemma_assoc_at_index(self.entries@, i);
        }
        assert forall|k: Seq<char>| self@.contains_key(k) implies exists|i: int|
            0 <= i < self.entry_seq().len() && (#[trigger] self.entry_seq()[i]).0@ == k by {
            lemma_assoc_contains(self.entries@, k);
            let i = choose|i: int| 0 <= i < self.entries@.len() && (#[trigger] self.entries@[i].0@)
                == k;
            assert(0 <= i < self.entry_seq().len() && self.entry_seq()[i].0@ == k);
        }
    }
}

/// The view contains a name exactly when some entry carries it.
proof fn lemma_assoc_contains<V: View>(s: Seq<(String, V)>, k: Seq<char>)
    ensures
        assoc_view(s).contains_key(k) <==> exists|i: int|
            0 <= i < s.len() && (#[trigger] s[i].0@) == k,
    decreases s.len(),
{
    if s.len() > 0 {
        lemma_assoc_contains(s.drop_last(), k);
        if s.last().0@ == k {
            assert(s[s.len() - 1].0@ == k);
        } else if assoc_view(s).contains_key(k) {
            let i = choose|i: int| 0 <= i < s.drop_last().len() && (#[trigger] s.drop_last()[i].0@)
                == k;
            assert(s[i].0@ == k);
        } else {
            assert forall|i: int| 0 <= i < s.len() implies (#[trigger] s[i].0@) != k by {
                if i < s.len() - 1 {
                    assert(s.drop_last()[i].0@ == s[i].0@);
                }
            }
        }
    }
}

/// With distinct names, the view of entry `i` is entry `i`'s value.
proof fn lemma_assoc_at_index<V: View>(s: Seq<(String, V)>, i: int)
    requires
        0 <= i < s.len(),
        forall|a: int, b: int|
            0 <= a < b < s.len() ==> (#[trigger] s[a].0@) != (#[trigger] s[b].0@),
    ensures
        assoc_view(s).contains_key(s[i].0@),
        assoc_view(s)[s[i].0@] == s[i].1@,
    decreases s.len(),
{
    if i == s.len() - 1 {
    } else {
        assert(s.drop_last()[i] == s[i]);
        lemma_assoc_at_index(s.drop_last(), i);
        assert(s.last().0@ != s[i].0@);
    }
}

/// Overwriting the entry that holds a name updates just that name in the
/// view.
proof fn lemma_assoc_update<V: View>(s: Seq<(String, V)>, i: int, p: (String, V))
    requires
        0 <= i < s.len(),
        forall|a: int, b: int|
            0 <= a < b < s.len() ==> (#[trigger] s[a].0@) != (#[trigger] s[b].0@),
        p.0@ == s[i].0@,
    ensures
        assoc_view(s.update(i, p)) == assoc_view(s).insert(p.0@, p.1@),
    decreases s.len(),
{
    let t = s.update(i, p);
    if i == s.len() - 1 {
        assert(t.drop_last() =~= s.drop_last());
        assert(t.last() == p);
        assert(assoc_view(t) == assoc_view(s.drop_last()).insert(p.0@, p.1@));
        assert(assoc_view(s).insert(p.0@, p.1@) =~= assoc_view(s.drop_last()).insert(p.0@, p.1@));
    } else {
        assert(t.drop_last() =~= s.drop_last().update(i, p));
        assert(s.drop_last()[i] == s[i]);
        lemma_assoc_update(s.drop_last(), i, p);
        assert(t.last() == s.last());
        assert(s.last().0@ != p.0@);
        assert(assoc_view(t) == assoc_view(s.drop_last()).insert(p.0@, p.1@).insert(
            s.last().0@,
            s.last().1@,
        ));
        assert(assoc_view(s.drop_last()).insert(p.0@, p.1@).insert(s.last().0@, s.last().1@)
            =~= assoc_view(s.drop_last()).insert(s.last().0@, s.last().1@).insert(p.0@, p.1@));
    }
}

} // verus!
