//! A string-keyed association list with map semantics: a later insertion of
//! a key shadows an earlier one, and removal drops every entry under the
//! key. Its view is the abstract `Map` the entries denote.

use vstd::prelude::*;

use crate::strutil::str_eq;

verus! {

/// The map denoted by an entry sequence: entries are folded left to right,
/// so the latest entry for a key wins.
pub open spec fn assoc_map_of<V: DeepView>(s: Seq<(String, V)>) -> Map<Seq<char>, V::V>
    decreases s.len(),
{
    if s.len() == 0 {
        Map::empty()
    } else {
        assoc_map_of(s.drop_last()).insert(s.last().0@, s.last().1.deep_view())
    }
}

/// If no entry at or after position `j` has key `k`, the denoted map agrees
/// at `k` with the map denoted by the first `j` entries.
proof fn lemma_assoc_absent_suffix<V: DeepView>(s: Seq<(String, V)>, j: int, k: Seq<char>)
    requires
        0 <= j <= s.len(),
        forall|l: int| j <= l < s.len() ==> s[l].0@ != k,
    ensures
        assoc_map_of(s).contains_key(k) == assoc_map_of(s.take(j)).contains_key(k),
        assoc_map_of(s).contains_key(k) ==> assoc_map_of(s)[k] == assoc_map_of(s.take(j))[k],
    decreases s.len() - j,
{
    if j == s.len() {
        assert(s.take(j) =~= s);
    } else {
        let shorter = s.drop_last();
        assert(s.last().0@ != k);
        lemma_assoc_absent_suffix(shorter, j, k);
        assert(shorter.take(j) =~= s.take(j));
    }
}

/// An association list from string keys to values of type `V`.
pub struct StrAssoc<V> {
    entries: Vec<(String, V)>,
}

impl<V: DeepView> View for StrAssoc<V> {
    type V = Map<Seq<char>, V::V>;

    closed spec fn view(&self) -> Map<Seq<char>, V::V> {
        assoc_map_of(self.entries@)
    }
}

impl<V: DeepView> StrAssoc<V> {
    /// An empty association list.
    pub fn new() -> (r: Self)
        ensures
            r@ == Map::<Seq<char>, V::V>::empty(),
    {
        StrAssoc { entries: Vec::new() }
    }

    /// Binds `key` to `value`, shadowing any earlier binding of `key`.
    pub fn insert(&mut self, key: String, value: V)
        ensures
            final(self)@ == old(self)@.insert(key@, value.deep_view()),
    {
        let ghost pre = self.entries@;
        let ghost kview = key@;
        let ghost vview = value.deep_view();
        self.entries.push((key, value));
        proof {
            assert(self.entries@.drop_last() =~= pre);
            assert(self.entries@.last().0@ == kview);
            assert(self.entries@.last().1.deep_view() == vview);
        }
    }

    /// The value bound to `key`, if any.
    pub fn get(&self, key: &str) -> (r: Option<&V>)
        ensures
            match r {
                Some(v) => self@.contains_key(key@) && self@[key@] == v.deep_view(),
                None => !self@.contains_key(key@),
            },
    {
        let n: usize = self.entries.len();
        let mut j: usize = n;
        while j > 0
            invariant
                j <= n,
                n == self.entries@.len(),
                forall|l: int| j <= l < n ==> self.entries@[l].0@ != key@,
            decreases j,
        {
            j -= 1;
            if str_eq(self.entries[j].0.as_str(), key) {
                proof {
                    lemma_assoc_absent_suffix(self.entries@, j + 1, key@);
                    let upto = self.entries@.take(j + 1);
                    assert(upto.drop_last() =~= self.entries@.take(j as int));
                    assert(upto.last() == self.entries@[j as int]);
                }
                return Some(&self.entries[j].1);
            }
        }
        proof {
            lemma_assoc_absent_suffix(self.entries@, 0, key@);
            assert(self.entries@.take(0) =~= Seq::<(String, V)>::empty());
        }
        None
    }

    /// Removes every binding of `key`; returns the value that was visible
    /// under `key`, if there was one.
    pub fn remove(&mut self, key: &str) -> (r: Option<V>)
        ensures
            final(self)@ == old(self)@.remove(key@),
            match r {
                Some(v) => old(self)@.contains_key(key@) && old(self)@[key@] == v.deep_view(),
                None => !old(self)@.contains_key(key@),
            },
    {
        let ghost pre = self.entries@;
        let n: usize = self.entries.len();
        let mut kept: Vec<(String, V)> = Vec::new();
        let mut found: Option<V> = None;
        let mut i: usize = 0;
        let mut rest: Vec<(String, V)> = Vec::new();
        std::mem::swap(&mut rest, &mut self.entries);
        proof {
            assert(rest@ =~= pre.subrange(0, n as int));
            assert(pre.take(0) =~= Seq::<(String, V)>::empty());
        }
        while rest.len() > 0
            invariant
                i + rest@.len() == n,
                n == pre.len(),
                rest@ =~= pre.subrange(i as int, n as int),
                kept@ =~= entries_without(pre.take(i as int), key@),
                match found {
                    Some(v) => assoc_map_of(pre.take(i as int)).contains_key(key@)
                        && assoc_map_of(pre.take(i as int))[key@] == v.deep_view(),
                    None => !assoc_map_of(pre.take(i as int)).contains_key(key@),
                },
            decreases rest@.len(),
        {
            let entry = rest.remove(0);
            proof {
                assert(entry == pre[i as int]);
                assert(pre.take(i + 1).drop_last() =~= pre.take(i as int));
                assert(pre.take(i + 1).last() == pre[i as int]);
            }
            if str_eq(entry.0.as_str(), key) {
                found = Some(entry.1);
            } else {
                kept.push(entry);
            }
            i += 1;
            proof {
                assert(rest@ =~= pre.subrange(i as int, n as int));
            }
        }
        proof {
            assert(pre.take(n as int) =~= pre);
        }
        self.entries = kept;
        proof {
            lemma_assoc_without_key(pre, key@);
        }
        found
    }
}

/// The entry sequence with every entry under key `k` dropped.
pub open spec fn entries_without<V: DeepView>(s: Seq<(String, V)>, k: Seq<char>) -> Seq<
    (String, V),
>
    decreases s.len(),
{
    if s.len() == 0 {
        s
    } else {
        let rest = entries_without(s.drop_last(), k);
        if s.last().0@ == k {
            rest
        } else {
            rest.push(s.last())
        }
    }
}

/// Dropping one key from the entries removes exactly that key from the
/// denoted map.
proof fn lemma_assoc_without_key<V: DeepView>(s: Seq<(String, V)>, k: Seq<char>)
    ensures
        assoc_map_of(entries_without(s, k)) == assoc_map_of(s).remove(k),
    decreases s.len(),
{
    if s.len() == 0 {
        assert(assoc_map_of(entries_without(s, k)) =~= assoc_map_of(s).remove(k));
    } else {
        let shorter = s.drop_last();
        let e = s.last();
        lemma_assoc_without_key(shorter, k);
        if e.0@ == k {
            assert(assoc_map_of(s).remove(k) =~= assoc_map_of(shorter).remove(k));
        } else {
            assert(entries_without(s, k).drop_last() =~= entries_without(shorter, k));
            assert(entries_without(s, k).last() == e);
            assert(assoc_map_of(s).remove(k) =~= assoc_map_of(shorter).remove(k).insert(
                e.0@,
                e.1.deep_view(),
            ));
        }
    }
}

} // verus!
