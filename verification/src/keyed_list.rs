use vstd::prelude::*;

use crate::bytes::bytes_eq;

verus! {

/// One record of a `KeyedList`.
pub struct Entry<V> {
    pub key: Vec<u8>,
    pub val: V,
}

/// Whether no two records share a key.
pub open spec fn unique_keys<V>(s: Seq<Entry<V>>) -> bool {
    forall|i: int, j: int| 0 <= i < j < s.len() ==> s[i].key@ != s[j].key@
}

/// The finite map a record sequence denotes.
pub open spec fn map_of<V: DeepView>(s: Seq<Entry<V>>) -> Map<Seq<u8>, V::V>
    decreases s.len(),
{
    if s.len() == 0 {
        Map::empty()
    } else {
        map_of(s.drop_last()).insert(s.last().key@, s.last().val.deep_view())
    }
}

proof fn lemma_unique_drop_last<V>(s: Seq<Entry<V>>)
    requires
        unique_keys(s),
        s.len() > 0,
    ensures
        unique_keys(s.drop_last()),
{
    assert forall|a: int, b: int| 0 <= a < b < s.drop_last().len() implies s.drop_last()[a].key@
        != s.drop_last()[b].key@ by {
        assert(s.drop_last()[a] == s[a]);
        assert(s.drop_last()[b] == s[b]);
    }
}

/// With unique keys, each record is found in the map under its own key.
proof fn lemma_map_of_index<V: DeepView>(s: Seq<Entry<V>>, i: int)
    requires
        unique_keys(s),
        0 <= i < s.len(),
    ensures
        map_of(s).contains_key(s[i].key@),
        map_of(s)[s[i].key@] == s[i].val.deep_view(),
    decreases s.len(),
{
    if i == s.len() - 1 {
        assert(s.last() == s[i]);
    } else {
        lemma_unique_drop_last(s);
        assert(s.drop_last()[i] == s[i]);
        lemma_map_of_index(s.drop_last(), i);
        assert(s[i].key@ != s[s.len() - 1].key@);
        assert(s.last() == s[s.len() - 1]);
    }
}

/// A key held by no record is not in the map.
proof fn lemma_map_of_absent<V: DeepView>(s: Seq<Entry<V>>, k: Seq<u8>)
    requires
        forall|i: int| 0 <= i < s.len() ==> s[i].key@ != k,
    ensures
        !map_of(s).contains_key(k),
    decreases s.len(),
{
    if s.len() > 0 {
        assert(s.last() == s[s.len() - 1]);
        assert forall|i: int| 0 <= i < s.drop_last().len() implies s.drop_last()[i].key@ != k by {
            assert(s.drop_last()[i] == s[i]);
        }
        lemma_map_of_absent(s.drop_last(), k);
    }
}

/// Appending a record with a fresh key inserts it into the map.
proof fn lemma_map_of_push<V: DeepView>(s: Seq<Entry<V>>, e: Entry<V>)
    requires
        forall|i: int| 0 <= i < s.len() ==> s[i].key@ != e.key@,
        unique_keys(s),
    ensures
        map_of(s.push(e)) == map_of(s).insert(e.key@, e.val.deep_view()),
        unique_keys(s.push(e)),
{
    assert(s.push(e).drop_last() =~= s);
    assert(s.push(e).last() == e);
    assert forall|a: int, b: int| 0 <= a < b < s.push(e).len() implies s.push(e)[a].key@ != s.push(
        e,
    )[b].key@ by {
        if b < s.len() {
            assert(s.push(e)[a] == s[a]);
            assert(s.push(e)[b] == s[b]);
        } else {
            assert(s.push(e)[a] == s[a]);
            assert(s.push(e)[b] == e);
        }
    }
}

/// Replacing the record that holds a key overwrites its value in the map.
proof fn lemma_map_of_update<V: DeepView>(s: Seq<Entry<V>>, i: int, e: Entry<V>)
    requires
        unique_keys(s),
        0 <= i < s.len(),
        e.key@ == s[i].key@,
    ensures
        map_of(s.update(i, e)) == map_of(s).insert(e.key@, e.val.deep_view()),
        unique_keys(s.update(i, e)),
    decreases s.len(),
{
    let t = s.update(i, e);
    assert(forall|a: int| 0 <= a < t.len() ==> t[a].key@ == s[a].key@);
    if i == s.len() - 1 {
        assert(t.drop_last() =~= s.drop_last());
        assert(t.last() == e);
        assert(s.last() == s[i]);
        assert(map_of(s).insert(e.key@, e.val.deep_view()) =~= map_of(s.drop_last()).insert(
            e.key@,
            e.val.deep_view(),
        ));
    } else {
        lemma_unique_drop_last(s);
        assert(s.drop_last()[i] == s[i]);
        lemma_map_of_update(s.drop_last(), i, e);
        assert(t.drop_last() =~= s.drop_last().update(i, e));
        assert(t.last() == s.last());
        assert(s.last() == s[s.len() - 1]);
        assert(s[i].key@ != s[s.len() - 1].key@);
        assert(map_of(s.drop_last()).insert(e.key@, e.val.deep_view()).insert(
            s.last().key@,
            s.last().val.deep_view(),
        ) =~= map_of(s.drop_last()).insert(s.last().key@, s.last().val.deep_view()).insert(
            e.key@,
            e.val.deep_view(),
        ));
    }
}

/// Removing the record that holds a key removes the key from the map.
proof fn lemma_map_of_remove<V: DeepView>(s: Seq<Entry<V>>, i: int)
    requires
        unique_keys(s),
        0 <= i < s.len(),
    ensures
        map_of(s.remove(i)) == map_of(s).remove(s[i].key@),
        unique_keys(s.remove(i)),
    decreases s.len(),
{
    let t = s.remove(i);
    s.remove_ensures(i);
    assert forall|a: int, b: int| 0 <= a < b < t.len() implies t[a].key@ != t[b].key@ by {
        if a < i && b < i {
            assert(t[a] == s[a] && t[b] == s[b]);
        } else if a < i {
            assert(t[a] == s[a] && t[b] == s[b + 1]);
        } else {
            assert(t[a] == s[a + 1] && t[b] == s[b + 1]);
        }
    }
    if i == s.len() - 1 {
        assert(t =~= s.drop_last());
        lemma_unique_drop_last(s);
        assert(s.last() == s[i]);
        assert forall|j: int| 0 <= j < s.drop_last().len() implies s.drop_last()[j].key@
            != s[i].key@ by {
            assert(s.drop_last()[j] == s[j]);
        }
        lemma_map_of_absent(s.drop_last(), s[i].key@);
        assert(map_of(s).remove(s[i].key@) =~= map_of(s.drop_last()));
    } else {
        lemma_unique_drop_last(s);
        assert(s.drop_last()[i] == s[i]);
        lemma_map_of_remove(s.drop_last(), i);
        assert(t.drop_last() =~= s.drop_last().remove(i));
        assert(t.last() == s.last());
        assert(s.last() == s[s.len() - 1]);
        assert(s[i].key@ != s[s.len() - 1].key@);
        assert(map_of(s.drop_last()).remove(s[i].key@).insert(
            s.last().key@,
            s.last().val.deep_view(),
        ) =~= map_of(s.drop_last()).insert(s.last().key@, s.last().val.deep_view()).remove(
            s[i].key@,
        ));
    }
}

/// An insertion-ordered association list from byte-string keys to values,
/// with unique keys, read as the finite map it denotes.
pub struct KeyedList<V> {
    entries: Vec<Entry<V>>,
}

impl<V: DeepView> View for KeyedList<V> {
    type V = Map<Seq<u8>, V::V>;

    closed spec fn view(&self) -> Map<Seq<u8>, V::V> {
        map_of(self.entries@)
    }
}

impl<V: DeepView> KeyedList<V> {
    /// No two records share a key; every operation keeps this.
    pub closed spec fn wf(self) -> bool {
        unique_keys(self.entries@)
    }

    /// An empty list.
    pub fn new() -> (r: KeyedList<V>)
        ensures
            r.wf(),
            r@ == Map::<Seq<u8>, V::V>::empty(),
    {
        let r = KeyedList::<V> { entries: Vec::new() };
        proof {
            assert(r.entries@.len() == 0);
        }
        r
    }

    /// Looks a key up.
    pub fn get<'a>(&'a self, key: &Vec<u8>) -> (r: Option<&'a V>)
        requires
            self.wf(),
        ensures
            match r {
                Some(v) => self@.contains_key(key@) && v.deep_view() == self@[key@],
                None => !self@.contains_key(key@),
            },
    {
        let mut i: usize = 0;
        while i < self.entries.len()
            invariant
                self.wf(),
                i <= self.entries@.len(),
                forall|j: int| 0 <= j < i ==> self.entries@[j].key@ != key@,
            decreases self.entries@.len() - i,
        {
            if bytes_eq(&self.entries[i].key, key) {
                proof {
                    lemma_map_of_index(self.entries@, i as int);
                }
                return Some(&self.entries[i].val);
            }
            i += 1;
        }
        proof {
            lemma_map_of_absent(self.entries@, key@);
        }
        None
    }

    /// Binds a key to a value, replacing any earlier binding.
    pub fn set(&mut self, key: Vec<u8>, val: V)
        requires
            old(self).wf(),
        ensures
            final(self).wf(),
            final(self)@ == old(self)@.insert(key@, val.deep_view()),
    {
        let mut i: usize = 0;
        while i < self.entries.len()
            invariant
                *self == *old(self),
                self.wf(),
                i <= self.entries@.len(),
                forall|j: int| 0 <= j < i ==> self.entries@[j].key@ != key@,
            decreases self.entries@.len() - i,
        {
            if bytes_eq(&self.entries[i].key, &key) {
                proof {
                    lemma_map_of_update(self.entries@, i as int, Entry { key, val });
                }
                self.entries.set(i, Entry { key, val });
                return ;
            }
            i += 1;
        }
        proof {
            lemma_map_of_push(self.entries@, Entry { key, val });
        }
        self.entries.push(Entry { key, val });
    }

    /// Removes a binding and hands its value out.
    pub fn take(&mut self, key: &Vec<u8>) -> (r: Option<V>)
        requires
            old(self).wf(),
        ensures
            final(self).wf(),
            match r {
                Some(v) => old(self)@.contains_key(key@) && v.deep_view() == old(self)@[key@]
                    && final(self)@ == old(self)@.remove(key@),
                None => !old(self)@.contains_key(key@) && *final(self) == *old(self),
            },
    {
        let mut i: usize = 0;
        while i < self.entries.len()
            invariant
                *self == *old(self),
                self.wf(),
                i <= self.entries@.len(),
                forall|j: int| 0 <= j < i ==> self.entries@[j].key@ != key@,
            decreases self.entries@.len() - i,
        {
            if bytes_eq(&self.entries[i].key, key) {
                proof {
                    lemma_map_of_index(self.entries@, i as int);
                    lemma_map_of_remove(self.entries@, i as int);
                }
                let e = self.entries.remove(i);
                return Some(e.val);
            }
            i += 1;
        }
        proof {
            lemma_map_of_absent(self.entries@, key@);
        }
        None
    }

    /// Removes a binding, if the key holds one.
    pub fn remove_key(&mut self, key: &Vec<u8>)
        requires
            old(self).wf(),
        ensures
            final(self).wf(),
            final(self)@ == old(self)@.remove(key@),
    {
        let r = self.take(key);
        proof {
            if r is None {
                assert(old(self)@.remove(key@) =~= old(self)@);
            }
        }
    }
}

} // verus!
