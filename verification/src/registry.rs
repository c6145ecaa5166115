//! A string-keyed registry: the library's model of one namespace of the
//! persistent key-value store. Each registry owns its namespace exclusively,
//! so a handler never coordinates with another registry's entries.

use vstd::prelude::*;

verus! {

/// Finite map denoted by an association list, keyed by the string views.
pub open spec fn entry_map<V>(s: Seq<(String, V)>) -> Map<Seq<char>, V>
    decreases s.len(),
{
    if s.len() == 0 {
        Map::empty()
    } else {
        entry_map(s.drop_last()).insert(s.last().0@, s.last().1)
    }
}

/// No two entries share a key.
pub open spec fn distinct_keys<V>(s: Seq<(String, V)>) -> bool {
    forall|i: int, j: int| 0 <= i < j < s.len() ==> s[i].0@ != s[j].0@
}

/// The two maps agree everywhere but possibly at the given key: the frame of
/// a write to one entry.
pub open spec fn same_but<V>(pre: Map<Seq<char>, V>, post: Map<Seq<char>, V>, key: Seq<char>) -> bool {
    &&& forall|k: Seq<char>|
        k != key ==> (#[trigger] post.contains_key(k) <==> pre.contains_key(k))
    &&& forall|k: Seq<char>| k != key && pre.contains_key(k) ==> #[trigger] post[k] == pre[k]
}

/// One namespace of the store: an insertion-ordered list of key-value entries
/// with unique keys, viewed as the finite map it denotes.
pub struct Registry<V> {
    pub entries: Vec<(String, V)>,
}

impl<V> View for Registry<V> {
    type V = Map<Seq<char>, V>;

    open spec fn view(&self) -> Map<Seq<char>, V> {
        entry_map(self.entries@)
    }
}

pub proof fn lemma_entry_map_dom<V>(s: Seq<(String, V)>)
    ensures
        forall|k: Seq<char>|
            #[trigger] entry_map(s).contains_key(k) <==> exists|i: int|
                0 <= i < s.len() && s[i].0@ == k,
    decreases s.len(),
{
    if s.len() > 0 {
        lemma_entry_map_dom(s.drop_last());
        assert forall|k: Seq<char>| #[trigger] entry_map(s).contains_key(k) implies exists|i: int|
            0 <= i < s.len() && s[i].0@ == k by {
            if k == s.last().0@ {
                assert(s[s.len() - 1].0@ == k);
            } else {
                assert(entry_map(s.drop_last()).contains_key(k));
                let i = choose|i: int| 0 <= i < s.drop_last().len() && s.drop_last()[i].0@ == k;
                assert(s.drop_last()[i] == s[i]);
                assert(s[i].0@ == k);
            }
        }
        assert forall|k: Seq<char>| (exists|i: int| 0 <= i < s.len() && s[i].0@ == k)
            implies #[trigger] entry_map(s).contains_key(k) by {
            let i = choose|i: int| 0 <= i < s.len() && s[i].0@ == k;
            assert(entry_map(s) == entry_map(s.drop_last()).insert(s.last().0@, s.last().1));
            if i < s.len() - 1 {
                assert(s.drop_last()[i] == s[i]);
                assert(0 <= i < s.drop_last().len() && s.drop_last()[i].0@ == k);
                assert(entry_map(s.drop_last()).contains_key(k));
            } else {
                assert(s.last().0@ == k);
            }
        }
    }
}

pub proof fn lemma_distinct_drop_last<V>(s: Seq<(String, V)>)
    requires
        distinct_keys(s),
        s.len() > 0,
    ensures
        distinct_keys(s.drop_last()),
{
    assert forall|i: int, j: int| 0 <= i < j < s.drop_last().len()
        implies s.drop_last()[i].0@ != s.drop_last()[j].0@ by {
        assert(s.drop_last()[i] == s[i]);
        assert(s.drop_last()[j] == s[j]);
    }
}

pub proof fn lemma_entry_map_index<V>(s: Seq<(String, V)>, i: int)
    requires
        distinct_keys(s),
        0 <= i < s.len(),
    ensures
        entry_map(s).contains_key(s[i].0@),
        entry_map(s)[s[i].0@] == s[i].1,
    decreases s.len(),
{
    if i < s.len() - 1 {
        lemma_distinct_drop_last(s);
        assert(s.drop_last()[i] == s[i]);
        lemma_entry_map_index(s.drop_last(), i);
        assert(s.last().0@ != s[i].0@);
    }
}

pub proof fn lemma_entry_map_push<V>(s: Seq<(String, V)>, p: (String, V))
    ensures
        entry_map(s.push(p)) == entry_map(s).insert(p.0@, p.1),
{
    assert(s.push(p).drop_last() =~= s);
    assert(s.push(p).last() == p);
}

pub proof fn lemma_entry_map_remove<V>(s: Seq<(String, V)>, i: int)
    requires
        distinct_keys(s),
        0 <= i < s.len(),
    ensures
        distinct_keys(s.remove(i)),
        entry_map(s.remove(i)) == entry_map(s).remove(s[i].0@),
    decreases s.len(),
{
    assert forall|m: int, n: int| 0 <= m < n < s.remove(i).len()
        implies s.remove(i)[m].0@ != s.remove(i)[n].0@ by {
        let m0: int = if m < i { m } else { m + 1 };
        let n0: int = if n < i { n } else { n + 1 };
        assert(s.remove(i)[m] == s[m0]);
        assert(s.remove(i)[n] == s[n0]);
    }
    if i == s.len() - 1 {
        assert(s.remove(i) =~= s.drop_last());
        lemma_entry_map_dom(s.drop_last());
        assert(!entry_map(s.drop_last()).contains_key(s[i].0@)) by {
            if entry_map(s.drop_last()).contains_key(s[i].0@) {
                let j = choose|j: int|
                    0 <= j < s.drop_last().len() && s.drop_last()[j].0@ == s[i].0@;
                assert(s[j].0@ == s[i].0@);
            }
        }
        assert(entry_map(s.remove(i)) =~= entry_map(s).remove(s[i].0@));
    } else {
        lemma_distinct_drop_last(s);
        lemma_entry_map_remove(s.drop_last(), i);
        assert(s.remove(i).drop_last() =~= s.drop_last().remove(i));
        assert(s.remove(i).last() == s.last());
        assert(s.drop_last()[i] == s[i]);
        assert(s[i].0@ != s.last().0@);
        assert(entry_map(s.drop_last()).remove(s[i].0@).insert(s.last().0@, s.last().1)
            =~= entry_map(s.drop_last()).insert(s.last().0@, s.last().1).remove(s[i].0@));
    }
}

impl<V> Registry<V> {
    /// The registry's invariant: entry keys are unique.
    pub open spec fn wf(&self) -> bool {
        distinct_keys(self.entries@)
    }

    /// The entries in insertion order, for contracts that speak of ordering.
    pub open spec fn kv_seq(&self) -> Seq<(String, V)> {
        self.entries@
    }

    /// An empty namespace.
    pub fn new() -> (r: Self)
        ensures
            r.wf(),
            r@ == Map::<Seq<char>, V>::empty(),
            r.kv_seq() == Seq::<(String, V)>::empty(),
    {
        let r = Registry { entries: Vec::new() };
        proof {
            assert(r@ =~= Map::<Seq<char>, V>::empty());
            assert(r.kv_seq() =~= Seq::<(String, V)>::empty());
        }
        r
    }

    fn find_index(&self, key: &String) -> (r: Option<usize>)
        ensures
            match r {
                Some(i) => i < self.entries@.len() && self.entries@[i as int].0@ == key@,
                None => forall|j: int| 0 <= j < self.entries@.len() ==> self.entries@[j].0@ != key@,
            },
    {
        let n = self.entries.len();
        let mut i: usize = 0;
        while i < n
            invariant
                n == self.entries@.len(),
                i <= n,
                forall|j: int| 0 <= j < i ==> self.entries@[j].0@ != key@,
            decreases n - i,
        {
            if self.entries[i].0 == *key {
                return Some(i);
            }
            i += 1;
        }
        None
    }

    /// Whether the key is present.
    pub fn has(&self, key: &String) -> (b: bool)
        ensures
            b == self@.contains_key(key@),
    {
        proof {
            lemma_entry_map_dom(self.entries@);
        }
        match self.find_index(key) {
            Some(i) => {
                proof {
                    assert(self.entries@[i as int].0@ == key@);
                }
                true
            }
            None => false,
        }
    }

    /// Look a key up.
    pub fn get(&self, key: &String) -> (r: Option<&V>)
        requires
            self.wf(),
        ensures
            match r {
                Some(v) => self@.contains_key(key@) && *v == self@[key@],
                None => !self@.contains_key(key@),
            },
    {
        proof {
            lemma_entry_map_dom(self.entries@);
        }
        match self.find_index(key) {
            Some(i) => {
                proof {
                    lemma_entry_map_index(self.entries@, i as int);
                }
                Some(&self.entries[i].1)
            }
            None => None,
        }
    }

    /// Remove a key's entry and hand its value out, if one is present.
    pub fn take(&mut self, key: &String) -> (r: Option<V>)
        requires
            old(self).wf(),
        ensures
            final(self).wf(),
            final(self)@ == old(self)@.remove(key@),
            match r {
                Some(v) => old(self)@.contains_key(key@) && v == old(self)@[key@],
                None => !old(self)@.contains_key(key@) && *final(self) == *old(self),
            },
    {
        proof {
            lemma_entry_map_dom(self.entries@);
        }
        match self.find_index(key) {
            Some(i) => {
                proof {
                    lemma_entry_map_index(self.entries@, i as int);
                    lemma_entry_map_remove(self.entries@, i as int);
                }
                let (_k, v) = self.entries.remove(i);
                Some(v)
            }
            None => {
                proof {
                    assert(entry_map(self.entries@).remove(key@) =~= entry_map(self.entries@));
                }
                None
            }
        }
    }

    /// Write a key's value, replacing any entry the key had.
    pub fn set(&mut self, key: String, value: V)
        requires
            old(self).wf(),
        ensures
            final(self).wf(),
            final(self)@ == old(self)@.insert(key@, value),
            !old(self)@.contains_key(key@) ==> final(self).kv_seq() == old(self).kv_seq().push(
                (key, value),
            ),
    {
        let _prev = self.take(&key);
        let ghost s0 = self.entries@;
        self.entries.push((key, value));
        proof {
            lemma_entry_map_push(s0, (key, value));
            lemma_entry_map_dom(s0);
            assert(!entry_map(s0).contains_key(key@));
            assert forall|m: int, n: int| 0 <= m < n < self.entries@.len()
                implies self.entries@[m].0@ != self.entries@[n].0@ by {
                if n == self.entries@.len() - 1 {
                    assert(self.entries@[m] == s0[m]);
                    assert(0 <= m < s0.len() && s0[m].0@ == s0[m].0@);
                } else {
                    assert(self.entries@[m] == s0[m]);
                    assert(self.entries@[n] == s0[n]);
                }
            }
            assert(entry_map(self.entries@) =~= old(self)@.insert(key@, value));
        }
    }
}

} // verus!
