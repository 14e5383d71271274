//! A small map keyed by strings, kept as a list in which no key stands
//! twice.

use vstd::prelude::*;

verus! {

/// One key of a [`StringMap`] with what it maps to.
pub struct Entry<V> {
    pub key: String,
    pub value: V,
}

/// Whether the entry at `i` has the key `k`.
pub open spec fn has_key<V>(s: Seq<Entry<V>>, k: Seq<char>, i: int) -> bool {
    0 <= i < s.len() && s[i].key@ == k
}

/// No key stands twice.
pub open spec fn distinct_keys<V>(s: Seq<Entry<V>>) -> bool {
    forall|i: int, j: int| 0 <= i < j < s.len() ==> s[i].key@ != s[j].key@
}

/// The map that a list of entries stands for.
pub open spec fn entries_map<V>(s: Seq<Entry<V>>) -> Map<Seq<char>, V> {
    Map::new(
        |k: Seq<char>| exists|i: int| has_key(s, k, i),
        |k: Seq<char>| s[choose|i: int| has_key(s, k, i)].value,
    )
}

/// In a list without repeated keys, each entry's key maps to its value.
pub proof fn lemma_entry_at<V>(s: Seq<Entry<V>>, i: int)
    requires
        distinct_keys(s),
        0 <= i < s.len(),
    ensures
        entries_map(s).contains_key(s[i].key@),
        entries_map(s)[s[i].key@] == s[i].value,
{
    let k = s[i].key@;
    assert(has_key(s, k, i));
    let j = choose|j: int| has_key(s, k, j);
    assert(has_key(s, k, j));
    assert(j == i);
}

/// Taking an entry out of the list takes its key out of the map.
pub proof fn lemma_remove<V>(s: Seq<Entry<V>>, i: int)
    requires
        distinct_keys(s),
        0 <= i < s.len(),
    ensures
        distinct_keys(s.remove(i)),
        entries_map(s.remove(i)) == entries_map(s).remove(s[i].key@),
{
    let t = s.remove(i);
    let k = s[i].key@;
    assert forall|a: int, b: int| 0 <= a < b < t.len() implies t[a].key@ != t[b].key@ by {
        let a2 = if a < i { a } else { a + 1 };
        let b2 = if b < i { b } else { b + 1 };
        assert(t[a] == s[a2] && t[b] == s[b2]);
    }
    let m = entries_map(s).remove(k);
    assert forall|q: Seq<char>| #[trigger]
        entries_map(t).dom().contains(q) implies m.dom().contains(q) && m[q] == entries_map(
        t,
    )[q] by {
        let a = choose|a: int| has_key(t, q, a);
        let a2 = if a < i { a } else { a + 1 };
        assert(t[a] == s[a2]);
        lemma_entry_at(s, a2);
        lemma_entry_at(t, a);
    }
    assert forall|q: Seq<char>| #[trigger]
        m.dom().contains(q) implies entries_map(t).dom().contains(q) by {
        let a = choose|a: int| has_key(s, q, a);
        assert(a != i);
        let a2 = if a < i { a } else { a - 1 };
        assert(t[a2] == s[a]);
        assert(has_key(t, q, a2));
    }
    assert(entries_map(t) =~= m);
}

/// Adding an entry under a key that the list lacks adds it to the map.
pub proof fn lemma_push<V>(s: Seq<Entry<V>>, e: Entry<V>)
    requires
        distinct_keys(s),
        !entries_map(s).contains_key(e.key@),
    ensures
        distinct_keys(s.push(e)),
        entries_map(s.push(e)) == entries_map(s).insert(e.key@, e.value),
{
    let t = s.push(e);
    assert forall|a: int, b: int| 0 <= a < b < t.len() implies t[a].key@ != t[b].key@ by {
        if b == s.len() {
            assert(has_key(s, s[a].key@, a));
        }
    }
    let m = entries_map(s).insert(e.key@, e.value);
    assert forall|q: Seq<char>| #[trigger]
        entries_map(t).dom().contains(q) implies m.dom().contains(q) && m[q] == entries_map(
        t,
    )[q] by {
        let a = choose|a: int| has_key(t, q, a);
        lemma_entry_at(t, a);
        if a < s.len() {
            assert(t[a] == s[a]);
            lemma_entry_at(s, a);
        }
    }
    assert forall|q: Seq<char>| #[trigger]
        m.dom().contains(q) implies entries_map(t).dom().contains(q) by {
        if q == e.key@ {
            assert(has_key(t, q, s.len() as int));
        } else {
            let a = choose|a: int| has_key(s, q, a);
            assert(t[a] == s[a]);
            assert(has_key(t, q, a));
        }
    }
    assert(entries_map(t) =~= m);
}

/// A map from strings to values of `V`.
pub struct StringMap<V> {
    entries: Vec<Entry<V>>,
}

impl<V> View for StringMap<V> {
    type V = Map<Seq<char>, V>;

    closed spec fn view(&self) -> Map<Seq<char>, V> {
        entries_map(self.entries@)
    }
}

impl<V> StringMap<V> {
    /// The invariant: no key stands twice in the list.
    pub closed spec fn wf(&self) -> bool {
        distinct_keys(self.entries@)
    }

    /// A map without keys.
    pub fn new() -> (r: Self)
        ensures
            r.wf(),
            r@ == Map::<Seq<char>, V>::empty(),
    {
        let r = StringMap { entries: Vec::new() };
        assert(r@ =~= Map::<Seq<char>, V>::empty());
        r
    }

    fn find(&self, key: &String) -> (r: Option<usize>)
        ensures
            match r {
                Some(i) => has_key(self.entries@, key@, i as int),
                None => !self@.contains_key(key@),
            },
    {
        let mut i: usize = 0;
        while i < self.entries.len()
            invariant
                i <= self.entries@.len(),
                forall|j: int| 0 <= j < i ==> !has_key(self.entries@, key@, j),
            decreases self.entries@.len() - i,
        {
            if self.entries[i].key == *key {
                return Some(i);
            }
            i += 1;
        }
        None
    }

    /// Whether `key` is mapped.
    pub fn contains_key(&self, key: &String) -> (r: bool)
        ensures
            r == self@.contains_key(key@),
    {
        match self.find(key) {
            Some(i) => {
                assert(has_key(self.entries@, key@, i as int));
                true
            },
            None => false,
        }
    }

    /// What `key` maps to, if it is mapped.
    pub fn get(&self, key: &String) -> (r: Option<&V>)
        requires
            self.wf(),
        ensures
            match r {
                Some(v) => self@.contains_key(key@) && *v == self@[key@],
                None => !self@.contains_key(key@),
            },
    {
        match self.find(key) {
            Some(i) => {
                proof {
                    lemma_entry_at(self.entries@, i as int);
                }
                Some(&self.entries[i].value)
            },
            None => None,
        }
    }

    /// Takes `key` out, and says whether it was mapped.
    pub fn remove(&mut self, key: &String) -> (r: bool)
        requires
            old(self).wf(),
        ensures
            final(self).wf(),
            final(self)@ == old(self)@.remove(key@),
            r == old(self)@.contains_key(key@),
    {
        match self.find(key) {
            Some(i) => {
                proof {
                    lemma_remove(self.entries@, i as int);
                    assert(has_key(self.entries@, key@, i as int));
                }
                self.entries.remove(i);
                true
            },
            None => {
                assert(self@ =~= self@.remove(key@));
                false
            },
        }
    }

    /// Maps `key` to `value`, in place of what it mapped to before.
    pub fn insert(&mut self, key: String, value: V)
        requires
            old(self).wf(),
        ensures
            final(self).wf(),
            final(self)@ == old(self)@.insert(key@, value),
    {
        self.remove(&key);
        let entry = Entry { key, value };
        proof {
            lemma_push(self.entries@, entry);
            assert(old(self)@.remove(key@).insert(key@, value) =~= old(self)@.insert(key@, value));
        }
        self.entries.push(entry);
    }
}

} // verus!
