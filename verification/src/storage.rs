//! A keyed store that holds at most one value for each key.
use crate::identity::Identifier;
use vstd::prelude::*;

verus! {

/// One key with the value stored for it.
#[derive(Debug)]
struct Entry<K, V> {
    key: K,
    value: V,
}

/// A store from keys to values.  Its view is the map from each key's name to
/// the value stored for it; no name occurs twice.
#[derive(Debug)]
pub struct StorageMap<K: Identifier, V> {
    entries: Vec<Entry<K, V>>,
}

spec fn keys_distinct<K: Identifier, V>(s: Seq<Entry<K, V>>) -> bool {
    forall|i: int, j: int| 0 <= i < j < s.len() ==> s[i].key@ != s[j].key@
}

spec fn has_key<K: Identifier, V>(s: Seq<Entry<K, V>>, k: K::V) -> bool {
    exists|i: int| 0 <= i < s.len() && (#[trigger] s[i]).key@ == k
}

spec fn index_of<K: Identifier, V>(s: Seq<Entry<K, V>>, k: K::V) -> int {
    choose|i: int| 0 <= i < s.len() && (#[trigger] s[i]).key@ == k
}

spec fn as_map<K: Identifier, V>(s: Seq<Entry<K, V>>) -> Map<K::V, V> {
    Map::new(|k: K::V| has_key(s, k), |k: K::V| s[index_of(s, k)].value)
}

proof fn lemma_lookup<K: Identifier, V>(s: Seq<Entry<K, V>>, i: int)
    requires
        keys_distinct(s),
        0 <= i < s.len(),
    ensures
        as_map(s).contains_key(s[i].key@),
        as_map(s)[s[i].key@] == s[i].value,
{
    let k = s[i].key@;
    assert(has_key(s, k));
    let j = index_of(s, k);
    assert(0 <= j < s.len() && s[j].key@ == k);
    assert(j == i);
}

proof fn lemma_push<K: Identifier, V>(s: Seq<Entry<K, V>>, e: Entry<K, V>)
    requires
        keys_distinct(s),
        !has_key(s, e.key@),
    ensures
        keys_distinct(s.push(e)),
        as_map(s.push(e)) == as_map(s).insert(e.key@, e.value),
{
    let t = s.push(e);
    assert forall|i: int, j: int| 0 <= i < j < t.len() implies t[i].key@ != t[j].key@ by {
        if j == s.len() {
            assert(s[i].key@ != e.key@);
        }
    }
    assert forall|k: K::V| #[trigger] as_map(t).contains_key(k) <==> as_map(s).insert(e.key@, e.value).contains_key(k) by {
        if has_key(t, k) {
            let i = index_of(t, k);
            if i < s.len() {
                assert(s[i].key@ == k);
            }
        }
        if has_key(s, k) {
            let i = index_of(s, k);
            assert(t[i].key@ == k);
        }
        if k == e.key@ {
            assert(t[s.len() as int].key@ == k);
        }
    }
    assert forall|k: K::V| #[trigger] as_map(t).contains_key(k) implies as_map(t)[k] == as_map(s).insert(e.key@, e.value)[k] by {
        let i = index_of(t, k);
        lemma_lookup(t, i);
        if i < s.len() {
            assert(s[i] == t[i]);
            lemma_lookup(s, i);
        }
    }
    assert(as_map(t) =~= as_map(s).insert(e.key@, e.value));
}

proof fn lemma_update<K: Identifier, V>(s: Seq<Entry<K, V>>, i: int, e: Entry<K, V>)
    requires
        keys_distinct(s),
        0 <= i < s.len(),
        e.key@ == s[i].key@,
    ensures
        keys_distinct(s.update(i, e)),
        as_map(s.update(i, e)) == as_map(s).insert(e.key@, e.value),
{
    let t = s.update(i, e);
    assert forall|a: int, b: int| 0 <= a < b < t.len() implies t[a].key@ != t[b].key@ by {
        assert(t[a].key@ == s[a].key@);
        assert(t[b].key@ == s[b].key@);
    }
    assert forall|k: K::V| #[trigger] as_map(t).contains_key(k) <==> as_map(s).insert(e.key@, e.value).contains_key(k) by {
        if has_key(t, k) {
            let j = index_of(t, k);
            assert(s[j].key@ == k);
        }
        if has_key(s, k) {
            let j = index_of(s, k);
            assert(t[j].key@ == k);
        }
        if k == e.key@ {
            assert(t[i].key@ == k);
        }
    }
    assert forall|k: K::V| #[trigger] as_map(t).contains_key(k) implies as_map(t)[k] == as_map(s).insert(e.key@, e.value)[k] by {
        let j = index_of(t, k);
        lemma_lookup(t, j);
        if j != i {
            assert(s[j] == t[j]);
            lemma_lookup(s, j);
        }
    }
    assert(as_map(t) =~= as_map(s).insert(e.key@, e.value));
}

proof fn lemma_remove<K: Identifier, V>(s: Seq<Entry<K, V>>, i: int)
    requires
        keys_distinct(s),
        0 <= i < s.len(),
    ensures
        keys_distinct(s.remove(i)),
        as_map(s.remove(i)) == as_map(s).remove(s[i].key@),
{
    let t = s.remove(i);
    let gone = s[i].key@;
    assert forall|a: int| 0 <= a < t.len() implies #[trigger] t[a] == s[if a < i { a } else { a + 1 }] by {}
    assert forall|a: int, b: int| 0 <= a < b < t.len() implies t[a].key@ != t[b].key@ by {
        let a2 = if a < i { a } else { a + 1 };
        let b2 = if b < i { b } else { b + 1 };
        assert(t[a] == s[a2]);
        assert(t[b] == s[b2]);
    }
    assert forall|k: K::V| #[trigger] as_map(t).contains_key(k) <==> as_map(s).remove(gone).contains_key(k) by {
        if has_key(t, k) {
            let j = index_of(t, k);
            let j2 = if j < i { j } else { j + 1 };
            assert(t[j] == s[j2]);
            assert(s[j2].key@ == k);
            assert(k != gone);
        }
        if has_key(s, k) && k != gone {
            let j = index_of(s, k);
            let j2 = if j < i { j } else { j - 1 };
            assert(t[j2] == s[j]);
            assert(t[j2].key@ == k);
        }
    }
    assert forall|k: K::V| #[trigger] as_map(t).contains_key(k) implies as_map(t)[k] == as_map(s).remove(gone)[k] by {
        let j = index_of(t, k);
        let j2 = if j < i { j } else { j + 1 };
        lemma_lookup(t, j);
        assert(t[j] == s[j2]);
        lemma_lookup(s, j2);
    }
    assert(as_map(t) =~= as_map(s).remove(gone));
}

proof fn lemma_finite<K: Identifier, V>(s: Seq<Entry<K, V>>)
    ensures
        as_map(s).dom().finite(),
    decreases s.len(),
{
    if s.len() == 0 {
        assert(as_map(s).dom() =~= Set::<K::V>::empty());
    } else {
        let t = s.drop_last();
        lemma_finite(t);
        let k = s.last().key@;
        assert forall|x: K::V| #[trigger] as_map(s).dom().contains(x) <==> as_map(t).dom().insert(k).contains(x) by {
            if has_key(s, x) {
                let i = index_of(s, x);
                if i < t.len() {
                    assert(t[i].key@ == x);
                }
            }
            if has_key(t, x) {
                let i = index_of(t, x);
                assert(s[i].key@ == x);
            }
            if x == k {
                assert(s[s.len() - 1].key@ == x);
            }
        }
        assert(as_map(s).dom() =~= as_map(t).dom().insert(k));
    }
}

/// The position of the entry whose key is named like `key`, if there is one.
fn position<K: Identifier, V>(entries: &Vec<Entry<K, V>>, key: &K) -> (r: Option<usize>)
    ensures
        match r {
            Some(i) => i < entries@.len() && entries@[i as int].key@ == key@,
            None => !has_key(entries@, key@),
        },
{
    let mut i: usize = 0;
    while i < entries.len()
        invariant
            i <= entries@.len(),
            forall|j: int| 0 <= j < i ==> (#[trigger] entries@[j]).key@ != key@,
        decreases entries@.len() - i,
    {
        if entries[i].key.same(key) {
            return Some(i);
        }
        i += 1;
    }
    None
}

impl<K: Identifier, V> View for StorageMap<K, V> {
    type V = Map<K::V, V>;

    closed spec fn view(&self) -> Map<K::V, V> {
        as_map(self.entries@)
    }
}

impl<K: Identifier, V> StorageMap<K, V> {
    #[verifier::type_invariant]
    spec fn well_formed(self) -> bool {
        keys_distinct(self.entries@)
    }

    /// A store holds finitely many keys.
    pub proof fn lemma_finite_domain(self)
        ensures
            self@.dom().finite(),
    {
        lemma_finite(self.entries@);
    }

    /// An empty store.
    pub fn new() -> (r: Self)
        ensures
            r@ == Map::<K::V, V>::empty(),
    {
        let r = StorageMap { entries: Vec::new() };
        assert(r@ =~= Map::<K::V, V>::empty());
        r
    }

    /// Whether a value is stored for `key`.
    pub fn contains_key(&self, key: &K) -> (r: bool)
        ensures
            r == self@.contains_key(key@),
    {
        proof {
            use_type_invariant(self);
        }
        match position(&self.entries, key) {
            Some(i) => {
                proof {
                    lemma_lookup(self.entries@, i as int);
                }
                true
            },
            None => false,
        }
    }

    /// The value stored for `key`, if there is one.
    pub fn get(&self, key: &K) -> (r: Option<&V>)
        ensures
            match r {
                Some(v) => self@.contains_key(key@) && *v == self@[key@],
                None => !self@.contains_key(key@),
            },
    {
        proof {
            use_type_invariant(self);
        }
        match position(&self.entries, key) {
            Some(i) => {
                proof {
                    lemma_lookup(self.entries@, i as int);
                }
                Some(&self.entries[i].value)
            },
            None => None,
        }
    }

    /// Stores `value` for `key`, in place of any value stored for it before.
    pub fn insert(&mut self, key: K, value: V)
        ensures
            final(self)@ == old(self)@.insert(key@, value),
    {
        proof {
            use_type_invariant(&*self);
        }
        let mut entries: Vec<Entry<K, V>> = Vec::new();
        std::mem::swap(&mut entries, &mut self.entries);
        let entry = Entry { key, value };
        match position(&entries, &entry.key) {
            Some(i) => {
                proof {
                    lemma_update(entries@, i as int, entry);
                }
                entries.set(i, entry);
            },
            None => {
                proof {
                    lemma_push(entries@, entry);
                }
                entries.push(entry);
            },
        }
        self.entries = entries;
    }

    /// Removes the value stored for `key` and returns it, if there is one.
    pub fn remove(&mut self, key: &K) -> (r: Option<V>)
        ensures
            final(self)@ == old(self)@.remove(key@),
            match r {
                Some(v) => old(self)@.contains_key(key@) && v == old(self)@[key@],
                None => !old(self)@.contains_key(key@),
            },
    {
        proof {
            use_type_invariant(&*self);
        }
        let mut entries: Vec<Entry<K, V>> = Vec::new();
        std::mem::swap(&mut entries, &mut self.entries);
        let found = position(&entries, key);
        let r = match found {
            Some(i) => {
                proof {
                    lemma_lookup(entries@, i as int);
                    lemma_remove(entries@, i as int);
                }
                let entry = entries.remove(i);
                Some(entry.value)
            },
            None => {
                assert(old(self)@.remove(key@) =~= old(self)@);
                None
            },
        };
        self.entries = entries;
        r
    }
}

} // verus!
