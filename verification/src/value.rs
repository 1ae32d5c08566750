//! The document model: an ordered key-value document whose values are
//! strings, arrays of strings, or a nested mapping from names to arrays
//! of strings. Keys are unique; order is kept only to make output
//! deterministic.

use vstd::prelude::*;

use crate::bytes::bytes_eq;

verus! {

/// One entry of a nested mapping: a name and an array of strings.
#[derive(Debug, Clone, PartialEq, Eq)]
pub struct MapEntry {
    pub key: Vec<u8>,
    pub items: Vec<Vec<u8>>,
}

/// A metadata value: a string, an array of strings, or a nested mapping
/// from names to arrays of strings.
#[derive(Debug, Clone, PartialEq, Eq)]
pub enum Value {
    Str(Vec<u8>),
    Arr(Vec<Vec<u8>>),
    Table(Vec<MapEntry>),
}

/// One top-level entry: a field name and its value.
#[derive(Debug, Clone, PartialEq, Eq)]
pub struct Entry {
    pub key: Vec<u8>,
    pub value: Value,
}

/// An ordered key-value document.
#[derive(Debug, Clone, PartialEq, Eq)]
pub struct Doc {
    pub entries: Vec<Entry>,
}

/// The mathematical form of a value.
#[verifier::ext_equal]
pub enum ValueV {
    Str(Seq<u8>),
    Arr(Seq<Seq<u8>>),
    Table(Seq<(Seq<u8>, Seq<Seq<u8>>)>),
}

/// The mathematical form of a document: its entries in order.
pub type DocV = Seq<(Seq<u8>, ValueV)>;

impl View for MapEntry {
    type V = (Seq<u8>, Seq<Seq<u8>>);

    open spec fn view(&self) -> (Seq<u8>, Seq<Seq<u8>>) {
        (self.key@, self.items@.map_values(|v: Vec<u8>| v@))
    }
}

impl View for Value {
    type V = ValueV;

    open spec fn view(&self) -> ValueV {
        match self {
            Value::Str(s) => ValueV::Str(s@),
            Value::Arr(a) => ValueV::Arr(a@.map_values(|v: Vec<u8>| v@)),
            Value::Table(m) => ValueV::Table(m@.map_values(|e: MapEntry| e@)),
        }
    }
}

impl View for Entry {
    type V = (Seq<u8>, ValueV);

    open spec fn view(&self) -> (Seq<u8>, ValueV) {
        (self.key@, self.value@)
    }
}

impl View for Doc {
    type V = DocV;

    open spec fn view(&self) -> DocV {
        self.entries@.map_values(|e: Entry| e@)
    }
}

/// Index of the first entry at or after `i` whose key is `k`.
pub open spec fn find_from(d: DocV, k: Seq<u8>, i: int) -> Option<int>
    decreases d.len() - i,
{
    if i < 0 || i >= d.len() {
        None
    } else if d[i].0 == k {
        Some(i)
    } else {
        find_from(d, k, i + 1)
    }
}

/// Index of the first entry whose key is `k`.
pub open spec fn key_index(d: DocV, k: Seq<u8>) -> Option<int> {
    find_from(d, k, 0)
}

/// Whether some entry has key `k`.
pub open spec fn has_key(d: DocV, k: Seq<u8>) -> bool {
    exists|i: int| 0 <= i < d.len() && d[i].0 == k
}

/// The value of the first entry whose key is `k`.
pub open spec fn value_of(d: DocV, k: Seq<u8>) -> ValueV
    recommends
        has_key(d, k),
{
    match key_index(d, k) {
        Some(i) => d[i].1,
        None => arbitrary(),
    }
}

/// The document with the first entry keyed `k` taken out; unchanged when
/// no entry has that key.
pub open spec fn remove_key(d: DocV, k: Seq<u8>) -> DocV {
    match key_index(d, k) {
        Some(i) => d.subrange(0, i) + d.subrange(i + 1, d.len() as int),
        None => d,
    }
}

/// The document with the value of the first entry keyed `k` replaced by
/// `v`, in place; unchanged when no entry has that key.
pub open spec fn set_key(d: DocV, k: Seq<u8>, v: ValueV) -> DocV {
    match key_index(d, k) {
        Some(i) => d.update(i, (k, v)),
        None => d,
    }
}

/// Keys are pairwise distinct.
pub open spec fn wf_doc(d: DocV) -> bool {
    forall|i: int, j: int| 0 <= i < j < d.len() ==> d[i].0 != d[j].0
}

/// What `find_from` returns: the first matching index, or none at all.
pub proof fn lemma_find_from(d: DocV, k: Seq<u8>, i: int)
    requires
        0 <= i <= d.len(),
    ensures
        match find_from(d, k, i) {
            Some(j) => i <= j < d.len() && d[j].0 == k && (forall|l: int|
                i <= l < j ==> d[l].0 != k),
            None => forall|l: int| i <= l < d.len() ==> d[l].0 != k,
        },
    decreases d.len() - i,
{
    if i < d.len() && d[i].0 != k {
        lemma_find_from(d, k, i + 1);
    }
}

/// `has_key` holds exactly when `key_index` finds an entry, and the
/// found entry carries the key.
pub proof fn lemma_key_index(d: DocV, k: Seq<u8>)
    ensures
        has_key(d, k) <==> key_index(d, k) is Some,
        key_index(d, k) matches Some(i) ==> 0 <= i < d.len() && d[i].0 == k && value_of(d, k)
            == d[i].1,
{
    lemma_find_from(d, k, 0);
}

/// In a well-formed document an entry with key `k` at index `i` is the
/// entry that `key_index` finds.
pub proof fn lemma_value_at(d: DocV, k: Seq<u8>, i: int)
    requires
        wf_doc(d),
        0 <= i < d.len(),
        d[i].0 == k,
    ensures
        key_index(d, k) == Some(i),
        has_key(d, k),
        value_of(d, k) == d[i].1,
{
    lemma_find_from(d, k, 0);
}

/// Removing a key keeps the document well formed, takes that key out,
/// and leaves every other key and its value alone.
pub proof fn lemma_remove_key(d: DocV, k: Seq<u8>)
    requires
        wf_doc(d),
    ensures
        wf_doc(remove_key(d, k)),
        !has_key(remove_key(d, k), k),
        forall|k2: Seq<u8>| k2 != k ==> has_key(remove_key(d, k), k2) == has_key(d, k2),
        forall|k2: Seq<u8>|
            k2 != k && has_key(d, k2) ==> value_of(remove_key(d, k), k2) == value_of(d, k2),
        has_key(d, k) ==> remove_key(d, k).len() == d.len() - 1,
        !has_key(d, k) ==> remove_key(d, k) == d,
{
    lemma_find_from(d, k, 0);
    match key_index(d, k) {
        Some(i) => {
            let r = remove_key(d, k);
            assert(forall|l: int| 0 <= l < i ==> r[l] == d[l]);
            assert(forall|l: int| i <= l < r.len() ==> r[l] == d[l + 1]);
            assert(!has_key(r, k)) by {
                assert forall|l: int| 0 <= l < r.len() implies r[l].0 != k by {
                    if l < i {
                    } else {
                        assert(r[l] == d[l + 1]);
                    }
                }
            }
            assert forall|k2: Seq<u8>| k2 != k && has_key(d, k2) implies has_key(r, k2)
                && value_of(r, k2) == value_of(d, k2) by {
                lemma_find_from(d, k2, 0);
                let j = key_index(d, k2)->Some_0;
                if j < i {
                    assert(r[j] == d[j]);
                    lemma_value_at(r, k2, j);
                } else {
                    assert(j != i);
                    assert(r[j - 1] == d[j]);
                    lemma_value_at(r, k2, j - 1);
                }
                lemma_value_at(d, k2, j);
            }
            assert forall|k2: Seq<u8>| k2 != k && has_key(r, k2) implies has_key(d, k2) by {
                let l = choose|l: int| 0 <= l < r.len() && r[l].0 == k2;
                if l < i {
                    assert(d[l].0 == k2);
                } else {
                    assert(r[l] == d[l + 1]);
                    assert(d[l + 1].0 == k2);
                }
            }
        },
        None => {},
    }
}

/// Appending a fresh key keeps the document well formed, adds exactly
/// that binding, and leaves every other key and its value alone.
pub proof fn lemma_push_key(d: DocV, k: Seq<u8>, v: ValueV)
    requires
        wf_doc(d),
        !has_key(d, k),
    ensures
        wf_doc(d.push((k, v))),
        has_key(d.push((k, v)), k),
        value_of(d.push((k, v)), k) == v,
        forall|k2: Seq<u8>| k2 != k ==> has_key(d.push((k, v)), k2) == has_key(d, k2),
        forall|k2: Seq<u8>|
            k2 != k && has_key(d, k2) ==> value_of(d.push((k, v)), k2) == value_of(d, k2),
{
    let r = d.push((k, v));
    assert(forall|l: int| 0 <= l < d.len() ==> r[l] == d[l]);
    assert(r[d.len() as int] == (k, v));
    assert(forall|i: int| 0 <= i < d.len() ==> d[i].0 != k);
    lemma_value_at(r, k, d.len() as int);
    assert forall|k2: Seq<u8>| k2 != k && has_key(d, k2) implies has_key(r, k2) && value_of(
        r,
        k2,
    ) == value_of(d, k2) by {
        lemma_key_index(d, k2);
        let j = key_index(d, k2)->Some_0;
        lemma_value_at(d, k2, j);
        lemma_value_at(r, k2, j);
    }
    assert forall|k2: Seq<u8>| k2 != k && has_key(r, k2) implies has_key(d, k2) by {
        let l = choose|l: int| 0 <= l < r.len() && r[l].0 == k2;
        assert(l < d.len());
    }
}

/// Replacing the value under a present key keeps the document well
/// formed, rebinds exactly that key, and leaves the rest alone.
pub proof fn lemma_set_key(d: DocV, k: Seq<u8>, v: ValueV)
    requires
        wf_doc(d),
        has_key(d, k),
    ensures
        wf_doc(set_key(d, k, v)),
        has_key(set_key(d, k, v), k),
        value_of(set_key(d, k, v), k) == v,
        set_key(d, k, v).len() == d.len(),
        forall|k2: Seq<u8>| k2 != k ==> has_key(set_key(d, k, v), k2) == has_key(d, k2),
        forall|k2: Seq<u8>|
            k2 != k && has_key(d, k2) ==> value_of(set_key(d, k, v), k2) == value_of(d, k2),
{
    lemma_key_index(d, k);
    let i = key_index(d, k)->Some_0;
    let r = set_key(d, k, v);
    assert(forall|l: int| 0 <= l < d.len() && l != i ==> r[l] == d[l]);
    assert(r[i] == (k, v));
    assert(forall|l1: int, l2: int| 0 <= l1 < l2 < r.len() ==> r[l1].0 == d[l1].0 && r[l2].0
        == d[l2].0);
    lemma_value_at(r, k, i);
    assert forall|k2: Seq<u8>| k2 != k && has_key(d, k2) implies has_key(r, k2) && value_of(
        r,
        k2,
    ) == value_of(d, k2) by {
        lemma_key_index(d, k2);
        let j = key_index(d, k2)->Some_0;
        lemma_value_at(d, k2, j);
        assert(j != i);
        lemma_value_at(r, k2, j);
    }
    assert forall|k2: Seq<u8>| k2 != k && has_key(r, k2) implies has_key(d, k2) by {
        let l = choose|l: int| 0 <= l < r.len() && r[l].0 == k2;
        assert(l != i);
        assert(d[l].0 == k2);
    }
}

impl Doc {
    /// Keys are pairwise distinct.
    pub open spec fn wf(&self) -> bool {
        wf_doc(self@)
    }

    /// The empty document.
    pub fn new() -> (d: Doc)
        ensures
            d@ == Seq::<(Seq<u8>, ValueV)>::empty(),
            d.wf(),
    {
        let d = Doc { entries: Vec::new() };
        proof {
            assert(d@ =~= Seq::<(Seq<u8>, ValueV)>::empty());
        }
        d
    }

    /// Number of entries.
    pub fn len(&self) -> (n: usize)
        ensures
            n == self@.len(),
    {
        self.entries.len()
    }

    /// Index of the first entry whose key is `k`, if any.
    pub fn find(&self, k: &[u8]) -> (r: Option<usize>)
        ensures
            match r {
                Some(i) => key_index(self@, k@) == Some(i as int),
                None => key_index(self@, k@) is None,
            },
    {
        let n = self.entries.len();
        let mut i: usize = 0;
        while i < n
            invariant
                0 <= i <= n,
                n == self@.len(),
                n == self.entries@.len(),
                find_from(self@, k@, 0) == find_from(self@, k@, i as int),
            decreases n - i,
        {
            if bytes_eq(self.entries[i].key.as_slice(), k) {
                proof {
                    assert(self@[i as int].0 == k@);
                }
                return Some(i);
            }
            proof {
                assert(self@[i as int].0 != k@);
            }
            i += 1;
        }
        None
    }

    /// The value under key `k`, if any.
    pub fn get(&self, k: &[u8]) -> (r: Option<&Value>)
        ensures
            match r {
                Some(v) => has_key(self@, k@) && v@ == value_of(self@, k@),
                None => !has_key(self@, k@),
            },
    {
        proof {
            lemma_key_index(self@, k@);
        }
        match self.find(k) {
            Some(i) => Some(&self.entries[i].value),
            None => None,
        }
    }

    /// Removes the entry keyed `k`, returning its value, if any.
    pub fn remove(&mut self, k: &[u8]) -> (r: Option<Value>)
        ensures
            final(self)@ == remove_key(old(self)@, k@),
            match r {
                Some(v) => has_key(old(self)@, k@) && v@ == value_of(old(self)@, k@),
                None => !has_key(old(self)@, k@),
            },
    {
        proof {
            lemma_key_index(old(self)@, k@);
        }
        match self.find(k) {
            Some(i) => {
                let e = self.entries.remove(i);
                proof {
                    assert(self@ =~= remove_key(old(self)@, k@));
                }
                Some(e.value)
            },
            None => None,
        }
    }

    /// Appends an entry whose key is not yet bound.
    pub fn push_kv(&mut self, k: Vec<u8>, v: Value)
        requires
            !has_key(old(self)@, k@),
        ensures
            final(self)@ == old(self)@.push((k@, v@)),
    {
        self.entries.push(Entry { key: k, value: v });
        proof {
            assert(self@ =~= old(self)@.push((k@, v@)));
        }
    }

    /// Replaces, in place, the value of the entry keyed `k`.
    pub fn set_value(&mut self, k: &[u8], v: Value)
        requires
            has_key(old(self)@, k@),
        ensures
            final(self)@ == set_key(old(self)@, k@, v@),
    {
        proof {
            lemma_key_index(old(self)@, k@);
        }
        let i = match self.find(k) {
            Some(i) => i,
            None => {
                proof {
                    assert(false);
                }
                0
            },
        };
        let e = self.entries.remove(i);
        self.entries.insert(i, Entry { key: e.key, value: v });
        proof {
            assert(self@ =~= set_key(old(self)@, k@, v@));
        }
    }
}

} // verus!
