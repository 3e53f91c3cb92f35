//! A small map keyed by `String`, kept as a vector of distinct keys.
//!
//! The abstract view is a `Map<Seq<char>, V>`; the vector order is an
//! implementation detail that no contract exposes, except through
//! `key_at`/`value_at`, which let callers walk every entry.

use vstd::prelude::*;
use vstd::string::StringSliceAdditionalSpecFns;

verus! {

pub struct StrEntry<V> {
    pub key: String,
    pub value: V,
}

pub struct StrMap<V> {
    entries: Vec<StrEntry<V>>,
}

/// The texts of a sequence of strings.
pub open spec fn key_views(ks: Seq<String>) -> Seq<Seq<char>> {
    ks.map_values(|s: String| s@)
}

/// Whether the text of `key` starts with the text of `prefix`.
pub open spec fn has_prefix(key: Seq<char>, prefix: Seq<char>) -> bool {
    vstd::utf8::encode_utf8(prefix).len() <= vstd::utf8::encode_utf8(key).len() && vstd::utf8::encode_utf8(key).take(vstd::utf8::encode_utf8(prefix).len() as int)
        == vstd::utf8::encode_utf8(prefix)
}

pub fn starts_with(key: &str, prefix: &str) -> (r: bool)
    ensures
        r == has_prefix(key@, prefix@),
{
    let k = key.as_bytes();
    let p = prefix.as_bytes();
    if p.len() > k.len() {
        return false;
    }
    let mut i: usize = 0;
    while i < p.len()
        invariant
            k@ == vstd::utf8::encode_utf8(key@),
            p@ == vstd::utf8::encode_utf8(prefix@),
            p@.len() <= k@.len(),
            i <= p@.len(),
            forall|j: int| 0 <= j < i ==> k@[j] == p@[j],
        decreases p@.len() - i,
    {
        if k[i] != p[i] {
            assert(k@.take(p@.len() as int)[i as int] != p@[i as int]);
            return false;
        }
        i += 1;
    }
    assert(k@.take(p@.len() as int) =~= p@);
    true
}

/// Byte-wise string equality.
pub fn str_eq(a: &str, b: &str) -> (r: bool)
    ensures
        r == (a@ == b@),
{
    let x = a.as_bytes();
    let y = b.as_bytes();
    proof {
        vstd::utf8::encode_utf8_decode_utf8(a@);
        vstd::utf8::encode_utf8_decode_utf8(b@);
    }
    if x.len() != y.len() {
        return false;
    }
    let mut i: usize = 0;
    while i < x.len()
        invariant
            x@ == a.spec_bytes(),
            y@ == b.spec_bytes(),
            x@.len() == y@.len(),
            i <= x@.len(),
            forall|j: int| 0 <= j < i ==> x@[j] == y@[j],
        decreases x@.len() - i,
    {
        if x[i] != y[i] {
            return false;
        }
        i += 1;
    }
    assert(x@ =~= y@);
    true
}

impl<V> StrMap<V> {
    /// No key occurs twice.
    pub closed spec fn wf(&self) -> bool {
        forall|i: int, j: int|
            0 <= i < self.entries@.len() && 0 <= j < self.entries@.len() && i != j
                ==> #[trigger] self.entries@[i].key@ != #[trigger] self.entries@[j].key@
    }

    pub closed spec fn has(&self, k: Seq<char>) -> bool {
        exists|i: int| 0 <= i < self.entries@.len() && #[trigger] self.entries@[i].key@ == k
    }

    pub closed spec fn index_of(&self, k: Seq<char>) -> int {
        choose|i: int| 0 <= i < self.entries@.len() && #[trigger] self.entries@[i].key@ == k
    }

    /// The map from keys to values.
    pub closed spec fn as_map(&self) -> Map<Seq<char>, V> {
        Map::new(|k: Seq<char>| self.has(k), |k: Seq<char>| self.entries@[self.index_of(k)].value)
    }

    /// Number of entries (the size of the map's domain, see `lemma_len`).
    pub closed spec fn spec_len(&self) -> nat {
        self.entries@.len()
    }

    /// The key stored at position `i` of the walk order.
    pub closed spec fn key_at_spec(&self, i: int) -> Seq<char> {
        self.entries@[i].key@
    }

    proof fn lemma_entry(&self, i: int)
        requires
            self.wf(),
            0 <= i < self.entries@.len(),
        ensures
            self.as_map().dom().contains(self.entries@[i].key@),
            self.as_map()[self.entries@[i].key@] == self.entries@[i].value,
            self.index_of(self.entries@[i].key@) == i,
    {
        let k = self.entries@[i].key@;
        assert(self.has(k));
        let j = self.index_of(k);
        assert(self.entries@[j].key@ == k);
        assert(j == i);
    }

    /// The walk order visits each key of the map exactly once.
    pub proof fn lemma_key_at(&self, i: int)
        requires
            self.wf(),
            0 <= i < self.spec_len(),
        ensures
            self.as_map().dom().contains(self.key_at_spec(i)),
            forall|j: int| 0 <= j < self.spec_len() && j != i ==> self.key_at_spec(j) != self.key_at_spec(i),
    {
        self.lemma_entry(i);
    }

    /// Every key of the map is visited at some position.
    pub proof fn lemma_key_visited(&self, k: Seq<char>)
        requires
            self.wf(),
            self.as_map().dom().contains(k),
        ensures
            exists|i: int| 0 <= i < self.spec_len() && self.key_at_spec(i) == k,
    {
        let i = self.index_of(k);
        assert(self.key_at_spec(i) == k);
    }

    /// The domain is finite and has `spec_len` keys.
    pub proof fn lemma_len(&self)
        requires
            self.wf(),
        ensures
            self.as_map().dom().finite(),
            self.as_map().dom().len() == self.spec_len(),
    {
        let keys = self.entries@.map_values(|e: StrEntry<V>| e.key@);
        assert forall|i: int, j: int| 0 <= i < keys.len() && 0 <= j < keys.len() && i != j
            implies keys[i] != keys[j] by {
            assert(keys[i] == self.entries@[i].key@);
            assert(keys[j] == self.entries@[j].key@);
            assert(self.entries@[i].key@ != self.entries@[j].key@);
        }
        assert(keys.no_duplicates());
        keys.unique_seq_to_set();
        assert forall|k: Seq<char>| self.as_map().dom().contains(k) <==> keys.to_set().contains(k) by {
            if self.as_map().dom().contains(k) {
                let i = self.index_of(k);
                assert(keys[i] == k);
            }
            if keys.to_set().contains(k) {
                let i = choose|i: int| 0 <= i < keys.len() && keys[i] == k;
                assert(self.entries@[i].key@ == k);
            }
        }
        assert(self.as_map().dom() =~= keys.to_set());
        vstd::seq_lib::seq_to_set_is_finite(keys);
    }

    pub fn new() -> (m: Self)
        ensures
            m.wf(),
            m.as_map() == Map::<Seq<char>, V>::empty(),
            m.spec_len() == 0,
    {
        let m = StrMap { entries: Vec::new() };
        assert(m.as_map() =~= Map::<Seq<char>, V>::empty());
        m
    }

    pub fn len(&self) -> (n: usize)
        ensures
            n == self.spec_len(),
    {
        self.entries.len()
    }

    /// The key at position `i` of the walk order.
    pub fn key_at(&self, i: usize) -> (k: &String)
        requires
            i < self.spec_len(),
        ensures
            k@ == self.key_at_spec(i as int),
    {
        &self.entries[i].key
    }

    /// The value at position `i` of the walk order.
    pub fn value_at(&self, i: usize) -> (v: &V)
        requires
            self.wf(),
            i < self.spec_len(),
        ensures
            *v == self.as_map()[self.key_at_spec(i as int)],
    {
        proof {
            self.lemma_entry(i as int);
        }
        &self.entries[i].value
    }

    /// Removes every entry whose key starts with `prefix`.
    pub fn remove_prefixed(&mut self, prefix: &str)
        requires
            old(self).wf(),
        ensures
            final(self).wf(),
            final(self).as_map() == Map::new(
                |k: Seq<char>| old(self).as_map().dom().contains(k) && !has_prefix(k, prefix@),
                |k: Seq<char>| old(self).as_map()[k],
            ),
    {
        let ghost m0 = self.as_map();
        let keys = self.keys();
        let ghost kv = key_views(keys@);
        let mut t: usize = 0;
        while t < keys.len()
            invariant
                self.wf(),
                kv == key_views(keys@),
                kv.no_duplicates(),
                forall|k: Seq<char>| m0.dom().contains(k) <==> kv.contains(k),
                t <= keys@.len(),
                forall|k: Seq<char>| #[trigger]
                    self.as_map().dom().contains(k) <==> (m0.dom().contains(k) && (!has_prefix(k, prefix@)
                        || !kv.take(t as int).contains(k))),
                forall|k: Seq<char>| #[trigger] self.as_map().dom().contains(k) ==> self.as_map()[k] == m0[k],
            decreases keys@.len() - t,
        {
            let ghost k = kv[t as int];
            proof {
                assert(kv.take(t + 1) =~= kv.take(t as int).push(k));
                assert forall|x: Seq<char>| #[trigger] kv.take(t + 1).contains(x) <==> (kv.take(t as int).contains(x)
                    || x == k) by {
                    if kv.take(t + 1).contains(x) {
                        let j = choose|j: int| 0 <= j < t + 1 && #[trigger] kv.take(t + 1)[j] == x;
                        if j < t {
                            assert(kv.take(t as int)[j] == x);
                        }
                    }
                    if kv.take(t as int).contains(x) {
                        let j = choose|j: int| 0 <= j < t && #[trigger] kv.take(t as int)[j] == x;
                        assert(kv.take(t + 1)[j] == x);
                    }
                    if x == k {
                        assert(kv.take(t + 1)[t as int] == x);
                    }
                }
                assert(!kv.take(t as int).contains(k)) by {
                    if kv.take(t as int).contains(k) {
                        let j = choose|j: int| 0 <= j < t && #[trigger] kv.take(t as int)[j] == k;
                        assert(kv[j] == k);
                    }
                }
                assert(kv.contains(k));
                assert(keys@[t as int]@ == k);
            }
            if starts_with(keys[t].as_str(), prefix) {
                self.remove(keys[t].as_str());
            }
            t += 1;
        }
        proof {
            assert(kv.take(kv.len() as int) =~= kv);
            assert(self.as_map() =~= Map::new(
                |k: Seq<char>| m0.dom().contains(k) && !has_prefix(k, prefix@),
                |k: Seq<char>| m0[k],
            ));
        }
    }

    /// A copy of every key, each once.
    pub fn keys(&self) -> (r: Vec<String>)
        requires
            self.wf(),
        ensures
            key_views(r@).no_duplicates(),
            forall|k: Seq<char>| self.as_map().dom().contains(k) <==> key_views(r@).contains(k),
    {
        let mut r: Vec<String> = Vec::new();
        let mut i: usize = 0;
        while i < self.entries.len()
            invariant
                self.wf(),
                i <= self.entries@.len(),
                r@.len() == i,
                forall|j: int| 0 <= j < i ==> #[trigger] r@[j]@ == self.entries@[j].key@,
            decreases self.entries@.len() - i,
        {
            r.push(self.entries[i].key.clone());
            i += 1;
        }
        proof {
            let kv = key_views(r@);
            assert forall|a: int, b: int| 0 <= a < kv.len() && 0 <= b < kv.len() && a != b implies kv[a]
                != kv[b] by {
                assert(kv[a] == self.entries@[a].key@);
                assert(kv[b] == self.entries@[b].key@);
            }
            assert forall|k: Seq<char>| self.as_map().dom().contains(k) <==> kv.contains(k) by {
                if self.as_map().dom().contains(k) {
                    let j = self.index_of(k);
                    assert(kv[j] == k);
                }
                if kv.contains(k) {
                    let j = choose|j: int| 0 <= j < kv.len() && kv[j] == k;
                    assert(self.entries@[j].key@ == k);
                    assert(self.has(k));
                }
            }
        }
        r
    }

    fn find(&self, k: &str) -> (r: Option<usize>)
        requires
            self.wf(),
        ensures
            r matches Some(i) ==> i < self.entries@.len() && self.entries@[i as int].key@ == k@,
            r is None ==> !self.as_map().dom().contains(k@),
    {
        let mut i: usize = 0;
        while i < self.entries.len()
            invariant
                i <= self.entries@.len(),
                forall|j: int| 0 <= j < i ==> self.entries@[j].key@ != k@,
            decreases self.entries@.len() - i,
        {
            if str_eq(self.entries[i].key.as_str(), k) {
                return Some(i);
            }
            i += 1;
        }
        proof {
            if self.has(k@) {
                let j = self.index_of(k@);
                assert(self.entries@[j].key@ == k@);
            }
        }
        None
    }

    pub fn contains_key(&self, k: &str) -> (b: bool)
        requires
            self.wf(),
        ensures
            b == self.as_map().dom().contains(k@),
    {
        match self.find(k) {
            Some(i) => {
                proof {
                    self.lemma_entry(i as int);
                }
                true
            },
            None => false,
        }
    }

    pub fn get(&self, k: &str) -> (r: Option<&V>)
        requires
            self.wf(),
        ensures
            r.is_some() == self.as_map().dom().contains(k@),
            r matches Some(v) ==> *v == self.as_map()[k@],
    {
        match self.find(k) {
            Some(i) => {
                proof {
                    self.lemma_entry(i as int);
                }
                Some(&self.entries[i].value)
            },
            None => None,
        }
    }

    /// Removes `k`, handing back its value.
    pub fn remove(&mut self, k: &str) -> (r: Option<V>)
        requires
            old(self).wf(),
        ensures
            final(self).wf(),
            final(self).as_map() == old(self).as_map().remove(k@),
            r.is_some() == old(self).as_map().dom().contains(k@),
            r matches Some(v) ==> v == old(self).as_map()[k@],
    {
        match self.find(k) {
            Some(i) => {
                let ghost old_self = *self;
                proof {
                    old_self.lemma_entry(i as int);
                }
                let e = self.entries.remove(i);
                proof {
                    let n = old_self.entries@.len();
                    assert forall|a: int, b: int|
                        0 <= a < self.entries@.len() && 0 <= b < self.entries@.len() && a != b
                        implies #[trigger] self.entries@[a].key@ != #[trigger] self.entries@[b].key@ by {
                        let oa = if a < i { a } else { a + 1 };
                        let ob = if b < i { b } else { b + 1 };
                        assert(self.entries@[a] == old_self.entries@[oa]);
                        assert(self.entries@[b] == old_self.entries@[ob]);
                        assert(old_self.entries@[oa].key@ != old_self.entries@[ob].key@);
                    }
                    assert forall|key: Seq<char>|
                        #[trigger] self.as_map().dom().contains(key) <==> old_self.as_map().remove(k@).dom().contains(key) by {
                        if self.has(key) {
                            let a = self.index_of(key);
                            let oa = if a < i { a } else { a + 1 };
                            assert(self.entries@[a] == old_self.entries@[oa]);
                            assert(old_self.entries@[oa].key@ == key);
                            assert(old_self.has(key));
                            assert(oa != i);
                        }
                        if old_self.has(key) && key != k@ {
                            let oa = old_self.index_of(key);
                            assert(oa != i);
                            let a = if oa < i { oa } else { oa - 1 };
                            assert(self.entries@[a] == old_self.entries@[oa]);
                            assert(self.has(key));
                        }
                    }
                    assert forall|key: Seq<char>| #[trigger] self.as_map().dom().contains(key)
                        implies self.as_map()[key] == old_self.as_map()[key] by {
                        let a = self.index_of(key);
                        let oa = if a < i { a } else { a + 1 };
                        assert(self.entries@[a] == old_self.entries@[oa]);
                        old_self.lemma_entry(oa);
                        self.lemma_entry(a);
                    }
                    assert(self.as_map() =~= old_self.as_map().remove(k@));
                }
                Some(e.value)
            },
            None => {
                proof {
                    assert(self.as_map() =~= self.as_map().remove(k@));
                }
                None
            },
        }
    }

    /// Sets `k` to `v`, replacing any earlier value.
    pub fn insert(&mut self, k: String, v: V)
        requires
            old(self).wf(),
        ensures
            final(self).wf(),
            final(self).as_map() == old(self).as_map().insert(k@, v),
    {
        let _ = self.remove(k.as_str());
        let ghost mid = *self;
        let ghost kv = k@;
        self.entries.push(StrEntry { key: k, value: v });
        proof {
            let n = mid.entries@.len();
            assert(!mid.as_map().dom().contains(kv));
            assert(!mid.has(kv));
            assert forall|a: int, b: int|
                0 <= a < self.entries@.len() && 0 <= b < self.entries@.len() && a != b
                implies #[trigger] self.entries@[a].key@ != #[trigger] self.entries@[b].key@ by {
                if a < n && b < n {
                    assert(self.entries@[a] == mid.entries@[a]);
                    assert(self.entries@[b] == mid.entries@[b]);
                } else if a == n {
                    assert(self.entries@[b] == mid.entries@[b]);
                } else {
                    assert(self.entries@[a] == mid.entries@[a]);
                }
            }
            self.lemma_entry(n as int);
            assert forall|key: Seq<char>|
                #[trigger] self.as_map().dom().contains(key) <==> mid.as_map().insert(kv, v).dom().contains(key) by {
                if self.has(key) && key != kv {
                    let a = self.index_of(key);
                    assert(a != n);
                    assert(self.entries@[a] == mid.entries@[a]);
                    assert(mid.has(key));
                }
                if mid.has(key) {
                    let a = mid.index_of(key);
                    assert(self.entries@[a] == mid.entries@[a]);
                    assert(self.has(key));
                }
            }
            assert forall|key: Seq<char>| #[trigger] self.as_map().dom().contains(key)
                implies self.as_map()[key] == mid.as_map().insert(kv, v)[key] by {
                if key != kv {
                    let a = self.index_of(key);
                    assert(a != n);
                    assert(self.entries@[a] == mid.entries@[a]);
                    mid.lemma_entry(a);
                    self.lemma_entry(a);
                }
            }
            assert(self.as_map() =~= mid.as_map().insert(kv, v));
        }
    }

    pub fn clear(&mut self)
        ensures
            final(self).wf(),
            final(self).as_map() == Map::<Seq<char>, V>::empty(),
    {
        self.entries.clear();
        assert(self.as_map() =~= Map::<Seq<char>, V>::empty());
    }
}

impl<V> View for StrMap<V> {
    type V = Map<Seq<char>, V>;

    open spec fn view(&self) -> Map<Seq<char>, V> {
        self.as_map()
    }
}

} // verus!
