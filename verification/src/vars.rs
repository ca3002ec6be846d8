//! Maps keyed by text: the variables of a block, the properties and the
//! environment. A map is a vector of pairs whose keys are pairwise distinct;
//! its view is a `Map` from the key's characters to the value.
use vstd::prelude::*;

verus! {

/// Values that can be copied with a proof that the copy is equal.
pub trait Duplicate: View + Sized {
    fn duplicate(&self) -> (r: Self)
        ensures
            r@ == self@,
    ;
}

impl Duplicate for String {
    fn duplicate(&self) -> (r: String) {
        self.clone()
    }
}

/// A map from text keys to values, kept as a vector of pairs with distinct keys.
pub struct AssocMap<V: View> {
    entries: Vec<(String, V)>,
}

impl<V: View> AssocMap<V> {
    #[verifier::type_invariant]
    spec fn keys_distinct(self) -> bool {
        forall|i: int, j: int|
            0 <= i < j < self.entries@.len() ==> #[trigger] self.entries@[i].0@
                != #[trigger] self.entries@[j].0@
    }

    /// Some entry of the vector has key `k`.
    spec fn has_key(self, k: Seq<char>) -> bool {
        exists|i: int| 0 <= i < self.entries@.len() && #[trigger] self.entries@[i].0@ == k
    }

    /// The index of the entry with key `k`.
    spec fn index_of(self, k: Seq<char>) -> int {
        choose|i: int| 0 <= i < self.entries@.len() && #[trigger] self.entries@[i].0@ == k
    }

    /// The mapping held by this map.
    pub closed spec fn view(&self) -> Map<Seq<char>, V::V> {
        Map::new(|k: Seq<char>| self.has_key(k), |k: Seq<char>| self.entries@[self.index_of(k)].1@)
    }

    /// The number of entries.
    pub closed spec fn spec_len(&self) -> nat {
        self.entries@.len()
    }

    proof fn lemma_index(self, i: int)
        requires
            self.keys_distinct(),
            0 <= i < self.entries@.len(),
        ensures
            self.view().contains_key(self.entries@[i].0@),
            self.view()[self.entries@[i].0@] == self.entries@[i].1@,
    {
        let k = self.entries@[i].0@;
        assert(self.has_key(k));
        let j = self.index_of(k);
        assert(self.entries@[j].0@ == k);
        if i < j {
            assert(self.entries@[i].0@ != self.entries@[j].0@);
        } else if j < i {
            assert(self.entries@[j].0@ != self.entries@[i].0@);
        }
    }

    /// The empty map.
    pub fn new() -> (m: Self)
        ensures
            m.view() == Map::<Seq<char>, V::V>::empty(),
    {
        let m = AssocMap { entries: Vec::new() };
        assert(m.view() =~= Map::<Seq<char>, V::V>::empty());
        m
    }

    /// Number of keys.
    pub fn len(&self) -> (n: usize)
        ensures
            n == self.view().dom().len(),
    {
        proof {
            use_type_invariant(self);
            self.lemma_dom_len();
        }
        self.entries.len()
    }

    proof fn lemma_dom_len(self)
        requires
            self.keys_distinct(),
        ensures
            self.view().dom().finite(),
            self.view().dom().len() == self.entries@.len(),
        decreases self.entries@.len(),
    {
        let keys = self.entries@.map_values(|e: (String, V)| e.0@);
        assert forall|i: int, j: int| 0 <= i < keys.len() && 0 <= j < keys.len() && i != j implies keys[i]
            != keys[j] by {
            if i < j {
                assert(self.entries@[i].0@ != self.entries@[j].0@);
            } else {
                assert(self.entries@[j].0@ != self.entries@[i].0@);
            }
        }
        keys.unique_seq_to_set();
        assert(self.view().dom() =~= keys.to_set()) by {
            assert forall|k: Seq<char>| self.view().dom().contains(k) implies keys.to_set().contains(k) by {
                let i = self.index_of(k);
                assert(keys[i] == k);
            }
            assert forall|k: Seq<char>| keys.to_set().contains(k) implies self.view().dom().contains(k) by {
                let i = choose|i: int| 0 <= i < keys.len() && keys[i] == k;
                assert(self.entries@[i].0@ == k);
            }
        }
    }

    /// Position of `name` among the entries.
    fn position(&self, name: &str) -> (r: Option<usize>)
        ensures
            match r {
                Some(i) => i < self.entries@.len() && self.entries@[i as int].0@ == name@,
                None => !self.view().contains_key(name@),
            },
    {
        let key = name.to_string();
        proof { broadcast use vstd::string::to_string_from_display_ensures_for_str; }
        assert(key@ == name@);
        let mut i: usize = 0;
        while i < self.entries.len()
            invariant
                key@ == name@,
                i <= self.entries@.len(),
                forall|j: int| 0 <= j < i ==> self.entries@[j].0@ != name@,
            decreases self.entries@.len() - i,
        {
            if self.entries[i].0 == key {
                return Some(i);
            }
            i += 1;
        }
        None
    }

    /// `name` is a key of the map.
    pub fn contains_key(&self, name: &str) -> (r: bool)
        ensures
            r == self.view().contains_key(name@),
    {
        proof { use_type_invariant(self); }
        match self.position(name) {
            Some(i) => {
                proof { self.lemma_index(i as int); }
                true
            },
            None => false,
        }
    }

    /// A reference to the value under `name`, if any.
    pub fn get_ref(&self, name: &str) -> (r: Option<&V>)
        ensures
            match r {
                Some(v) => self.view().contains_key(name@) && v@ == self.view()[name@],
                None => !self.view().contains_key(name@),
            },
    {
        proof { use_type_invariant(self); }
        match self.position(name) {
            Some(i) => {
                proof { self.lemma_index(i as int); }
                Some(&self.entries[i].1)
            },
            None => None,
        }
    }

    /// Sets `name` to `val`; returns the value it replaced, if any.
    pub fn insert(&mut self, name: String, val: V) -> (old_val: Option<V>)
        ensures
            final(self).view() == old(self).view().insert(name@, val@),
            match old_val {
                Some(v) => old(self).view().contains_key(name@) && v@ == old(self).view()[name@],
                None => !old(self).view().contains_key(name@),
            },
    {
        proof { use_type_invariant(&*self); }
        let ghost before = *self;
        match self.position(name.as_str()) {
            Some(i) => {
                proof { before.lemma_index(i as int); }
                let ghost key = name@;
                let ghost valv = val@;
                let mut entries = Vec::new();
                std::mem::swap(&mut entries, &mut self.entries);
                let (_k, old_v) = entries.remove(i);
                entries.insert(i, (name, val));
                let ghost after = AssocMap { entries };
                assert(after.keys_distinct()) by {
                    assert forall|a: int, b: int| 0 <= a < b < entries@.len() implies #[trigger] entries@[a].0@
                        != #[trigger] entries@[b].0@ by {
                        if a != i && b != i {
                            assert(entries@[a] == before.entries@[a]);
                            assert(entries@[b] == before.entries@[b]);
                        } else if a == i {
                            assert(entries@[b] == before.entries@[b]);
                            assert(before.entries@[a].0@ != before.entries@[b].0@);
                        } else {
                            assert(entries@[a] == before.entries@[a]);
                            assert(before.entries@[a].0@ != before.entries@[b].0@);
                        }
                    }
                }
                self.entries = entries;
                proof {
                    assert forall|k: Seq<char>| #![auto]
                        self.view().contains_key(k) == before.view().insert(key, valv).contains_key(k) by {
                        if self.has_key(k) {
                            let j = self.index_of(k);
                            if j != i {
                                assert(before.entries@[j] == self.entries@[j]);
                                assert(before.has_key(k));
                            }
                        }
                        if before.has_key(k) && k != key {
                            let j = before.index_of(k);
                            assert(self.entries@[j] == before.entries@[j]);
                            assert(self.has_key(k));
                        }
                        if k == key {
                            assert(self.entries@[i as int].0@ == key);
                        }
                    }
                    assert forall|k: Seq<char>| #[trigger] self.view().contains_key(k) implies self.view()[k]
                        == before.view().insert(key, valv)[k] by {
                        let j = self.index_of(k);
                        self.lemma_index(j);
                        if j != i {
                            assert(before.entries@[j] == self.entries@[j]);
                            before.lemma_index(j);
                        }
                    }
                    assert(self.view() =~= before.view().insert(key, valv));
                }
                Some(old_v)
            },
            None => {
                let ghost key = name@;
                let ghost valv = val@;
                let mut entries = Vec::new();
                std::mem::swap(&mut entries, &mut self.entries);
                entries.push((name, val));
                proof {
                    let n = before.entries@.len() as int;
                    assert forall|a: int, b: int| 0 <= a < b < entries@.len() implies #[trigger] entries@[a].0@
                        != #[trigger] entries@[b].0@ by {
                        if b == n {
                            assert(entries@[a] == before.entries@[a]);
                            assert(before.has_key(before.entries@[a].0@));
                        } else {
                            assert(entries@[a] == before.entries@[a]);
                            assert(entries@[b] == before.entries@[b]);
                        }
                    }
                    let after = AssocMap { entries };
                    assert(after.keys_distinct());
                }
                self.entries = entries;
                proof {
                    let n = before.entries@.len() as int;
                    assert forall|a: int, b: int| 0 <= a < b < self.entries@.len() implies #[trigger] self.entries@[a].0@
                        != #[trigger] self.entries@[b].0@ by {
                        if b == n {
                            assert(self.entries@[a] == before.entries@[a]);
                            assert(before.has_key(before.entries@[a].0@));
                        } else {
                            assert(self.entries@[a] == before.entries@[a]);
                            assert(self.entries@[b] == before.entries@[b]);
                        }
                    }
                    assert(self.keys_distinct());
                    assert forall|k: Seq<char>| #![auto]
                        self.view().contains_key(k) == before.view().insert(key, valv).contains_key(k) by {
                        if self.has_key(k) {
                            let j = self.index_of(k);
                            if j != n {
                                assert(before.entries@[j] == self.entries@[j]);
                                assert(before.has_key(k));
                            }
                        }
                        if before.has_key(k) {
                            let j = before.index_of(k);
                            assert(self.entries@[j] == before.entries@[j]);
                            assert(self.has_key(k));
                        }
                        if k == key {
                            assert(self.entries@[n].0@ == key);
                        }
                    }
                    assert forall|k: Seq<char>| #[trigger] self.view().contains_key(k) implies self.view()[k]
                        == before.view().insert(key, valv)[k] by {
                        let j = self.index_of(k);
                        self.lemma_index(j);
                        if j != n {
                            assert(before.entries@[j] == self.entries@[j]);
                            before.lemma_index(j);
                        }
                    }
                    assert(self.view() =~= before.view().insert(key, valv));
                }
                None
            },
        }
    }

    /// Removes `name`; returns the value it held, if any.
    pub fn remove(&mut self, name: &str) -> (old_val: Option<V>)
        ensures
            final(self).view() == old(self).view().remove(name@),
            match old_val {
                Some(v) => old(self).view().contains_key(name@) && v@ == old(self).view()[name@],
                None => !old(self).view().contains_key(name@),
            },
    {
        proof { use_type_invariant(&*self); }
        let ghost before = *self;
        match self.position(name) {
            Some(i) => {
                proof { before.lemma_index(i as int); }
                let mut entries = Vec::new();
                std::mem::swap(&mut entries, &mut self.entries);
                let (_k, old_v) = entries.remove(i);
                let ghost after = AssocMap { entries };
                assert(after.keys_distinct()) by {
                    assert forall|a: int, b: int| 0 <= a < b < entries@.len() implies #[trigger] entries@[a].0@
                        != #[trigger] entries@[b].0@ by {
                        let a0 = if a < i { a } else { a + 1 };
                        let b0 = if b < i { b } else { b + 1 };
                        assert(entries@[a] == before.entries@[a0]);
                        assert(entries@[b] == before.entries@[b0]);
                        assert(before.entries@[a0].0@ != before.entries@[b0].0@);
                    }
                }
                self.entries = entries;
                proof {
                    let key = name@;
                    assert forall|k: Seq<char>| #![auto]
                        self.view().contains_key(k) == before.view().remove(key).contains_key(k) by {
                        if self.has_key(k) {
                            let j = self.index_of(k);
                            let j0 = if j < i { j } else { j + 1 };
                            assert(before.entries@[j0] == self.entries@[j]);
                            assert(before.has_key(k));
                            if k == key {
                                assert(before.entries@[i as int].0@ == before.entries@[j0].0@);
                            }
                        }
                        if before.has_key(k) && k != key {
                            let j = before.index_of(k);
                            assert(j != i);
                            let j1 = if j < i { j } else { j - 1 };
                            assert(self.entries@[j1] == before.entries@[j]);
                            assert(self.has_key(k));
                        }
                    }
                    assert forall|k: Seq<char>| #[trigger] self.view().contains_key(k) implies self.view()[k]
                        == before.view().remove(key)[k] by {
                        let j = self.index_of(k);
                        self.lemma_index(j);
                        let j0 = if j < i { j } else { j + 1 };
                        assert(before.entries@[j0] == self.entries@[j]);
                        before.lemma_index(j0);
                    }
                    assert(self.view() =~= before.view().remove(key));
                }
                Some(old_v)
            },
            None => {
                assert(self.view() =~= before.view().remove(name@));
                None
            },
        }
    }
}

impl<V: Duplicate> AssocMap<V> {
    /// A copy of the value under `name`, if any.
    pub fn get(&self, name: &str) -> (r: Option<V>)
        ensures
            match r {
                Some(v) => self.view().contains_key(name@) && v@ == self.view()[name@],
                None => !self.view().contains_key(name@),
            },
    {
        match self.get_ref(name) {
            Some(v) => Some(v.duplicate()),
            None => None,
        }
    }
}

impl<V: Duplicate> AssocMap<V> {
    /// All entries of the map, each key once.
    pub fn pairs(&self) -> (r: Vec<(String, V)>)
        ensures
            r@.len() == self.view().dom().len(),
            forall|i: int| 0 <= i < r@.len() ==> #[trigger] self.view().contains_key(r@[i].0@)
                && self.view()[r@[i].0@] == r@[i].1@,
            forall|k: Seq<char>| #[trigger] self.view().contains_key(k) ==> exists|i: int| 0 <= i < r@.len() && r@[i].0@ == k,
    {
        proof {
            use_type_invariant(self);
            self.lemma_dom_len();
        }
        let mut r: Vec<(String, V)> = Vec::new();
        let mut i: usize = 0;
        while i < self.entries.len()
            invariant
                i <= self.entries@.len(),
                self.keys_distinct(),
                r@.len() == i,
                forall|j: int| 0 <= j < i ==> #[trigger] r@[j].0@ == self.entries@[j].0@ && r@[j].1@ == self.entries@[j].1@,
            decreases self.entries@.len() - i,
        {
            let k = self.entries[i].0.clone();
            let v = self.entries[i].1.duplicate();
            r.push((k, v));
            i += 1;
        }
        assert forall|j: int| 0 <= j < r@.len() implies #[trigger] self.view().contains_key(r@[j].0@)
            && self.view()[r@[j].0@] == r@[j].1@ by {
            self.lemma_index(j);
        }
        assert forall|k: Seq<char>| #[trigger] self.view().contains_key(k) implies exists|i: int| 0 <= i < r@.len() && r@[i].0@ == k by {
            let j = self.index_of(k);
            assert(r@[j].0@ == k);
        }
        r
    }
}

/// Properties and environment: text keys to text values.
pub type StrMap = AssocMap<String>;

/// What the interpreter reads besides the script: the properties (set on the
/// command line, from property files or by the script) and the environment.
pub struct Context {
    pub props: StrMap,
    pub env: StrMap,
}


impl<V: Duplicate> AssocMap<V> {
    /// A copy of the map.
    pub fn copy(&self) -> (r: Self)
        ensures
            r.view() == self.view(),
    {
        proof { use_type_invariant(self); }
        let mut e2: Vec<(String, V)> = Vec::new();
        let mut i: usize = 0;
        while i < self.entries.len()
            invariant
                i <= self.entries@.len(),
                self.keys_distinct(),
                e2@.len() == i,
                forall|j: int| 0 <= j < i ==> #[trigger] e2@[j].0@ == self.entries@[j].0@ && e2@[j].1@ == self.entries@[j].1@,
            decreases self.entries@.len() - i,
        {
            let k = self.entries[i].0.clone();
            let v = self.entries[i].1.duplicate();
            e2.push((k, v));
            i += 1;
        }
        assert forall|a: int, b: int| 0 <= a < b < e2@.len() implies #[trigger] e2@[a].0@ != #[trigger] e2@[b].0@ by {
            assert(self.entries@[a].0@ != self.entries@[b].0@);
        }
        let r = AssocMap { entries: e2 };
        assert forall|k: Seq<char>| #[trigger] self.view().dom().contains(k) implies r.view().dom().contains(k) && r.view()[k] == self.view()[k] by {
            assert(self.has_key(k));
            let j = self.index_of(k);
            self.lemma_index(j);
            assert(r.entries@[j].0@ == k);
            r.lemma_index(j);
        }
        assert forall|k: Seq<char>| #[trigger] r.view().dom().contains(k) implies self.view().dom().contains(k) by {
            assert(r.has_key(k));
            let j = r.index_of(k);
            assert(self.entries@[j].0@ == k);
            assert(self.has_key(k));
        }
        assert(r.view().dom() =~= self.view().dom());
        assert(r.view() =~= self.view());
        r
    }
}

impl Context {
    /// A copy of the context.
    pub fn copy(&self) -> (r: Context)
        ensures
            r.props.view() == self.props.view(),
            r.env.view() == self.env.view(),
    {
        Context { props: self.props.copy(), env: self.env.copy() }
    }
}

} // verus!
