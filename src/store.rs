use vstd::prelude::*;

use crate::key::{KeyView, TypedKey};

verus! {

/// The views of a sequence of keys.
pub open spec fn key_views(keys: Seq<TypedKey>) -> Seq<KeyView> {
    keys.map_values(|k: TypedKey| k@)
}

/// A map from typed keys to values, kept as two aligned vectors.
///
/// Each key occurs at most once; its value stands at the same position.
pub struct KeyMap<V> {
    keys: Vec<TypedKey>,
    vals: Vec<V>,
}

impl<V> KeyMap<V> {
    /// The keys, in the order they were first inserted.
    pub closed spec fn key_seq(&self) -> Seq<KeyView> {
        key_views(self.keys@)
    }

    /// Keys and values are aligned and no key occurs twice.
    pub closed spec fn wf(&self) -> bool {
        &&& self.keys.len() == self.vals.len()
        &&& self.key_seq().no_duplicates()
    }

    /// The map from key to value.
    pub closed spec fn view(&self) -> Map<KeyView, V> {
        Map::new(
            |k: KeyView| self.key_seq().contains(k),
            |k: KeyView| self.vals@[self.key_seq().index_of(k)],
        )
    }

    proof fn lemma_index(&self, i: int)
        requires
            self.wf(),
            0 <= i < self.keys.len(),
        ensures
            self.key_seq()[i] == self.keys@[i]@,
            self.view().contains_key(self.keys@[i]@),
            self.view()[self.keys@[i]@] == self.vals@[i],
    {
        let k = self.keys@[i]@;
        assert(self.key_seq()[i] == k);
        assert(self.key_seq().contains(k));
        let j = self.key_seq().index_of(k);
        assert(self.key_seq()[j] == k);
    }

    /// The empty map.
    pub fn new() -> (r: KeyMap<V>)
        ensures
            r.wf(),
            r.view() == Map::<KeyView, V>::empty(),
    {
        let r = KeyMap { keys: Vec::new(), vals: Vec::new() };
        assert(r.view() =~= Map::<KeyView, V>::empty());
        r
    }

    /// The position of `key`, if it is present.
    fn find(&self, key: &TypedKey) -> (r: Option<usize>)
        requires
            self.wf(),
        ensures
            match r {
                Some(i) => i < self.keys.len() && self.keys@[i as int]@ == key@,
                None => !self.view().contains_key(key@),
            },
    {
        let mut i: usize = 0;
        while i < self.keys.len()
            invariant
                i <= self.keys.len(),
                forall|j: int| 0 <= j < i ==> self.keys@[j]@ != key@,
            decreases self.keys.len() - i,
        {
            if self.keys[i].same(key) {
                return Some(i);
            }
            i += 1;
        }
        assert(!self.key_seq().contains(key@)) by {
            if self.key_seq().contains(key@) {
                let j = choose|j: int| 0 <= j < self.key_seq().len() && self.key_seq()[j] == key@;
                assert(self.key_seq()[j] == self.keys@[j]@);
            }
        }
        None
    }

    /// Whether `key` has a value.
    pub fn contains(&self, key: &TypedKey) -> (r: bool)
        requires
            self.wf(),
        ensures
            r == self.view().contains_key(key@),
    {
        match self.find(key) {
            Some(i) => {
                proof { self.lemma_index(i as int); }
                true
            },
            None => false,
        }
    }

    /// The value of `key`, if any.
    pub fn get(&self, key: &TypedKey) -> (r: Option<&V>)
        requires
            self.wf(),
        ensures
            match r {
                Some(v) => self.view().contains_key(key@) && *v == self.view()[key@],
                None => !self.view().contains_key(key@),
            },
    {
        match self.find(key) {
            Some(i) => {
                proof { self.lemma_index(i as int); }
                Some(&self.vals[i])
            },
            None => None,
        }
    }

    /// A handle through which the value of `key` can be changed.
    pub fn get_mut(&mut self, key: &TypedKey) -> (r: Option<&mut V>)
        requires
            old(self).wf(),
        ensures
            match r {
                Some(v) => {
                    &&& old(self).view().contains_key(key@)
                    &&& *v == old(self).view()[key@]
                    &&& final(self).wf()
                    &&& final(self).view() == old(self).view().insert(key@, *final(v))
                },
                None => {
                    &&& !old(self).view().contains_key(key@)
                    &&& *final(self) == *old(self)
                },
            },
    {
        match self.find(key) {
            Some(i) => {
                proof { self.lemma_index(i as int); }
                Some(&mut self.vals[i])
            },
            None => None,
        }
    }

    /// Sets the value of `key`, replacing any earlier one.
    pub fn insert(&mut self, key: TypedKey, value: V)
        requires
            old(self).wf(),
        ensures
            final(self).wf(),
            final(self).view() == old(self).view().insert(key@, value),
    {
        match self.find(&key) {
            Some(i) => {
                self.vals.set(i, value);
                proof {
                    assert(self.key_seq() == old(self).key_seq());
                    assert forall|k: KeyView| #[trigger] self.view().contains_key(k) implies
                        self.view()[k] == old(self).view().insert(key@, value)[k] by {
                        let j = self.key_seq().index_of(k);
                        assert(self.key_seq()[j] == k);
                        self.lemma_index(j);
                        old(self).lemma_index(j);
                        old(self).lemma_index(i as int);
                        assert(self.keys@[j] == old(self).keys@[j]);
                        if j != i {
                            assert(self.vals@[j] == old(self).vals@[j]);
                            assert(old(self).key_seq()[j] != old(self).key_seq()[i as int]);
                        }
                    }
                    old(self).lemma_index(i as int);
                    assert(self.view().dom() =~= old(self).view().insert(key@, value).dom());
                    assert(self.view() =~= old(self).view().insert(key@, value));
                }
            },
            None => {
                let ghost k = key@;
                self.keys.push(key);
                self.vals.push(value);
                proof {
                    let n = old(self).keys.len() as int;
                    assert(self.key_seq() =~= old(self).key_seq().push(k));
                    assert forall|k2: KeyView| #[trigger] self.view().contains_key(k2) implies
                        self.view()[k2] == old(self).view().insert(k, value)[k2] by {
                        let j = self.key_seq().index_of(k2);
                        assert(self.key_seq()[j] == k2);
                        self.lemma_index(j);
                        if j < n {
                            old(self).lemma_index(j);
                            assert(self.keys@[j] == old(self).keys@[j]);
                            assert(self.vals@[j] == old(self).vals@[j]);
                        } else {
                            assert(self.vals@[j] == value);
                        }
                    }
                    assert forall|k2: KeyView| self.key_seq().contains(k2) <==>
                        (old(self).key_seq().contains(k2) || k2 == k) by {
                        if self.key_seq().contains(k2) {
                            let j = choose|j: int| 0 <= j < self.key_seq().len() && self.key_seq()[j] == k2;
                            if j < n {
                                assert(old(self).key_seq()[j] == k2);
                            }
                        }
                        if old(self).key_seq().contains(k2) {
                            let j = choose|j: int| 0 <= j < old(self).key_seq().len() && old(self).key_seq()[j] == k2;
                            assert(self.key_seq()[j] == k2);
                        }
                        if k2 == k {
                            assert(self.key_seq()[n] == k2);
                        }
                    }
                    assert(self.view().dom() =~= old(self).view().insert(k, value).dom());
                    assert(self.view() =~= old(self).view().insert(k, value));
                }
            },
        }
    }
}

/// A set of typed keys, kept in the order of first insertion.
pub struct KeySet {
    keys: Vec<TypedKey>,
}

impl KeySet {
    /// The members, in the order they were first inserted.
    pub closed spec fn elems(&self) -> Seq<KeyView> {
        key_views(self.keys@)
    }

    /// No key occurs twice.
    pub closed spec fn wf(&self) -> bool {
        self.elems().no_duplicates()
    }

    /// The set of members.
    pub open spec fn view(&self) -> Set<KeyView> {
        self.elems().to_set()
    }

    /// The empty set.
    pub fn new() -> (r: KeySet)
        ensures
            r.wf(),
            r.elems() == Seq::<KeyView>::empty(),
    {
        let r = KeySet { keys: Vec::new() };
        assert(r.elems() =~= Seq::<KeyView>::empty());
        r
    }

    /// The number of members.
    pub fn len(&self) -> (r: usize)
        ensures
            r == self.elems().len(),
    {
        self.keys.len()
    }

    /// The member at position `i` of the insertion order.
    pub fn get(&self, i: usize) -> (r: &TypedKey)
        requires
            i < self.elems().len(),
        ensures
            r@ == self.elems()[i as int],
    {
        &self.keys[i]
    }

    /// Whether `key` is a member.
    pub fn contains(&self, key: &TypedKey) -> (r: bool)
        ensures
            r == self.elems().contains(key@),
    {
        let mut i: usize = 0;
        while i < self.keys.len()
            invariant
                i <= self.keys.len(),
                forall|j: int| 0 <= j < i ==> self.keys@[j]@ != key@,
            decreases self.keys.len() - i,
        {
            if self.keys[i].same(key) {
                assert(self.elems()[i as int] == key@);
                return true;
            }
            i += 1;
        }
        assert(!self.elems().contains(key@)) by {
            if self.elems().contains(key@) {
                let j = choose|j: int| 0 <= j < self.elems().len() && self.elems()[j] == key@;
                assert(self.elems()[j] == self.keys@[j]@);
            }
        }
        false
    }

    /// Adds `key`; a key already present is left where it is.
    pub fn insert(&mut self, key: TypedKey)
        requires
            old(self).wf(),
        ensures
            final(self).wf(),
            final(self).elems() == if old(self).elems().contains(key@) {
                old(self).elems()
            } else {
                old(self).elems().push(key@)
            },
    {
        if !self.contains(&key) {
            let ghost k = key@;
            self.keys.push(key);
            assert(self.elems() =~= old(self).elems().push(k));
        }
    }
}

} // verus!
