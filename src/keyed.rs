//! A small map keyed by name, kept as two parallel lists with unique keys.
use crate::text::str_eq;
use vstd::prelude::*;

verus! {

/// Whether no name occurs twice.
pub open spec fn unique_names(names: Seq<Seq<char>>) -> bool {
    forall|i: int, j: int|
        0 <= i < names.len() && 0 <= j < names.len() && i != j ==> names[i] != names[j]
}

/// Whether `k` occurs among the names.
pub open spec fn has_name(names: Seq<Seq<char>>, k: Seq<char>) -> bool {
    exists|i: int| 0 <= i < names.len() && names[i] == k
}

/// A position of `k` among the names (the only one when names are unique).
pub open spec fn name_index(names: Seq<Seq<char>>, k: Seq<char>) -> int {
    choose|i: int| 0 <= i < names.len() && names[i] == k
}

pub proof fn lemma_name_index(names: Seq<Seq<char>>, i: int)
    requires
        unique_names(names),
        0 <= i < names.len(),
    ensures
        has_name(names, names[i]),
        name_index(names, names[i]) == i,
{
    let k = names[i];
    assert(0 <= i < names.len() && names[i] == k);
    let j = name_index(names, k);
    assert(0 <= j < names.len() && names[j] == k);
}

/// Values keyed by name; a later insert under a name replaces the earlier value.
pub struct KeyedList<V> {
    keys: Vec<String>,
    values: Vec<V>,
}

impl<V: Copy> KeyedList<V> {
    pub closed spec fn names(&self) -> Seq<Seq<char>> {
        self.keys@.map_values(|k: String| k@)
    }

    pub closed spec fn wf(&self) -> bool {
        self.keys.len() == self.values.len() && unique_names(self.names())
    }

    /// The names in order of first insertion.
    pub closed spec fn key_seq(&self) -> Seq<Seq<char>> {
        self.names()
    }

    /// The value stored under each name.
    pub closed spec fn view(&self) -> Map<Seq<char>, V> {
        Map::new(
            |k: Seq<char>| has_name(self.names(), k),
            |k: Seq<char>| self.values@[name_index(self.names(), k)],
        )
    }

    pub fn new() -> (r: Self)
        ensures
            r.wf(),
            r.view() == Map::<Seq<char>, V>::empty(),
            r.key_seq().len() == 0,
    {
        let r = KeyedList { keys: Vec::new(), values: Vec::new() };
        assert(r.view() =~= Map::<Seq<char>, V>::empty());
        r
    }

    pub fn len(&self) -> (r: usize)
        requires
            self.wf(),
        ensures
            r == self.key_seq().len(),
            r == self.view().dom().len(),
    {
        proof {
            self.lemma_dom();
        }
        self.keys.len()
    }

    /// The names present are exactly the stored keys.
    pub proof fn lemma_keys(&self)
        requires
            self.wf(),
        ensures
            forall|k: Seq<char>| #[trigger] self.view().contains_key(k) <==> self.key_seq().contains(k),
    {
        assert forall|k: Seq<char>| #[trigger] self.view().contains_key(k) <==> self.key_seq().contains(k) by {
            if self.key_seq().contains(k) {
                let j = choose|j: int| 0 <= j < self.key_seq().len() && self.key_seq()[j] == k;
                assert(self.names()[j] == k);
            }
        }
    }

    proof fn lemma_dom(&self)
        requires
            self.wf(),
        ensures
            self.view().dom() == self.key_seq().to_set(),
            self.view().dom().len() == self.key_seq().len(),
    {
        assert(self.view().dom() =~= self.key_seq().to_set());
        self.key_seq().unique_seq_to_set();
    }

    /// The name stored at position `i`.
    pub fn key_at(&self, i: usize) -> (r: &String)
        requires
            self.wf(),
            i < self.key_seq().len(),
        ensures
            r@ == self.key_seq()[i as int],
            self.view().contains_key(r@),
    {
        proof {
            lemma_name_index(self.names(), i as int);
        }
        &self.keys[i]
    }

    /// The value stored at position `i`.
    pub fn value_at(&self, i: usize) -> (r: V)
        requires
            self.wf(),
            i < self.key_seq().len(),
        ensures
            r == self.view()[self.key_seq()[i as int]],
    {
        proof {
            lemma_name_index(self.names(), i as int);
        }
        self.values[i]
    }

    fn find(&self, k: &str) -> (r: Option<usize>)
        requires
            self.wf(),
        ensures
            match r {
                Some(i) => i < self.keys.len() && self.names()[i as int] == k@,
                None => !has_name(self.names(), k@),
            },
    {
        let mut i: usize = 0;
        while i < self.keys.len()
            invariant
                i <= self.keys.len(),
                forall|j: int| 0 <= j < i ==> self.names()[j] != k@,
            decreases self.keys.len() - i,
        {
            if str_eq(self.keys[i].as_str(), k) {
                return Some(i);
            }
            i += 1;
        }
        None
    }

    /// The value stored under `k`, if any.
    pub fn get(&self, k: &str) -> (r: Option<V>)
        requires
            self.wf(),
        ensures
            r == if self.view().contains_key(k@) {
                Some(self.view()[k@])
            } else {
                None::<V>
            },
    {
        match self.find(k) {
            Some(i) => {
                proof {
                    lemma_name_index(self.names(), i as int);
                }
                Some(self.values[i])
            },
            None => None,
        }
    }

    /// Stores `v` under `k`, replacing what was there.
    pub fn insert(&mut self, k: &str, v: V)
        requires
            old(self).wf(),
        ensures
            final(self).wf(),
            final(self).view() == old(self).view().insert(k@, v),
    {
        let ghost old_names = self.names();
        let ghost old_view = self.view();
        match self.find(k) {
            Some(i) => {
                self.values.set(i, v);
                assert(self.names() =~= old_names);
                assert forall|key: Seq<char>| #[trigger] self.view().contains_key(key) implies self.view()[key]
                    == old_view.insert(k@, v)[key] by {
                    let j = name_index(old_names, key);
                    lemma_name_index(old_names, j);
                    lemma_name_index(old_names, i as int);
                }
                assert(self.view() =~= old_view.insert(k@, v));
            },
            None => {
                self.keys.push(k.to_string());
                self.values.push(v);
                let ghost n: int = old_names.len() as int;
                assert(self.names() =~= old_names.push(k@));
                assert forall|key: Seq<char>| #[trigger] self.view().contains_key(key) implies self.view()[key]
                    == old_view.insert(k@, v)[key] by {
                    let j = name_index(self.names(), key);
                    lemma_name_index(self.names(), j);
                    if key != k@ {
                        lemma_name_index(old_names, j);
                    } else {
                        lemma_name_index(self.names(), n);
                    }
                }
                assert forall|key: Seq<char>| old_view.insert(k@, v).contains_key(key) implies #[trigger] self.view().contains_key(key) by {
                    if key != k@ {
                        let j = name_index(old_names, key);
                        assert(self.names()[j] == key);
                    } else {
                        assert(self.names()[n] == key);
                    }
                }
                assert(self.view() =~= old_view.insert(k@, v));
            },
        }
    }
}

} // verus!
