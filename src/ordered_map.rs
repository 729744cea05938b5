//! A map from strings to strings that keeps its keys in order of first
//! insertion.

use vstd::prelude::*;
use crate::text::chars_of;
use crate::types::pairs_view;

verus! {

/// Where `key` stands among the keys of `es`.
pub open spec fn key_index(es: Seq<(Seq<char>, Seq<char>)>, key: Seq<char>) -> Option<int> {
    if exists|i: int| 0 <= i < es.len() && es[i].0 == key {
        Some(choose|i: int| 0 <= i < es.len() && es[i].0 == key)
    } else {
        None
    }
}

/// `es` with `key` bound to `value`: the entry of that key takes the new
/// value, or a new entry is added at the end.
pub open spec fn bind(es: Seq<(Seq<char>, Seq<char>)>, key: Seq<char>, value: Seq<char>) -> Seq<(Seq<char>, Seq<char>)> {
    match key_index(es, key) {
        Some(i) => es.update(i, (key, value)),
        None => es.push((key, value)),
    }
}

pub open spec fn keys_unique(es: Seq<(Seq<char>, Seq<char>)>) -> bool {
    forall|i: int, j: int| 0 <= i < es.len() && 0 <= j < es.len() && i != j ==> es[i].0 != es[j].0
}

/// A map from keys to values that keeps its keys in order of first
/// insertion.
#[derive(Clone, Debug)]
pub struct OrderedMap {
    entries: Vec<(String, String)>,
}

impl OrderedMap {
    pub closed spec fn entries_view(&self) -> Seq<(Seq<char>, Seq<char>)> {
        pairs_view(self.entries@)
    }

    pub closed spec fn wf(&self) -> bool {
        keys_unique(pairs_view(self.entries@))
    }

    pub fn new() -> (r: OrderedMap)
        ensures
            r.wf(),
            r.entries_view() == Seq::<(Seq<char>, Seq<char>)>::empty(),
    {
        let r = OrderedMap { entries: Vec::new() };
        assert(pairs_view(r.entries@) =~= Seq::empty());
        r
    }

    /// The number of keys.
    pub fn len(&self) -> (r: usize)
        ensures
            r == self.entries_view().len(),
    {
        self.entries.len()
    }

    fn position(&self, key: &str) -> (r: Option<usize>)
        requires
            self.wf(),
        ensures
            r is Some <==> key_index(self.entries_view(), key@) is Some,
            r matches Some(i) ==> key_index(self.entries_view(), key@) == Some(i as int),
    {
        let ghost es = self.entries_view();
        let k = chars_of(key);
        let mut i: usize = 0;
        while i < self.entries.len()
            invariant
                es == self.entries_view(),
                keys_unique(es),
                k@ == key@,
                i <= es.len(),
                forall|j: int| 0 <= j < i ==> es[j].0 != key@,
            decreases es.len() - i,
        {
            let e = chars_of(self.entries[i].0.as_str());
            assert(es[i as int] == (self.entries@[i as int].0@, self.entries@[i as int].1@));
            if crate::text::seq_eq(&e, &k) {
                proof {
                    assert(e@ == self.entries@[i as int].0@);
                    assert(k@ == key@);
                    assert(e@ == k@);
                    assert(es[i as int].0 == key@ && 0 <= i < es.len());
                    let j = choose|j: int| 0 <= j < es.len() && es[j].0 == key@;
                    assert(0 <= j < es.len() && es[j].0 == key@);
                    assert(j == i);
                }
                return Some(i);
            }
            i = i + 1;
        }
        None
    }

    /// The value bound to `key`.
    pub fn get(&self, key: &str) -> (r: Option<&String>)
        requires
            self.wf(),
        ensures
            r is Some <==> key_index(self.entries_view(), key@) is Some,
            r matches Some(v) ==> v@ == self.entries_view()[key_index(self.entries_view(), key@)->0].1,
    {
        match self.position(key) {
            Some(i) => Some(&self.entries[i].1),
            None => None,
        }
    }

    /// Binds `key` to `value`, replacing an earlier value of that key.
    pub fn insert(&mut self, key: String, value: String)
        requires
            old(self).wf(),
        ensures
            final(self).wf(),
            final(self).entries_view() == bind(old(self).entries_view(), key@, value@),
    {
        let ghost es = self.entries_view();
        match self.position(key.as_str()) {
            Some(i) => {
                let kv = (key, value);
                self.entries.set(i, kv);
                assert(pairs_view(self.entries@) =~= es.update(i as int, (kv.0@, kv.1@)));
            },
            None => {
                let kv = (key, value);
                self.entries.push(kv);
                assert(pairs_view(self.entries@) =~= es.push((kv.0@, kv.1@)));
            },
        }
    }

    /// The pairs, in order of first insertion.
    pub fn entries(&self) -> (r: &Vec<(String, String)>)
        ensures
            pairs_view(r@) == self.entries_view(),
    {
        &self.entries
    }
}

} // verus!
