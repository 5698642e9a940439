//! Maps from subscription IDs to what stands for the subscriptions.

use crate::json::{distinct_names, find_name, lemma_find_name, lemma_lookup_at, lookup, with_member};
use crate::subscription::{SubId, SubscriptionId};
use std::collections::HashMap;
use vstd::prelude::*;

verus! {

/// A map from subscription IDs. No ID occurs twice.
pub struct IdMap<T> {
    numbers: HashMap<u64, T>,
    names: Vec<(String, T)>,
}

/// The texts and values of `entries`.
spec fn named<T>(entries: Seq<(String, T)>) -> Seq<(Seq<char>, T)> {
    entries.map_values(|e: (String, T)| (e.0@, e.1))
}

impl<T> View for IdMap<T> {
    type V = Map<SubId, T>;

    closed spec fn view(&self) -> Map<SubId, T> {
        Map::new(
            |id: SubId|
                match id {
                    SubId::Number(n) => self.numbers@.contains_key(n),
                    SubId::String(s) => lookup(named(self.names@), s) is Some,
                },
            |id: SubId|
                match id {
                    SubId::Number(n) => self.numbers@[n],
                    SubId::String(s) => lookup(named(self.names@), s)->0,
                },
        )
    }
}

impl<T> IdMap<T> {
    #[verifier::type_invariant]
    closed spec fn inv(self) -> bool {
        distinct_names(named(self.names@))
    }

    /// A map without entries.
    pub fn new() -> (r: IdMap<T>)
        ensures
            r@ == Map::<SubId, T>::empty(),
    {
        let r = IdMap { numbers: HashMap::new(), names: Vec::new() };
        assert(r@ =~= Map::<SubId, T>::empty());
        r
    }

    /// The position of the text `name`, if it is there.
    fn position(&self, name: &String) -> (r: Option<usize>)
        ensures
            match find_name(named(self.names@), name@) {
                Some(i) => r matches Some(k) && k == i && i < self.names@.len(),
                None => r is None,
            },
    {
        proof {
            lemma_find_name(named(self.names@), name@);
        }
        let mut i: usize = 0;
        while i < self.names.len()
            invariant
                i <= self.names@.len(),
                forall|j: int| 0 <= j < i ==> named(self.names@)[j].0 != name@,
            decreases self.names@.len() - i,
        {
            assert(named(self.names@)[i as int].0 == self.names@[i as int].0@);
            if self.names[i].0 == *name {
                proof {
                    lemma_find_name(named(self.names@), name@);
                }
                return Some(i);
            }
            i = i + 1;
        }
        None
    }

    /// What stands for `id`, if anything does.
    pub fn get(&self, id: &SubscriptionId) -> (r: Option<&T>)
        ensures
            match r {
                Some(v) => self@.contains_key(id@) && self@[id@] == *v,
                None => !self@.contains_key(id@),
            },
    {
        broadcast use vstd::std_specs::hash::group_hash_axioms;

        match id {
            SubscriptionId::Number(n) => self.numbers.get(n),
            SubscriptionId::String(s) => match self.position(s) {
                Some(i) => Some(&self.names[i].1),
                None => None,
            },
        }
    }

    /// Lets `value` stand for `id`.
    pub fn insert(&mut self, id: SubscriptionId, value: T)
        ensures
            final(self)@ == old(self)@.insert(id@, value),
    {
        broadcast use vstd::std_specs::hash::group_hash_axioms;

        proof {
            use_type_invariant(&*self);
        }
        match id {
            SubscriptionId::Number(n) => {
                let mut numbers: HashMap<u64, T> = HashMap::new();
                std::mem::swap(&mut numbers, &mut self.numbers);
                numbers.insert(n, value);
                self.numbers = numbers;
                assert(self@ =~= old(self)@.insert(id@, value));
            },
            SubscriptionId::String(s) => {
                let position = self.position(&s);
                let ghost before = named(self.names@);
                proof {
                    lemma_find_name(before, s@);
                }
                let mut names: Vec<(String, T)> = Vec::new();
                std::mem::swap(&mut names, &mut self.names);
                match position {
                    Some(i) => {
                        names.set(i, (s, value));
                        assert(named(names@) =~= before.update(i as int, (s@, value)));
                    },
                    None => {
                        names.push((s, value));
                        assert(named(names@) =~= before.push((s@, value)));
                    },
                }
                let ghost after = named(names@);
                proof {
                    lemma_set(before, s@, value);
                    assert(after == with_member(before, s@, value));
                }
                self.names = names;
                assert(self@ =~= old(self)@.insert(id@, value));
            },
        }
    }

    /// Takes out what stands for `id`, if anything does.
    pub fn remove(&mut self, id: &SubscriptionId) -> (r: Option<T>)
        ensures
            final(self)@ == old(self)@.remove(id@),
            match r {
                Some(v) => old(self)@.contains_key(id@) && old(self)@[id@] == v,
                None => !old(self)@.contains_key(id@),
            },
    {
        broadcast use vstd::std_specs::hash::group_hash_axioms;

        proof {
            use_type_invariant(&*self);
        }
        match id {
            SubscriptionId::Number(n) => {
                let mut numbers: HashMap<u64, T> = HashMap::new();
                std::mem::swap(&mut numbers, &mut self.numbers);
                let r = numbers.remove(n);
                self.numbers = numbers;
                assert(self@ =~= old(self)@.remove(id@));
                r
            },
            SubscriptionId::String(s) => {
                let ghost before = named(self.names@);
                proof {
                    lemma_find_name(before, s@);
                    lemma_unset(before, s@);
                }
                match self.position(s) {
                    Some(i) => {
                        let mut names: Vec<(String, T)> = Vec::new();
                        std::mem::swap(&mut names, &mut self.names);
                        let (_, value) = names.remove(i);
                        assert(named(names@) =~= before.remove(i as int));
                        self.names = names;
                        assert(self@ =~= old(self)@.remove(id@));
                        Some(value)
                    },
                    None => {
                        assert(self@ =~= old(self)@.remove(id@));
                        None
                    },
                }
            },
        }
    }

    /// Takes everything out.
    pub fn clear(&mut self)
        ensures
            final(self)@ == Map::<SubId, T>::empty(),
    {
        proof {
            use_type_invariant(&*self);
        }
        self.numbers = HashMap::new();
        self.names = Vec::new();
        assert(self@ =~= Map::<SubId, T>::empty());
    }
}

/// Giving one name a value leaves the others as they are.
proof fn lemma_set<T>(m: Seq<(Seq<char>, T)>, name: Seq<char>, value: T)
    requires
        distinct_names(m),
    ensures
        distinct_names(with_member(m, name, value)),
        lookup(with_member(m, name, value), name) == Some(value),
        forall|other: Seq<char>|
            other != name ==> #[trigger] lookup(with_member(m, name, value), other) == lookup(
                m,
                other,
            ),
{
    lemma_find_name(m, name);
    let i = match find_name(m, name) {
        Some(i) => i,
        None => m.len() as int,
    };
    let after = with_member(m, name, value);
    assert forall|j: int, k: int| 0 <= j < k < after.len() implies after[j].0 != after[k].0 by {
        if find_name(m, name) is None && k == m.len() {
            assert(m[j].0 != name);
        } else {
            assert(m[j].0 != m[k].0);
        }
    }
    lemma_lookup_at(after, i);
    assert forall|other: Seq<char>| other != name implies #[trigger] lookup(after, other) == lookup(
        m,
        other,
    ) by {
        lemma_find_name(m, other);
        lemma_find_name(after, other);
        if find_name(m, other) is Some {
            let k = find_name(m, other)->0;
            assert(after[k] == m[k]);
            lemma_lookup_at(after, k);
        } else if find_name(after, other) is Some {
            let k = find_name(after, other)->0;
            assert(after[k] == m[k]);
        }
    }
}

/// Taking one name out leaves the others as they are.
proof fn lemma_unset<T>(m: Seq<(Seq<char>, T)>, name: Seq<char>)
    requires
        distinct_names(m),
    ensures
        find_name(m, name) matches Some(i) ==> {
            &&& distinct_names(m.remove(i))
            &&& lookup(m.remove(i), name) is None
            &&& forall|other: Seq<char>|
                other != name ==> #[trigger] lookup(m.remove(i), other) == lookup(m, other)
        },
{
    lemma_find_name(m, name);
    if find_name(m, name) is Some {
        let i = find_name(m, name)->0;
        let after = m.remove(i);
        lemma_find_name(after, name);
        assert forall|other: Seq<char>| other != name implies #[trigger] lookup(after, other)
            == lookup(m, other) by {
            lemma_find_name(m, other);
            lemma_find_name(after, other);
            if find_name(m, other) is Some {
                let k = find_name(m, other)->0;
                let j = if k < i { k } else { k - 1 };
                assert(after[j] == m[k]);
                lemma_lookup_at(after, j);
            } else if find_name(after, other) is Some {
                let j = find_name(after, other)->0;
                let k = if j < i { j } else { j + 1 };
                assert(m[k] == after[j]);
            }
        }
    }
}

} // verus!
