//! A map from peer identities.
use vstd::prelude::*;

verus! {

/// A map from identities to values, kept as a list in which no identity occurs twice.
pub struct IdMap<T> {
    entries: Vec<(String, T)>,
}

/// No identity occurs twice.
spec fn distinct<T>(s: Seq<(String, T)>) -> bool {
    forall|i: int, j: int| 0 <= i < j < s.len() ==> s[i].0@ != s[j].0@
}

/// The place of an identity, if it has one.
spec fn held_at<T>(s: Seq<(String, T)>, id: Seq<char>, i: int) -> bool {
    0 <= i < s.len() && s[i].0@ == id
}

/// The list as a map.
spec fn map_of<T: View>(s: Seq<(String, T)>) -> Map<Seq<char>, T::V> {
    Map::new(
        |id: Seq<char>| exists|i: int| held_at(s, id, i),
        |id: Seq<char>| s[choose|i: int| held_at(s, id, i)].1@,
    )
}

impl<T: View> View for IdMap<T> {
    type V = Map<Seq<char>, T::V>;

    closed spec fn view(&self) -> Map<Seq<char>, T::V> {
        map_of(self.entries@)
    }
}

/// What the map holds for the identity at place `i`.
proof fn lemma_at<T: View>(s: Seq<(String, T)>, i: int)
    requires
        distinct(s),
        0 <= i < s.len(),
    ensures
        map_of(s).contains_key(s[i].0@),
        map_of(s)[s[i].0@] == s[i].1@,
{
    assert(held_at(s, s[i].0@, i));
    let j = choose|j: int| held_at(s, s[i].0@, j);
    assert(held_at(s, s[i].0@, j));
    assert(i == j);
}

impl<T> IdMap<T> {
    #[verifier::type_invariant]
    spec fn inv(self) -> bool {
        distinct(self.entries@)
    }
}

impl<T: View> IdMap<T> {
    /// How many identities there are.
    pub closed spec fn size(&self) -> nat {
        self.entries@.len()
    }

    /// An empty map.
    pub fn new() -> (r: IdMap<T>)
        ensures
            r@ == Map::<Seq<char>, T::V>::empty(),
    {
        let entries: Vec<(String, T)> = Vec::new();
        assert(map_of(entries@) =~= Map::<Seq<char>, T::V>::empty());
        IdMap { entries }
    }

    fn position(entries: &Vec<(String, T)>, id: &String) -> (r: Option<usize>)
        ensures
            match r {
                Some(i) => held_at(entries@, id@, i as int),
                None => forall|i: int| !held_at(entries@, id@, i),
            },
    {
        let mut i: usize = 0;
        while i < entries.len()
            invariant
                i <= entries.len(),
                forall|j: int| 0 <= j < i ==> entries@[j].0@ != id@,
            decreases entries.len() - i,
        {
            if entries[i].0 == *id {
                return Some(i);
            }
            i += 1;
        }
        None
    }

    /// The value of an identity.
    pub fn get(&self, id: &String) -> (r: Option<&T>)
        ensures
            match r {
                Some(t) => self@.contains_key(id@) && t@ == self@[id@],
                None => !self@.contains_key(id@),
            },
    {
        proof {
            use_type_invariant(self);
        }
        match Self::position(&self.entries, id) {
            Some(i) => {
                proof {
                    lemma_at(self.entries@, i as int);
                }
                Some(&self.entries[i].1)
            },
            None => None,
        }
    }

    /// Takes an identity out.
    pub fn remove(&mut self, id: &String)
        ensures
            final(self)@ == old(self)@.remove(id@),
    {
        proof {
            use_type_invariant(&*self);
        }
        let mut entries: Vec<(String, T)> = Vec::new();
        std::mem::swap(&mut entries, &mut self.entries);
        let ghost before = entries@;
        if let Some(i) = Self::position(&entries, id) {
            entries.swap_remove(i);
            proof {
                lemma_remove(before, i as int, entries@);
            }
        } else {
            assert(map_of(before) =~= map_of(before).remove(id@));
        }
        self.entries = entries;
    }

    /// Sets the value of an identity.
    pub fn insert(&mut self, id: String, value: T)
        ensures
            final(self)@ == old(self)@.insert(id@, value@),
    {
        let ghost before = self@;
        self.remove(&id);
        proof {
            use_type_invariant(&*self);
        }
        let mut entries: Vec<(String, T)> = Vec::new();
        std::mem::swap(&mut entries, &mut self.entries);
        let ghost less = entries@;
        entries.push((id, value));
        proof {
            assert forall|i: int| 0 <= i < less.len() implies less[i].0@ != id@ by {
                lemma_at(less, i);
            }
            assert(entries@.drop_last() =~= less);
            lemma_push(less, entries@);
            assert(before.remove(id@).insert(id@, value@) =~= before.insert(id@, value@));
        }
        self.entries = entries;
    }

    /// Takes some identity out and hands it over with its value.
    pub fn pop(&mut self) -> (r: Option<(String, T)>)
        ensures
            match r {
                Some((id, value)) => {
                    &&& old(self)@.contains_key(id@)
                    &&& old(self)@[id@] == value@
                    &&& final(self)@ == old(self)@.remove(id@)
                    &&& final(self).size() < old(self).size()
                },
                None => old(self)@ == Map::<Seq<char>, T::V>::empty() && final(self)@ == old(
                    self,
                )@,
            },
    {
        proof {
            use_type_invariant(&*self);
        }
        let mut entries: Vec<(String, T)> = Vec::new();
        std::mem::swap(&mut entries, &mut self.entries);
        let ghost before = entries@;
        let last = entries.pop();
        proof {
            if before.len() == 0 {
                assert(map_of(before) =~= Map::<Seq<char>, T::V>::empty());
                assert(entries@ =~= before);
            } else {
                lemma_at(before, before.len() - 1);
                lemma_remove(before, before.len() - 1, entries@);
            }
        }
        self.entries = entries;
        last
    }
}

/// A list whose last entry has taken the place of entry `i` is the map without that identity.
proof fn lemma_remove<T: View>(before: Seq<(String, T)>, i: int, after: Seq<(String, T)>)
    requires
        distinct(before),
        0 <= i < before.len(),
        after.len() == before.len() - 1,
        forall|j: int| 0 <= j < after.len() && j != i ==> after[j] == before[j],
        i < after.len() ==> after[i] == before.last(),
    ensures
        distinct(after),
        map_of(after) == map_of(before).remove(before[i].0@),
{
    let n = after.len() as int;
    assert forall|id: Seq<char>| #[trigger]
        map_of(after).contains_key(id) <==> map_of(before).remove(before[i].0@).contains_key(
            id,
        ) by {
        if map_of(after).contains_key(id) {
            let j = choose|j: int| held_at(after, id, j);
            assert(held_at(after, id, j));
            assert(held_at(before, id, if j == i { n } else { j }));
        }
        if map_of(before).contains_key(id) && id != before[i].0@ {
            let j = choose|j: int| held_at(before, id, j);
            assert(held_at(before, id, j));
            assert(held_at(after, id, if j == n { i } else { j }));
        }
    }
    assert forall|id: Seq<char>| map_of(after).contains_key(id) implies #[trigger] map_of(after)[id]
        == map_of(before).remove(before[i].0@)[id] by {
        let j = choose|j: int| held_at(after, id, j);
        assert(held_at(after, id, j));
        lemma_at(after, j);
        lemma_at(before, if j == i { n } else { j });
    }
    assert(map_of(after) =~= map_of(before).remove(before[i].0@));
}

/// A list with a new identity at its end is the map with that identity.
proof fn lemma_push<T: View>(before: Seq<(String, T)>, after: Seq<(String, T)>)
    requires
        distinct(before),
        after.len() == before.len() + 1,
        after.drop_last() == before,
        forall|i: int| 0 <= i < before.len() ==> before[i].0@ != after.last().0@,
    ensures
        distinct(after),
        map_of(after) == map_of(before).insert(after.last().0@, after.last().1@),
{
    let n = before.len() as int;
    assert forall|i: int| 0 <= i < n implies after[i] == before[i] by {
        assert(after.drop_last()[i] == before[i]);
    }
    assert forall|id: Seq<char>| #[trigger]
        map_of(after).contains_key(id) <==> map_of(before).insert(
        after.last().0@,
        after.last().1@,
    ).contains_key(id) by {
        if map_of(after).contains_key(id) {
            let j = choose|j: int| held_at(after, id, j);
            assert(held_at(after, id, j));
            if j < n {
                assert(held_at(before, id, j));
            }
        }
        if map_of(before).contains_key(id) {
            let j = choose|j: int| held_at(before, id, j);
            assert(held_at(before, id, j));
            assert(held_at(after, id, j));
        }
        if id == after.last().0@ {
            assert(held_at(after, id, n));
        }
    }
    assert forall|id: Seq<char>| map_of(after).contains_key(id) implies #[trigger] map_of(after)[id]
        == map_of(before).insert(after.last().0@, after.last().1@)[id] by {
        let j = choose|j: int| held_at(after, id, j);
        assert(held_at(after, id, j));
        lemma_at(after, j);
        if j < n {
            lemma_at(before, j);
        }
    }
    assert(map_of(after) =~= map_of(before).insert(after.last().0@, after.last().1@));
}

} // verus!
