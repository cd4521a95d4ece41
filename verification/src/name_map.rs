//! A map from names to values that keeps its entries in the order in which the names came in.
use vstd::prelude::*;
use vstd::string::*;
use crate::text;

verus! {

/// A map from names to values. Under each name stands at most one value.
#[derive(Debug)]
pub struct NameMap<T> {
    entries: Vec<(String, T)>,
}

/// The map that has the given entries, where a later entry takes the place of an earlier one of
/// the same name.
pub open spec fn entries_map<A>(entries: Seq<(Seq<char>, A)>) -> Map<Seq<char>, A>
    decreases entries.len(),
{
    if entries.len() == 0 {
        Map::empty()
    } else {
        entries_map(entries.drop_last()).insert(entries.last().0, entries.last().1)
    }
}

/// No name stands twice.
pub open spec fn distinct_names<A>(entries: Seq<(Seq<char>, A)>) -> bool {
    forall|i: int, j: int|
        0 <= i < j < entries.len() ==> (#[trigger] entries[i]).0 != (#[trigger] entries[j]).0
}

/// Entries with distinct names stand in their map as they are, each under its name.
pub proof fn lemma_entries_map<A>(entries: Seq<(Seq<char>, A)>)
    requires
        distinct_names(entries),
    ensures
        entries_map(entries).dom().finite(),
        entries_map(entries).dom().len() == entries.len(),
        forall|i: int|
            0 <= i < entries.len() ==> entries_map(entries).contains_key(
                (#[trigger] entries[i]).0,
            ) && entries_map(entries)[entries[i].0] == entries[i].1,
        forall|k: Seq<char>|
            entries_map(entries).contains_key(k) ==> exists|i: int|
                0 <= i < entries.len() && (#[trigger] entries[i]).0 == k,
    decreases entries.len(),
{
    if entries.len() > 0 {
        let before = entries.drop_last();
        lemma_entries_map(before);
        assert(!entries_map(before).contains_key(entries.last().0)) by {
            if entries_map(before).contains_key(entries.last().0) {
                let i = choose|i: int| 0 <= i < before.len() && before[i].0 == entries.last().0;
                assert(entries[i].0 == before[i].0);
                assert(entries[entries.len() - 1].0 == entries.last().0);
            }
        }
        assert forall|i: int| 0 <= i < entries.len() implies entries_map(entries).contains_key(
            (#[trigger] entries[i]).0,
        ) && entries_map(entries)[entries[i].0] == entries[i].1 by {
            if i < entries.len() - 1 {
                assert(before[i] == entries[i]);
            }
        }
        assert forall|k: Seq<char>| entries_map(entries).contains_key(k) implies exists|i: int|
            0 <= i < entries.len() && (#[trigger] entries[i]).0 == k by {
            if k == entries.last().0 {
                assert(entries[entries.len() - 1].0 == k);
            } else {
                let i = choose|i: int| 0 <= i < before.len() && before[i].0 == k;
                assert(entries[i].0 == k);
            }
        }
    }
}

/// `value` stands in the map, under some name.
pub open spec fn holds<A>(m: Map<Seq<char>, A>, value: A) -> bool {
    exists|k: Seq<char>| #[trigger] m.contains_key(k) && m[k] == value
}

/// The entries that items make, each under the name that `key` gives it.
pub open spec fn keyed<A>(items: Seq<A>, key: spec_fn(A) -> Seq<char>) -> Seq<(Seq<char>, A)> {
    items.map_values(|item: A| (key(item), item))
}

/// The map that items make holds items, each under its name, and has a name for each of them.
pub proof fn lemma_keyed<A>(items: Seq<A>, key: spec_fn(A) -> Seq<char>)
    ensures
        forall|i: int|
            0 <= i < items.len() ==> entries_map(keyed(items, key)).contains_key(
                key(#[trigger] items[i]),
            ),
        forall|k: Seq<char>| #[trigger]
            entries_map(keyed(items, key)).contains_key(k) ==> items.contains(
                entries_map(keyed(items, key))[k],
            ) && key(entries_map(keyed(items, key))[k]) == k,
    decreases items.len(),
{
    let made = entries_map(keyed(items, key));
    if items.len() > 0 {
        let before = items.drop_last();
        let made_before = entries_map(keyed(before, key));
        lemma_keyed(before, key);
        assert(keyed(items, key).drop_last() =~= keyed(before, key));
        assert forall|i: int| 0 <= i < items.len() implies made.contains_key(
            key(#[trigger] items[i]),
        ) by {
            if i < before.len() {
                assert(before[i] == items[i]);
            }
        }
        assert forall|k: Seq<char>| #[trigger] made.contains_key(k) implies items.contains(made[k])
            && key(made[k]) == k by {
            if k == key(items.last()) {
                assert(items[items.len() - 1] == made[k]);
            } else {
                assert(made_before.contains_key(k));
                let i = choose|i: int| 0 <= i < before.len() && before[i] == made_before[k];
                assert(items[i] == made[k]);
            }
        }
    }
}

/// A list of all the values of a map, each of which stands under its name, makes that map again.
pub proof fn lemma_keyed_returns<A>(
    m: Map<Seq<char>, A>,
    items: Seq<A>,
    key: spec_fn(A) -> Seq<char>,
)
    requires
        forall|k: Seq<char>| #[trigger] m.contains_key(k) ==> key(m[k]) == k,
        forall|i: int| 0 <= i < items.len() ==> holds(m, #[trigger] items[i]),
        forall|k: Seq<char>| #[trigger] m.contains_key(k) ==> items.contains(m[k]),
    ensures
        entries_map(keyed(items, key)) == m,
{
    let made = entries_map(keyed(items, key));
    lemma_keyed(items, key);
    assert forall|k: Seq<char>| made.contains_key(k) == m.contains_key(k) by {
        if m.contains_key(k) {
            let i = choose|i: int| 0 <= i < items.len() && items[i] == m[k];
            assert(key(items[i]) == k);
        }
        if made.contains_key(k) {
            let i = choose|i: int| 0 <= i < items.len() && items[i] == made[k];
            let other = choose|other: Seq<char>| #[trigger]
                m.contains_key(other) && m[other] == items[i];
            assert(key(m[other]) == other);
        }
    }
    assert forall|k: Seq<char>| made.contains_key(k) implies made[k] == m[k] by {
        let i = choose|i: int| 0 <= i < items.len() && items[i] == made[k];
        let other = choose|other: Seq<char>| #[trigger]
            m.contains_key(other) && m[other] == items[i];
        assert(key(m[other]) == other);
    }
    assert(made =~= m);
}

/// A map of entries has finitely many names.
pub proof fn lemma_entries_map_finite<A>(entries: Seq<(Seq<char>, A)>)
    ensures
        entries_map(entries).dom().finite(),
    decreases entries.len(),
{
    if entries.len() > 0 {
        lemma_entries_map_finite(entries.drop_last());
    }
}

impl<T> NameMap<T> {
    /// No name stands twice.
    #[verifier::type_invariant]
    spec fn distinct(self) -> bool {
        forall|i: int, j: int|
            0 <= i < j < self.entries@.len() ==> (#[trigger] self.entries@[i]).0@ != (
            #[trigger] self.entries@[j]).0@
    }
}

impl<T: DeepView> NameMap<T> {
    /// The entries, in the order in which their names came in.
    pub closed spec fn entries(self) -> Seq<(Seq<char>, T::V)> {
        Seq::new(
            self.entries@.len(),
            |i: int| (self.entries@[i].0@, self.entries@[i].1.deep_view()),
        )
    }

    /// The map from each name to what the value under it says.
    pub open spec fn view(self) -> Map<Seq<char>, T::V> {
        entries_map(self.entries())
    }

    /// The two ways to say that no name stands twice agree.
    proof fn lemma_distinct(self)
        ensures
            self.distinct() <==> distinct_names(self.entries()),
    {
        if self.distinct() {
            assert forall|i: int, j: int| 0 <= i < j < self.entries().len() implies (
            #[trigger] self.entries()[i]).0 != (#[trigger] self.entries()[j]).0 by {
                assert(self.entries@[i].0@ != self.entries@[j].0@);
            }
        }
        if distinct_names(self.entries()) {
            assert forall|i: int, j: int| 0 <= i < j < self.entries@.len() implies (
            #[trigger] self.entries@[i]).0@ != (#[trigger] self.entries@[j]).0@ by {
                assert(self.entries()[i].0 != self.entries()[j].0);
            }
        }
    }

    /// The index of the entry of `name`.
    fn position(&self, name: &str) -> (r: Option<usize>)
        ensures
            match r {
                Some(i) => i < self.entries@.len() && self.entries@[i as int].0@ == name@
                    && self@.contains_key(name@) && self@[name@]
                    == self.entries@[i as int].1.deep_view(),
                None => !self@.contains_key(name@),
            },
    {
        proof {
            use_type_invariant(self);
            self.lemma_distinct();
            lemma_entries_map(self.entries());
        }
        let mut i: usize = 0;
        while i < self.entries.len()
            invariant
                distinct_names(self.entries()),
                i <= self.entries@.len(),
                forall|j: int| 0 <= j < i ==> (#[trigger] self.entries()[j]).0 != name@,
            decreases self.entries@.len() - i,
        {
            assert(self.entries()[i as int].0 == self.entries@[i as int].0@);
            if text::same_text(self.entries[i].0.as_str(), name) {
                proof {
                    lemma_entries_map(self.entries());
                }
                return Some(i);
            }
            i += 1;
        }
        None
    }

    /// The empty map.
    pub fn new() -> (r: Self)
        ensures
            r@ == Map::<Seq<char>, T::V>::empty(),
            r.entries() == Seq::<(Seq<char>, T::V)>::empty(),
    {
        let r = NameMap { entries: Vec::new() };
        assert(r.entries() =~= Seq::empty());
        r
    }

    /// The number of entries.
    pub fn len(&self) -> (r: usize)
        ensures
            r == self@.dom().len(),
            r == self.entries().len(),
            distinct_names(self.entries()),
    {
        proof {
            use_type_invariant(self);
            self.lemma_distinct();
            lemma_entries_map(self.entries());
        }
        self.entries.len()
    }

    /// Whether there is a value under `name`.
    pub fn contains_key(&self, name: &str) -> (r: bool)
        ensures
            r == self@.contains_key(name@),
    {
        self.position(name).is_some()
    }

    /// The value under `name`.
    pub fn get(&self, name: &str) -> (r: Option<&T>)
        ensures
            match r {
                Some(v) => self@.contains_key(name@) && self@[name@] == v.deep_view(),
                None => !self@.contains_key(name@),
            },
    {
        match self.position(name) {
            Some(i) => Some(&self.entries[i].1),
            None => None,
        }
    }

    /// The entry at the index `i`.
    pub fn entry(&self, i: usize) -> (r: (&String, &T))
        requires
            i < self.entries().len(),
        ensures
            self.entries()[i as int] == (r.0@, r.1.deep_view()),
            self@.contains_key(r.0@),
            self@[r.0@] == r.1.deep_view(),
    {
        proof {
            use_type_invariant(self);
            self.lemma_distinct();
            lemma_entries_map(self.entries());
            assert(self.entries()[i as int].0 == self.entries@[i as int].0@);
        }
        (&self.entries[i].0, &self.entries[i].1)
    }

    /// Puts `value` under `name`, in place of what stood there.
    pub fn insert(&mut self, name: String, value: T)
        ensures
            final(self)@ == old(self)@.insert(name@, value.deep_view()),
    {
        let ghost before = self.entries();
        proof {
            use_type_invariant(&*self);
            self.lemma_distinct();
            lemma_entries_map(before);
        }
        match self.position(name.as_str()) {
            Some(i) => {
                let mut entries: Vec<(String, T)> = Vec::new();
                std::mem::swap(&mut entries, &mut self.entries);
                entries.set(i, (name, value));
                let ghost after = (NameMap { entries }).entries();
                proof {
                    assert(after == before.update(i as int, (name@, value.deep_view())));
                    assert(before[i as int].0 == name@);
                    assert forall|a: int, b: int| 0 <= a < b < after.len() implies (
                    #[trigger] after[a]).0 != (#[trigger] after[b]).0 by {
                        assert(before[a].0 != before[b].0);
                    }
                    lemma_entries_map(after);
                    assert(after[i as int].0 == name@);
                    assert forall|k: Seq<char>|
                        entries_map(after).contains_key(k) == entries_map(before).insert(
                            name@,
                            value.deep_view(),
                        ).contains_key(k) by {
                        if entries_map(after).contains_key(k) {
                            let j = choose|j: int| 0 <= j < after.len() && after[j].0 == k;
                            assert(before[j].0 == k);
                        }
                        if entries_map(before).contains_key(k) {
                            let j = choose|j: int| 0 <= j < before.len() && before[j].0 == k;
                            assert(after[j].0 == k);
                        }
                    }
                    assert forall|k: Seq<char>| entries_map(after).contains_key(k) implies
                        entries_map(after)[k] == entries_map(before).insert(
                        name@,
                        value.deep_view(),
                    )[k] by {
                        let j = choose|j: int| 0 <= j < after.len() && after[j].0 == k;
                        assert(before[j].0 == k);
                        if j != i {
                            assert(after[j] == before[j]);
                        }
                    }
                    assert(entries_map(after) =~= entries_map(before).insert(
                        name@,
                        value.deep_view(),
                    ));
                }
                proof {
                    (NameMap { entries }).lemma_distinct();
                }
                self.entries = entries;
            },
            None => {
                let mut entries: Vec<(String, T)> = Vec::new();
                std::mem::swap(&mut entries, &mut self.entries);
                entries.push((name, value));
                let ghost after = (NameMap { entries }).entries();
                proof {
                    assert(after =~= before.push((name@, value.deep_view())));
                    assert(after.drop_last() =~= before);
                    assert forall|i: int, j: int| 0 <= i < j < after.len() implies (
                    #[trigger] after[i]).0 != (#[trigger] after[j]).0 by {
                        if j == before.len() {
                            assert(before[i].0 == after[i].0);
                        } else {
                            assert(before[i].0 != before[j].0);
                        }
                    }
                }
                proof {
                    (NameMap { entries }).lemma_distinct();
                }
                self.entries = entries;
            },
        }
    }

    /// Takes away the value under `name`, and says whether there was one.
    pub fn remove(&mut self, name: &str) -> (r: bool)
        ensures
            r == old(self)@.contains_key(name@),
            final(self)@ == old(self)@.remove(name@),
    {
        self.take(name).is_some()
    }

    /// Takes out the value under `name`.
    pub fn take(&mut self, name: &str) -> (r: Option<T>)
        ensures
            match r {
                Some(value) => old(self)@.contains_key(name@) && old(self)@[name@]
                    == value.deep_view(),
                None => !old(self)@.contains_key(name@),
            },
            final(self)@ == old(self)@.remove(name@),
    {
        let ghost before = self.entries();
        proof {
            use_type_invariant(&*self);
            self.lemma_distinct();
            lemma_entries_map(before);
        }
        match self.position(name) {
            Some(i) => {
                let mut entries: Vec<(String, T)> = Vec::new();
                std::mem::swap(&mut entries, &mut self.entries);
                let taken = entries.remove(i);
                let ghost after = (NameMap { entries }).entries();
                proof {
                    assert(after =~= before.remove(i as int));
                    assert forall|a: int, b: int| 0 <= a < b < after.len() implies (
                    #[trigger] after[a]).0 != (#[trigger] after[b]).0 by {
                        let a0 = if a < i { a } else { a + 1 };
                        let b0 = if b < i { b } else { b + 1 };
                        assert(before[a0].0 != before[b0].0);
                    }
                    lemma_entries_map(after);
                    assert(before[i as int].0 == name@);
                    assert forall|k: Seq<char>|
                        entries_map(after).contains_key(k) == entries_map(before).remove(
                            name@,
                        ).contains_key(k) by {
                        if entries_map(after).contains_key(k) {
                            let j = choose|j: int| 0 <= j < after.len() && after[j].0 == k;
                            let j0 = if j < i { j } else { j + 1 };
                            assert(before[j0].0 == k);
                        }
                        if entries_map(before).contains_key(k) && k != name@ {
                            let j = choose|j: int| 0 <= j < before.len() && before[j].0 == k;
                            let j1 = if j < i { j } else { j - 1 };
                            assert(after[j1].0 == k);
                        }
                    }
                    assert forall|k: Seq<char>| entries_map(after).contains_key(k) implies
                        entries_map(after)[k] == entries_map(before).remove(name@)[k] by {
                        let j = choose|j: int| 0 <= j < after.len() && after[j].0 == k;
                        let j0 = if j < i { j } else { j + 1 };
                        assert(before[j0] == after[j]);
                    }
                    assert(entries_map(after) =~= entries_map(before).remove(name@));
                }
                proof {
                    (NameMap { entries }).lemma_distinct();
                }
                self.entries = entries;
                Some(taken.1)
            },
            None => {
                assert(entries_map(before) =~= entries_map(before).remove(name@));
                None
            },
        }
    }
}

impl NameMap<String> {
    /// The same map again.
    pub fn duplicate(&self) -> (r: NameMap<String>)
        ensures
            r@ == self@,
    {
        let mut out: NameMap<String> = NameMap::new();
        let mut i: usize = 0;
        let n: usize = self.len();
        let ghost entries = self.entries();
        assert(entries.take(0) =~= Seq::empty());
        while i < n
            invariant
                i <= n,
                n == entries.len(),
                entries == self.entries(),
                out@ == entries_map(entries.take(i as int)),
            decreases n - i,
        {
            let entry = self.entry(i);
            out.insert(entry.0.clone(), entry.1.clone());
            proof {
                assert(entries.take(i + 1).drop_last() =~= entries.take(i as int));
            }
            i += 1;
        }
        assert(entries.take(n as int) =~= entries);
        out
    }
}

/// Of several entries with one name the last one stands, and the others stay as they were.
pub proof fn law_last_entry_stands<A>(
    entries: Seq<(Seq<char>, A)>,
    name: Seq<char>,
    value: A,
    other: Seq<char>,
)
    ensures
        entries_map(entries.push((name, value))).contains_key(name),
        entries_map(entries.push((name, value)))[name] == value,
        other != name ==> entries_map(entries.push((name, value))).contains_key(other)
            == entries_map(entries).contains_key(other),
        other != name && entries_map(entries).contains_key(other) ==> entries_map(
            entries.push((name, value)),
        )[other] == entries_map(entries)[other],
        !entries_map(Seq::<(Seq<char>, A)>::empty()).contains_key(other),
{
    assert(entries.push((name, value)).drop_last() =~= entries);
}

} // verus!
