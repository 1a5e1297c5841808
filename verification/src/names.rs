//! A map keyed by names.
use vstd::prelude::*;

verus! {

/// A map from names to values. A name occurs at most once.
#[derive(Debug)]
pub struct NameMap<V> {
    entries: Vec<(String, V)>,
}

/// What a list of entries with distinct names maps each name to.
pub open spec fn entries_map<V>(entries: Seq<(String, V)>) -> Map<Seq<char>, V>
    decreases entries.len(),
{
    if entries.len() == 0 {
        Map::empty()
    } else {
        entries_map(entries.drop_last()).insert(entries.last().0@, entries.last().1)
    }
}

/// No two entries share a name.
pub open spec fn distinct_names<V>(entries: Seq<(String, V)>) -> bool {
    forall|i: int, j: int|
        0 <= i < j < entries.len() ==> (#[trigger] entries[i]).0@ != (#[trigger] entries[j]).0@
}

proof fn lemma_entries_map<V>(entries: Seq<(String, V)>, name: Seq<char>)
    requires
        distinct_names(entries),
    ensures
        entries_map(entries).dom().contains(name) <==> exists|i: int|
            0 <= i < entries.len() && (#[trigger] entries[i]).0@ == name,
        forall|i: int|
            0 <= i < entries.len() && (#[trigger] entries[i]).0@ == name ==> entries_map(
                entries,
            )[name] == entries[i].1,
    decreases entries.len(),
{
    if entries.len() > 0 {
        let init = entries.drop_last();
        assert(distinct_names(init)) by {
            assert forall|i: int, j: int| 0 <= i < j < init.len() implies (#[trigger] init[i]).0@
                != (#[trigger] init[j]).0@ by {
                assert(init[i] == entries[i]);
                assert(init[j] == entries[j]);
            }
        }
        lemma_entries_map(init, name);
        assert forall|i: int| 0 <= i < entries.len() && (#[trigger] entries[i]).0@ == name implies
            entries_map(entries)[name] == entries[i].1 && entries_map(entries).dom().contains(
            name,
        ) by {
            if i < init.len() {
                assert(init[i] == entries[i]);
                assert(entries[i].0@ != entries[entries.len() - 1].0@);
            }
        }
        if entries_map(entries).dom().contains(name) {
            if name == entries.last().0@ {
                assert(entries[entries.len() - 1].0@ == name);
            } else {
                let i = choose|i: int| 0 <= i < init.len() && (#[trigger] init[i]).0@ == name;
                assert(entries[i].0@ == name);
            }
        }
    }
}

impl<V> NameMap<V> {
    #[verifier::type_invariant]
    spec fn wf(self) -> bool {
        distinct_names(self.entries@)
    }

    /// What the map holds.
    pub closed spec fn view(&self) -> Map<Seq<char>, V> {
        entries_map(self.entries@)
    }

    /// The empty map.
    pub fn new() -> (map: Self)
        ensures
            map@ == Map::<Seq<char>, V>::empty(),
    {
        NameMap { entries: Vec::new() }
    }

    fn position(&self, name: &str) -> (found: Option<usize>)
        ensures
            match found {
                Some(i) => i < self.entries@.len() && self.entries@[i as int].0@ == name@
                    && self@.dom().contains(name@) && self@[name@] == self.entries@[i as int].1,
                None => !self@.dom().contains(name@) && forall|i: int|
                    0 <= i < self.entries@.len() ==> (#[trigger] self.entries@[i]).0@ != name@,
            },
    {
        proof {
            use_type_invariant(self);
            lemma_entries_map(self.entries@, name@);
        }
        let mut i: usize = 0;
        while i < self.entries.len()
            invariant
                i <= self.entries@.len(),
                forall|j: int| 0 <= j < i ==> (#[trigger] self.entries@[j]).0@ != name@,
                forall|j: int|
                    0 <= j < self.entries@.len() && (#[trigger] self.entries@[j]).0@ == name@
                        ==> self@[name@] == self.entries@[j].1,
                self@.dom().contains(name@) <==> exists|j: int|
                    0 <= j < self.entries@.len() && (#[trigger] self.entries@[j]).0@ == name@,
            decreases self.entries@.len() - i,
        {
            if same_text(self.entries[i].0.as_str(), name) {
                return Some(i);
            }
            i = i + 1;
        }
        None
    }

    /// The value under a name, if there is one.
    pub fn get(&self, name: &str) -> (value: Option<&V>)
        ensures
            match value {
                Some(v) => self@.dom().contains(name@) && *v == self@[name@],
                None => !self@.dom().contains(name@),
            },
    {
        match self.position(name) {
            Some(i) => Some(&self.entries[i].1),
            None => None,
        }
    }

    /// Whether a name is present.
    pub fn contains_key(&self, name: &str) -> (present: bool)
        ensures
            present == self@.dom().contains(name@),
    {
        self.position(name).is_some()
    }

    /// Puts a value under a name, in place of any value already there.
    pub fn insert(&mut self, name: String, value: V)
        ensures
            final(self)@ == old(self)@.insert(name@, value),
    {
        proof {
            use_type_invariant(&*self);
        }
        let found = self.position(name.as_str());
        let mut entries: Vec<(String, V)> = Vec::new();
        std::mem::swap(&mut entries, &mut self.entries);
        let ghost before = entries@;
        match found {
            Some(i) => {
                entries.remove(i);
                proof {
                    let rest = before.remove(i as int);
                    assert(entries@ == rest);
                    assert forall|a: int, b: int| 0 <= a < b < rest.len() implies (
                    #[trigger] rest[a]).0@ != (#[trigger] rest[b]).0@ by {
                        let x = if a < i { a } else { a + 1 };
                        let y = if b < i { b } else { b + 1 };
                        assert(rest[a] == before[x]);
                        assert(rest[b] == before[y]);
                    }
                    assert forall|a: int| 0 <= a < rest.len() implies (#[trigger] rest[a]).0@
                        != name@ by {
                        let x = if a < i { a } else { a + 1 };
                        assert(rest[a] == before[x]);
                        assert(before[i as int].0@ == name@);
                    }
                }
            },
            None => {},
        }
        let ghost kept = entries@;
        entries.push((name, value));
        proof {
            assert(entries@.drop_last() =~= kept);
            assert forall|a: int, b: int| 0 <= a < b < entries@.len() implies (
            #[trigger] entries@[a]).0@ != (#[trigger] entries@[b]).0@ by {
                assert(entries@[a] == kept[a]);
                if b < kept.len() {
                    assert(entries@[b] == kept[b]);
                }
            }
            let wanted = entries_map(before).insert(name@, value);
            let held = entries_map(entries@);
            assert forall|k: Seq<char>|
                (#[trigger] held.dom().contains(k)) == wanted.dom().contains(k) && (held.dom().contains(
                    k,
                ) ==> held[k] == wanted[k]) by {
                lemma_entries_map(before, k);
                lemma_entries_map(kept, k);
                if k != name@ {
                    if entries_map(before).dom().contains(k) {
                        let x = choose|x: int|
                            0 <= x < before.len() && (#[trigger] before[x]).0@ == k;
                        match found {
                            Some(i) => {
                                let y = if x < i { x } else { x - 1 };
                                assert(kept[y] == before[x]);
                            },
                            None => {},
                        }
                    }
                    if entries_map(kept).dom().contains(k) {
                        let y = choose|y: int| 0 <= y < kept.len() && (#[trigger] kept[y]).0@ == k;
                        match found {
                            Some(i) => {
                                let x = if y < i { y } else { y + 1 };
                                assert(kept[y] == before[x]);
                            },
                            None => {},
                        }
                    }
                }
            }
            assert(held =~= wanted);
        }
        self.entries = entries;
    }
}

/// Whether two texts are the same.
pub fn same_text(a: &str, b: &str) -> (same: bool)
    ensures
        same == (a@ == b@),
{
    let a = a.to_owned();
    let b = b.to_owned();
    a == b
}

} // verus!
