//! Named text fields: a small map from text to text that keeps the order in
//! which names first came in.

use vstd::prelude::*;

use crate::text::same_text;

verus! {

broadcast use vstd::string::group_string_axioms;

/// The map that a list of entries stands for: a later entry wins over an
/// earlier one of the same name.
pub open spec fn fields_map(entries: Seq<(Seq<char>, Seq<char>)>) -> Map<Seq<char>, Seq<char>>
    decreases entries.len(),
{
    if entries.len() == 0 {
        Map::empty()
    } else {
        fields_map(entries.drop_last()).insert(entries.last().0, entries.last().1)
    }
}

/// No name occurs twice.
pub open spec fn distinct_names(entries: Seq<(Seq<char>, Seq<char>)>) -> bool {
    forall|i: int, j: int|
        0 <= i < j < entries.len() ==> (#[trigger] entries[i]).0 != (#[trigger] entries[j]).0
}

/// The names of the map are the names of the entries, and where no name occurs
/// twice, each entry's value is the value of its name.
proof fn lemma_lookup(entries: Seq<(Seq<char>, Seq<char>)>, name: Seq<char>)
    ensures
        fields_map(entries).dom().contains(name) <==> exists|i: int|
            0 <= i < entries.len() && (#[trigger] entries[i]).0 == name,
        distinct_names(entries) ==> forall|i: int|
            0 <= i < entries.len() && (#[trigger] entries[i]).0 == name
                ==> fields_map(entries)[name] == entries[i].1,
    decreases entries.len(),
{
    if entries.len() > 0 {
        let front = entries.drop_last();
        lemma_lookup(front, name);
        assert(forall|i: int| 0 <= i < front.len() ==> front[i] == #[trigger] entries[i]);
        if fields_map(entries).dom().contains(name) {
            if entries.last().0 == name {
                assert(entries[entries.len() - 1].0 == name);
            } else {
                let i = choose|i: int| 0 <= i < front.len() && (#[trigger] front[i]).0 == name;
                assert(entries[i].0 == name);
            }
        }
        if exists|i: int| 0 <= i < entries.len() && (#[trigger] entries[i]).0 == name {
            let i = choose|i: int| 0 <= i < entries.len() && (#[trigger] entries[i]).0 == name;
            if i < front.len() {
                assert(front[i].0 == name);
            }
        }
        if distinct_names(entries) {
            assert(distinct_names(front));
            assert forall|i: int|
                0 <= i < entries.len() && (#[trigger] entries[i]).0 == name implies fields_map(
                entries,
            )[name] == entries[i].1 by {
                if i < front.len() {
                    assert(front[i].0 == name);
                    assert(entries[entries.len() - 1].0 != name);
                }
            }
        }
    }
}

/// Where no name occurs twice, the map has one name per entry.
proof fn lemma_len(entries: Seq<(Seq<char>, Seq<char>)>)
    requires
        distinct_names(entries),
    ensures
        fields_map(entries).dom().finite(),
        fields_map(entries).dom().len() == entries.len(),
    decreases entries.len(),
{
    if entries.len() > 0 {
        let front = entries.drop_last();
        assert(distinct_names(front));
        lemma_len(front);
        lemma_lookup(front, entries.last().0);
        assert(!fields_map(front).dom().contains(entries.last().0)) by {
            if fields_map(front).dom().contains(entries.last().0) {
                let i = choose|i: int|
                    0 <= i < front.len() && (#[trigger] front[i]).0 == entries.last().0;
                assert(entries[i].0 == entries[entries.len() - 1].0);
            }
        }
        assert(fields_map(entries).dom() =~= fields_map(front).dom().insert(entries.last().0));
    }
}

/// Replacing the value of an entry in place sets that name's value.
proof fn lemma_update(entries: Seq<(Seq<char>, Seq<char>)>, at: int, value: Seq<char>)
    requires
        distinct_names(entries),
        0 <= at < entries.len(),
    ensures
        distinct_names(entries.update(at, (entries[at].0, value))),
        fields_map(entries.update(at, (entries[at].0, value))) == fields_map(entries).insert(
            entries[at].0,
            value,
        ),
    decreases entries.len(),
{
    let name = entries[at].0;
    let updated = entries.update(at, (name, value));
    let front = entries.drop_last();
    assert(forall|i: int|
        0 <= i < entries.len() ==> (#[trigger] updated[i]).0 == (#[trigger] entries[i]).0);
    assert(distinct_names(updated));
    if at == entries.len() - 1 {
        assert(updated.drop_last() =~= front);
        assert(fields_map(updated) =~= fields_map(entries).insert(name, value));
    } else {
        assert(distinct_names(front));
        lemma_update(front, at, value);
        assert(updated.drop_last() =~= front.update(at, (front[at].0, value)));
        assert(entries[at].0 != entries[entries.len() - 1].0);
        assert(fields_map(updated) =~= fields_map(entries).insert(name, value));
    }
}

/// The value of a name, if it has one.
pub open spec fn lookup(map: Map<Seq<char>, Seq<char>>, name: Seq<char>) -> Option<Seq<char>> {
    if map.dom().contains(name) {
        Some(map[name])
    } else {
        None
    }
}

/// A map from names to texts.
#[derive(Debug)]
pub struct TextMap {
    entries: Vec<(String, String)>,
}

/// The entries as mathematical texts.
spec fn entries_view(entries: Seq<(String, String)>) -> Seq<(Seq<char>, Seq<char>)> {
    Seq::new(entries.len(), |i: int| (entries[i].0@, entries[i].1@))
}

impl View for TextMap {
    type V = Map<Seq<char>, Seq<char>>;

    closed spec fn view(&self) -> Map<Seq<char>, Seq<char>> {
        fields_map(entries_view(self.entries@))
    }
}

impl Clone for TextMap {
    fn clone(&self) -> (copy: TextMap)
        ensures
            copy@ == self@,
    {
        proof {
            use_type_invariant(self);
        }
        let mut entries: Vec<(String, String)> = Vec::new();
        let mut i: usize = 0;
        while i < self.entries.len()
            invariant
                i <= self.entries@.len(),
                entries@ == self.entries@.take(i as int),
            decreases self.entries@.len() - i,
        {
            entries.push((self.entries[i].0.clone(), self.entries[i].1.clone()));
            i += 1;
        }
        assert(entries@ =~= self.entries@);
        TextMap { entries }
    }
}

impl TextMap {
    #[verifier::type_invariant]
    spec fn well_formed(self) -> bool {
        distinct_names(entries_view(self.entries@))
    }

    /// The map without any name.
    pub fn new() -> (map: TextMap)
        ensures
            map@ == Map::<Seq<char>, Seq<char>>::empty(),
    {
        TextMap { entries: Vec::new() }
    }

    /// How many names there are.
    pub fn len(&self) -> (n: usize)
        ensures
            n == self@.dom().len(),
            self@.dom().finite(),
    {
        proof {
            use_type_invariant(self);
            lemma_len(entries_view(self.entries@));
        }
        self.entries.len()
    }

    /// Whether there is no name at all.
    pub fn is_empty(&self) -> (empty: bool)
        ensures
            empty == (self@ == Map::<Seq<char>, Seq<char>>::empty()),
    {
        proof {
            use_type_invariant(self);
            lemma_len(entries_view(self.entries@));
            if self.entries@.len() > 0 {
                assert(self@ != Map::<Seq<char>, Seq<char>>::empty());
            }
        }
        self.entries.len() == 0
    }

    /// The position of the entry with this name.
    fn position(entries: &Vec<(String, String)>, name: &str) -> (at: Option<usize>)
        ensures
            match at {
                Some(i) => i < entries@.len() && entries@[i as int].0@ == name@,
                None => forall|i: int| 0 <= i < entries@.len() ==> (#[trigger] entries@[i]).0@ != name@,
            },
    {
        let mut i: usize = 0;
        while i < entries.len()
            invariant
                i <= entries@.len(),
                forall|j: int| 0 <= j < i ==> (#[trigger] entries@[j]).0@ != name@,
            decreases entries@.len() - i,
        {
            if same_text(entries[i].0.as_str(), name) {
                return Some(i);
            }
            i += 1;
        }
        None
    }

    /// The value of `name`.
    pub fn get(&self, name: &str) -> (value: Option<&str>)
        ensures
            match value {
                Some(v) => self@.dom().contains(name@) && v@ == self@[name@],
                None => !self@.dom().contains(name@),
            },
    {
        proof {
            use_type_invariant(self);
            lemma_lookup(entries_view(self.entries@), name@);
        }
        match Self::position(&self.entries, name) {
            Some(i) => {
                assert(entries_view(self.entries@)[i as int].0 == name@);
                Some(self.entries[i].1.as_str())
            },
            None => {
                assert(forall|i: int| #![trigger entries_view(self.entries@)[i]]
                    0 <= i < self.entries@.len() ==> entries_view(self.entries@)[i].0
                        == self.entries@[i].0@);
                None
            },
        }
    }

    /// A copy of the value of `name`.
    pub fn get_owned(&self, name: &str) -> (value: Option<String>)
        ensures
            crate::text::opt_view(value) == lookup(self@, name@),
    {
        match self.get(name) {
            Some(v) => Some(v.to_owned()),
            None => None,
        }
    }

    /// Sets the value of `name`, in place of any value it had.
    pub fn insert(&mut self, name: String, value: String)
        ensures
            final(self)@ == old(self)@.insert(name@, value@),
    {
        proof {
            use_type_invariant(&*self);
        }
        let mut entries: Vec<(String, String)> = Vec::new();
        std::mem::swap(&mut entries, &mut self.entries);
        let ghost before = entries_view(entries@);
        let ghost new_name = name@;
        let ghost new_value = value@;
        match Self::position(&entries, name.as_str()) {
            Some(i) => {
                proof {
                    assert(before[i as int].0 == new_name);
                    lemma_update(before, i as int, new_value);
                }
                entries.set(i, (name, value));
                assert(entries_view(entries@) =~= before.update(i as int, (new_name, new_value)));
            },
            None => {
                entries.push((name, value));
                proof {
                    let after = entries_view(entries@);
                    assert(after.drop_last() =~= before);
                    assert forall|i: int, j: int| 0 <= i < j < after.len() implies (#[trigger] after[i]).0
                        != (#[trigger] after[j]).0 by {
                        if j < before.len() {
                            assert(before[i] == after[i] && before[j] == after[j]);
                        }
                    }
                }
            },
        }
        self.entries = entries;
    }

    /// Takes every value of `other` over: where both have a name, the value in
    /// `other` wins.
    pub fn merge(&mut self, other: TextMap)
        ensures
            final(self)@ == old(self)@.union_prefer_right(other@),
    {
        let mut i: usize = 0;
        proof {
            assert(entries_view(other.entries@.take(0)) =~= Seq::empty());
            assert(self@.union_prefer_right(Map::empty()) =~= self@);
        }
        while i < other.entries.len()
            invariant
                i <= other.entries@.len(),
                self@ == old(self)@.union_prefer_right(
                    fields_map(entries_view(other.entries@.take(i as int))),
                ),
            decreases other.entries@.len() - i,
        {
            let ghost done = entries_view(other.entries@.take(i as int));
            let ghost more = entries_view(other.entries@.take(i + 1));
            self.insert(other.entries[i].0.clone(), other.entries[i].1.clone());
            proof {
                assert(more.drop_last() =~= done);
                assert(self@ =~= old(self)@.union_prefer_right(fields_map(more)));
            }
            i += 1;
        }
        assert(other.entries@.take(i as int) =~= other.entries@);
    }
}

} // verus!
