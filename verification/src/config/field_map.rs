//! The free-form settings of an exporter: texts found by a key.

use crate::text::same_text;
use vstd::prelude::*;

verus! {

/// A finite map from keys to values, both texts: a list of entries in which
/// no key occurs twice.
#[derive(Debug)]
pub struct FieldMap {
    entries: Vec<(String, String)>,
}

/// Whether no two of `entries` have the same key.
pub open spec fn keys_differ(entries: Seq<(String, String)>) -> bool {
    forall|i: int, j: int|
        0 <= i < j < entries.len() ==> (#[trigger] entries[i]).0@ != (#[trigger] entries[j]).0@
}

/// Whether one of `entries` has the key `key`.
pub open spec fn has_key(entries: Seq<(String, String)>, key: Seq<char>) -> bool {
    exists|i: int| 0 <= i < entries.len() && (#[trigger] entries[i]).0@ == key
}

/// The place of an entry of `entries` with the key `key`.
pub open spec fn place_of(entries: Seq<(String, String)>, key: Seq<char>) -> int {
    choose|i: int| 0 <= i < entries.len() && (#[trigger] entries[i]).0@ == key
}

/// The map that `entries` spell out.
pub open spec fn map_of(entries: Seq<(String, String)>) -> Map<Seq<char>, Seq<char>> {
    Map::new(
        |key: Seq<char>| has_key(entries, key),
        |key: Seq<char>| entries[place_of(entries, key)].1@,
    )
}

/// An entry that is appended under a key of its own is added to the map.
pub proof fn lemma_map_of_push(entries: Seq<(String, String)>, entry: (String, String))
    requires
        keys_differ(entries),
        !has_key(entries, entry.0@),
    ensures
        keys_differ(entries.push(entry)),
        map_of(entries.push(entry)) == map_of(entries).insert(entry.0@, entry.1@),
{
    let grown = entries.push(entry);
    assert forall|i: int, j: int| 0 <= i < j < grown.len() implies (#[trigger] grown[i]).0@ != (
    #[trigger] grown[j]).0@ by {
        if j == entries.len() {
            assert(grown[i] == entries[i]);
        } else {
            assert(grown[i] == entries[i] && grown[j] == entries[j]);
        }
    }
    assert forall|key: Seq<char>| has_key(grown, key) <==> (has_key(entries, key) || key
        == entry.0@) by {
        if has_key(entries, key) {
            let i = place_of(entries, key);
            assert(grown[i] == entries[i]);
        }
        if key == entry.0@ {
            assert(grown[entries.len() as int] == entry);
        }
        if has_key(grown, key) {
            let i = place_of(grown, key);
            if i < entries.len() {
                assert(grown[i] == entries[i]);
            }
        }
    }
    assert forall|key: Seq<char>| has_key(grown, key) implies #[trigger] map_of(grown)[key]
        == map_of(entries).insert(entry.0@, entry.1@)[key] by {
        let i = place_of(grown, key);
        if key == entry.0@ {
            if i < entries.len() {
                assert(grown[i] == entries[i]);
            }
        } else {
            assert(grown[i] == entries[i]);
            let k = place_of(entries, key);
            assert(grown[k] == entries[k]);
            if i != k {
                assert(grown[if i < k { i } else { k }].0@ != grown[if i < k { k } else { i }].0@);
            }
        }
    }
    assert(map_of(grown) =~= map_of(entries).insert(entry.0@, entry.1@));
}

/// An entry that takes the place of one with the same key changes the
/// value under that key.
pub proof fn lemma_map_of_update(
    entries: Seq<(String, String)>,
    at: int,
    entry: (String, String),
)
    requires
        keys_differ(entries),
        0 <= at < entries.len(),
        entries[at].0@ == entry.0@,
    ensures
        keys_differ(entries.update(at, entry)),
        map_of(entries.update(at, entry)) == map_of(entries).insert(entry.0@, entry.1@),
{
    let changed = entries.update(at, entry);
    assert forall|i: int, j: int| 0 <= i < j < changed.len() implies (#[trigger] changed[i]).0@
        != (#[trigger] changed[j]).0@ by {
        assert(changed[i].0@ == entries[i].0@);
        assert(changed[j].0@ == entries[j].0@);
    }
    assert forall|key: Seq<char>| has_key(changed, key) <==> has_key(entries, key) by {
        if has_key(entries, key) {
            let i = place_of(entries, key);
            assert(changed[i].0@ == entries[i].0@);
        }
        if has_key(changed, key) {
            let i = place_of(changed, key);
            assert(changed[i].0@ == entries[i].0@);
        }
    }
    assert(has_key(entries, entry.0@));
    assert forall|key: Seq<char>| has_key(changed, key) implies #[trigger] map_of(changed)[key]
        == map_of(entries).insert(entry.0@, entry.1@)[key] by {
        let i = place_of(changed, key);
        let k = place_of(entries, key);
        assert(changed[i].0@ == entries[i].0@);
        assert(changed[k].0@ == entries[k].0@);
        if i != k {
            assert(entries[if i < k { i } else { k }].0@ != entries[if i < k { k } else { i }].0@);
        }
        if key == entry.0@ {
            if i != at {
                assert(entries[if i < at { i } else { at }].0@ != entries[if i < at {
                    at
                } else {
                    i
                }].0@);
            }
        }
    }
    assert(map_of(changed) =~= map_of(entries).insert(entry.0@, entry.1@));
}

/// A list in which no key occurs twice spells out a map with an entry for
/// each of its own.
pub proof fn lemma_map_of_len(entries: Seq<(String, String)>)
    requires
        keys_differ(entries),
    ensures
        map_of(entries).dom().finite(),
        map_of(entries).dom().len() == entries.len(),
    decreases entries.len(),
{
    if entries.len() == 0 {
        assert(map_of(entries).dom() =~= Set::<Seq<char>>::empty());
    } else {
        let front = entries.drop_last();
        let last = entries.last();
        assert forall|i: int, j: int| 0 <= i < j < front.len() implies (#[trigger] front[i]).0@
            != (#[trigger] front[j]).0@ by {
            assert(front[i] == entries[i] && front[j] == entries[j]);
        }
        assert(!has_key(front, last.0@)) by {
            if has_key(front, last.0@) {
                let i = place_of(front, last.0@);
                assert(front[i] == entries[i]);
                assert(entries[i].0@ != entries[entries.len() - 1].0@);
            }
        }
        lemma_map_of_len(front);
        lemma_map_of_push(front, last);
        assert(front.push(last) =~= entries);
        assert(map_of(entries).dom() =~= map_of(front).dom().insert(last.0@));
        assert(!map_of(front).dom().contains(last.0@));
    }
}

/// The map that grows when `entries` are put in one after the other, a later
/// one in place of an earlier one with its key.
pub open spec fn inserted_all(entries: Seq<(String, String)>) -> Map<Seq<char>, Seq<char>>
    decreases entries.len(),
{
    if entries.len() == 0 {
        Map::empty()
    } else {
        inserted_all(entries.drop_last()).insert(entries.last().0@, entries.last().1@)
    }
}

impl View for FieldMap {
    type V = Map<Seq<char>, Seq<char>>;

    closed spec fn view(&self) -> Map<Seq<char>, Seq<char>> {
        map_of(self.entries@)
    }
}

impl FieldMap {
    /// Whether no key occurs twice. Every map that this module hands out is
    /// well formed, and its methods keep a map so.
    pub closed spec fn wf(&self) -> bool {
        keys_differ(self.entries@)
    }

    /// A map without entries.
    pub fn new() -> (fields: FieldMap)
        ensures
            fields.wf(),
            fields@ == Map::<Seq<char>, Seq<char>>::empty(),
    {
        let fields = FieldMap { entries: Vec::new() };
        assert(fields@ =~= Map::<Seq<char>, Seq<char>>::empty());
        fields
    }

    /// Where the entry under `key` stands, if there is one.
    fn find(&self, key: &str) -> (place: Option<usize>)
        ensures
            match place {
                Some(at) => at < self.entries@.len() && self.entries@[at as int].0@ == key@,
                None => !has_key(self.entries@, key@),
            },
    {
        let mut i: usize = 0;
        while i < self.entries.len()
            invariant
                0 <= i <= self.entries@.len(),
                forall|k: int| 0 <= k < i ==> (#[trigger] self.entries@[k]).0@ != key@,
            decreases self.entries@.len() - i,
        {
            if same_text(self.entries[i].0.as_str(), key) {
                return Some(i);
            }
            i = i + 1;
        }
        None
    }

    /// Whether there is an entry under `key`.
    pub fn contains_key(&self, key: &str) -> (found: bool)
        ensures
            found == self@.contains_key(key@),
    {
        self.find(key).is_some()
    }

    /// The value under `key`, if there is one.
    pub fn get(&self, key: &str) -> (value: Option<&String>)
        requires
            self.wf(),
        ensures
            match value {
                Some(text) => self@.contains_key(key@) && self@[key@] == text@,
                None => !self@.contains_key(key@),
            },
    {
        match self.find(key) {
            Some(at) => {
                proof {
                    let chosen = place_of(self.entries@, key@);
                    if chosen != at {
                        assert(self.entries@[if chosen < at {
                            chosen
                        } else {
                            at as int
                        }].0@ != self.entries@[if chosen < at {
                            at as int
                        } else {
                            chosen
                        }].0@);
                    }
                }
                Some(&self.entries[at].1)
            },
            None => None,
        }
    }

    /// Puts `value` under `key`, in place of what may stand there.
    pub fn insert(&mut self, key: String, value: String)
        requires
            old(self).wf(),
        ensures
            final(self).wf(),
            final(self)@ == old(self)@.insert(key@, value@),
    {
        match self.find(key.as_str()) {
            Some(at) => {
                proof {
                    lemma_map_of_update(self.entries@, at as int, (key, value));
                }
                self.entries.set(at, (key, value));
            },
            None => {
                proof {
                    lemma_map_of_push(self.entries@, (key, value));
                }
                self.entries.push((key, value));
            },
        }
    }

    /// The number of entries.
    pub fn len(&self) -> (count: usize)
        requires
            self.wf(),
        ensures
            self@.dom().finite(),
            count == self@.dom().len(),
    {
        proof {
            lemma_map_of_len(self.entries@);
        }
        self.entries.len()
    }

    /// The entries as a list, each key once.
    pub fn entries(&self) -> (entries: &Vec<(String, String)>)
        requires
            self.wf(),
        ensures
            keys_differ(entries@),
            map_of(entries@) == self@,
    {
        &self.entries
    }

    /// The map that holds `pairs`, a later pair in place of an earlier one
    /// with its key.
    pub fn from_pairs(pairs: Vec<(String, String)>) -> (fields: FieldMap)
        ensures
            fields.wf(),
            fields@ == inserted_all(pairs@),
    {
        let mut fields = FieldMap::new();
        let mut i: usize = 0;
        while i < pairs.len()
            invariant
                0 <= i <= pairs@.len(),
                fields.wf(),
                fields@ == inserted_all(pairs@.take(i as int)),
            decreases pairs@.len() - i,
        {
            proof {
                assert(pairs@.take(i + 1).drop_last() =~= pairs@.take(i as int));
            }
            fields.insert(pairs[i].0.clone(), pairs[i].1.clone());
            i = i + 1;
        }
        proof {
            assert(pairs@.take(i as int) =~= pairs@);
        }
        fields
    }

    /// Takes over every entry of `other` whose key this map lacks.
    pub fn fill_from(&mut self, other: &FieldMap)
        requires
            old(self).wf(),
            other.wf(),
        ensures
            final(self).wf(),
            final(self)@ == other@.union_prefer_right(old(self)@),
    {
        let mut i: usize = 0;
        proof {
            assert(map_of(other.entries@.take(0)) =~= Map::<Seq<char>, Seq<char>>::empty());
            assert(self@ =~= map_of(other.entries@.take(0)).union_prefer_right(old(self)@));
        }
        while i < other.entries.len()
            invariant
                0 <= i <= other.entries@.len(),
                self.wf(),
                other.wf(),
                self@ == map_of(other.entries@.take(i as int)).union_prefer_right(old(self)@),
            decreases other.entries@.len() - i,
        {
            let ghost seen = other.entries@.take(i as int);
            let ghost before = self@;
            proof {
                let entry = other.entries@[i as int];
                assert forall|a: int, b: int| 0 <= a < b < seen.len() implies (
                #[trigger] seen[a]).0@ != (#[trigger] seen[b]).0@ by {
                    assert(seen[a] == other.entries@[a] && seen[b] == other.entries@[b]);
                }
                assert(!has_key(seen, entry.0@)) by {
                    if has_key(seen, entry.0@) {
                        let a = place_of(seen, entry.0@);
                        assert(seen[a] == other.entries@[a]);
                        assert(other.entries@[a].0@ != other.entries@[i as int].0@);
                    }
                }
                lemma_map_of_push(seen, entry);
                assert(seen.push(entry) =~= other.entries@.take(i + 1));
            }
            if !self.contains_key(other.entries[i].0.as_str()) {
                self.insert(other.entries[i].0.clone(), other.entries[i].1.clone());
            }
            proof {
                assert(self@ =~= map_of(other.entries@.take(i + 1)).union_prefer_right(
                    old(self)@,
                ));
            }
            i = i + 1;
        }
        proof {
            assert(other.entries@.take(i as int) =~= other.entries@);
        }
    }
}

impl Clone for FieldMap {
    fn clone(&self) -> (copy: FieldMap)
        ensures
            copy@ == self@,
            self.wf() ==> copy.wf(),
    {
        let mut entries: Vec<(String, String)> = Vec::new();
        let mut i: usize = 0;
        while i < self.entries.len()
            invariant
                0 <= i <= self.entries@.len(),
                entries@ == self.entries@.take(i as int),
            decreases self.entries@.len() - i,
        {
            proof {
                assert(self.entries@.take(i + 1) =~= self.entries@.take(i as int).push(
                    self.entries@[i as int],
                ));
            }
            entries.push((self.entries[i].0.clone(), self.entries[i].1.clone()));
            i = i + 1;
        }
        proof {
            assert(self.entries@.take(i as int) =~= self.entries@);
        }
        FieldMap { entries }
    }
}

} // verus!
