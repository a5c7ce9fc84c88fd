//! A map from texts to values.

use vstd::prelude::*;
use vstd::string::*;

use crate::text::same;

verus! {

/// The map that a list of entries stands for; of two entries with one key the later counts.
pub open spec fn assoc<V>(entries: Seq<(String, V)>) -> Map<Seq<char>, V>
    decreases entries.len(),
{
    if entries.len() == 0 {
        Map::empty()
    } else {
        assoc(entries.drop_last()).insert(entries.last().0@, entries.last().1)
    }
}

/// A map with texts as keys. Its view maps the keys' characters to the values.
#[derive(Debug, PartialEq)]
pub struct StrMap<V> {
    pub entries: Vec<(String, V)>,
}

impl<V> View for StrMap<V> {
    type V = Map<Seq<char>, V>;

    open spec fn view(&self) -> Map<Seq<char>, V> {
        assoc(self.entries@)
    }
}

/// The position of the last entry with the given key.
pub open spec fn last_entry<V>(entries: Seq<(String, V)>, key: Seq<char>, i: int) -> bool {
    &&& 0 <= i < entries.len()
    &&& entries[i].0@ == key
    &&& forall|j: int| i < j < entries.len() ==> (#[trigger] entries[j]).0@ != key
}

pub proof fn assoc_lookup<V>(entries: Seq<(String, V)>, key: Seq<char>, i: int)
    requires
        last_entry(entries, key, i),
    ensures
        assoc(entries).dom().contains(key),
        assoc(entries)[key] == entries[i].1,
    decreases entries.len(),
{
    if i < entries.len() - 1 {
        let front = entries.drop_last();
        assert(last_entry(front, key, i)) by {
            assert(front[i] == entries[i]);
            assert forall|j: int| i < j < front.len() implies (#[trigger] front[j]).0@ != key by {
                assert(front[j] == entries[j]);
            }
        }
        assoc_lookup(front, key, i);
        assert(entries.last() == entries[entries.len() - 1]);
    }
}

pub proof fn assoc_absent<V>(entries: Seq<(String, V)>, key: Seq<char>)
    requires
        forall|j: int| 0 <= j < entries.len() ==> (#[trigger] entries[j]).0@ != key,
    ensures
        !assoc(entries).dom().contains(key),
    decreases entries.len(),
{
    if entries.len() > 0 {
        let front = entries.drop_last();
        assert forall|j: int| 0 <= j < front.len() implies (#[trigger] front[j]).0@ != key by {
            assert(front[j] == entries[j]);
        }
        assoc_absent(front, key);
        assert(entries.last() == entries[entries.len() - 1]);
    }
}

pub proof fn assoc_update<V>(entries: Seq<(String, V)>, i: int, entry: (String, V))
    requires
        last_entry(entries, entry.0@, i),
    ensures
        assoc(entries.update(i, entry)) == assoc(entries).insert(entry.0@, entry.1),
    decreases entries.len(),
{
    let changed = entries.update(i, entry);
    let front = entries.drop_last();
    if i == entries.len() - 1 {
        assert(changed.drop_last() =~= front);
        assert(assoc(changed) =~= assoc(entries).insert(entry.0@, entry.1));
    } else {
        assert(last_entry(front, entry.0@, i)) by {
            assert(front[i] == entries[i]);
            assert forall|j: int| i < j < front.len() implies (#[trigger] front[j]).0@
                != entry.0@ by {
                assert(front[j] == entries[j]);
            }
        }
        assoc_update(front, i, entry);
        assert(changed.drop_last() =~= front.update(i, entry));
        assert(changed.last() == entries.last());
        assert(entries.last() == entries[entries.len() - 1]);
        assert(assoc(changed) =~= assoc(entries).insert(entry.0@, entry.1));
    }
}

impl<V> StrMap<V> {
    /// Whether no key stands in two entries.
    pub open spec fn unique(&self) -> bool {
        forall|i: int, j: int|
            0 <= i < j < self.entries@.len() ==> (#[trigger] self.entries@[i]).0@ != (
            #[trigger] self.entries@[j]).0@
    }

    pub fn new() -> (m: Self)
        ensures
            m@ == Map::<Seq<char>, V>::empty(),
            m.unique(),
            m.entries@.len() == 0,
    {
        StrMap { entries: Vec::new() }
    }

    /// The position of the entry that holds the value of `key`.
    pub fn position(&self, key: &str) -> (r: Option<usize>)
        ensures
            match r {
                Some(i) => last_entry(self.entries@, key@, i as int) && self@.dom().contains(key@)
                    && self@[key@] == self.entries@[i as int].1,
                None => !self@.dom().contains(key@) && forall|j: int|
                    0 <= j < self.entries@.len() ==> (#[trigger] self.entries@[j]).0@ != key@,
            },
    {
        let mut i: usize = self.entries.len();
        while i > 0
            invariant
                i <= self.entries@.len(),
                forall|j: int| i <= j < self.entries@.len() ==> (#[trigger] self.entries@[j]).0@
                    != key@,
            decreases i,
        {
            i -= 1;
            if same(self.entries[i].0.as_str(), key) {
                proof {
                    assoc_lookup(self.entries@, key@, i as int);
                }
                return Some(i);
            }
        }
        proof {
            assoc_absent(self.entries@, key@);
        }
        None
    }

    pub fn get(&self, key: &str) -> (r: Option<&V>)
        ensures
            match r {
                Some(v) => self@.dom().contains(key@) && *v == self@[key@],
                None => !self@.dom().contains(key@),
            },
    {
        match self.position(key) {
            Some(i) => Some(&self.entries[i].1),
            None => None,
        }
    }

    pub fn contains_key(&self, key: &str) -> (r: bool)
        ensures
            r == self@.dom().contains(key@),
    {
        self.position(key).is_some()
    }

    /// Gives `key` the value `value`, whether or not it had one.
    pub fn insert(&mut self, key: String, value: V)
        ensures
            final(self)@ == old(self)@.insert(key@, value),
            old(self).unique() ==> final(self).unique(),
    {
        match self.position(key.as_str()) {
            Some(i) => {
                let ghost entry = (key, value);
                proof {
                    assoc_update(self.entries@, i as int, entry);
                }
                self.entries.set(i, (key, value));
            },
            None => {
                let ghost before = self.entries@;
                self.entries.push((key, value));
                proof {
                    assert(self.entries@.drop_last() =~= before);
                }
            },
        }
    }
}

// ---------------------------------------------------------------------------
// Maps from texts to texts
// ---------------------------------------------------------------------------

/// The map from texts to texts that a list of entries stands for.
pub open spec fn text_assoc(entries: Seq<(String, String)>) -> Map<Seq<char>, Seq<char>>
    decreases entries.len(),
{
    if entries.len() == 0 {
        Map::empty()
    } else {
        text_assoc(entries.drop_last()).insert(entries.last().0@, entries.last().1@)
    }
}

/// The texts that a map holds.
pub open spec fn text_map(m: StrMap<String>) -> Map<Seq<char>, Seq<char>> {
    text_assoc(m.entries@)
}

proof fn text_assoc_lookup(entries: Seq<(String, String)>)
    ensures
        text_assoc(entries).dom() == assoc(entries).dom(),
        forall|k: Seq<char>|
            text_assoc(entries).dom().contains(k) ==> #[trigger] text_assoc(entries)[k] == assoc(
                entries,
            )[k]@,
    decreases entries.len(),
{
    if entries.len() > 0 {
        text_assoc_lookup(entries.drop_last());
    }
    assert(text_assoc(entries).dom() =~= assoc(entries).dom());
}

/// The text under a key.
pub open spec fn text_under(m: Map<Seq<char>, Seq<char>>, key: Seq<char>) -> Option<Seq<char>> {
    if m.dom().contains(key) {
        Some(m[key])
    } else {
        None
    }
}

/// A map without entries.
pub fn empty_text_map() -> (m: StrMap<String>)
    ensures
        text_map(m) == Map::<Seq<char>, Seq<char>>::empty(),
        m.entries@.len() == 0,
{
    StrMap::new()
}

/// Gives `key` the text `value`.
pub fn put_text(m: &mut StrMap<String>, key: String, value: String)
    ensures
        text_map(*final(m)) == text_map(*old(m)).insert(key@, value@),
        final(m).entries@.len() > 0,
{
    proof {
        text_assoc_lookup(m.entries@);
    }
    let ghost k = key@;
    m.insert(key, value);
    proof {
        text_assoc_lookup(m.entries@);
        assert(text_map(*m) =~= text_map(*old(m)).insert(k, value@));
        if m.entries@.len() == 0 {
            assert(m@.dom().contains(k));
        }
    }
}

/// The text under `key`.
pub fn get_text(m: &StrMap<String>, key: &str) -> (r: Option<String>)
    ensures
        crate::text::view_option(r) == text_under(text_map(*m), key@),
{
    proof {
        text_assoc_lookup(m.entries@);
    }
    match m.get(key) {
        Some(s) => Some(s.clone()),
        None => None,
    }
}

} // verus!
