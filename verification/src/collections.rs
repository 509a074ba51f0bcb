//! Small collections keyed by text.

use crate::text::same_text;
use vstd::prelude::*;

verus! {

/// The first of two optional values that is there.
pub open spec fn first_of<T>(first: Option<T>, second: Option<T>) -> Option<T> {
    match first {
        Some(value) => Some(value),
        None => second,
    }
}

/// The value stored under a key: that of the first entry with the key.
pub open spec fn lookup<V>(entries: Seq<(String, V)>, key: Seq<char>) -> Option<V>
    decreases entries.len(),
{
    if entries.len() == 0 {
        None
    } else if entries[0].0@ == key {
        Some(entries[0].1)
    } else {
        lookup(entries.drop_first(), key)
    }
}

proof fn lookup_first<V>(entries: Seq<(String, V)>, key: Seq<char>, at: int)
    requires
        0 <= at < entries.len(),
        entries[at].0@ == key,
        forall|j: int| 0 <= j < at ==> (#[trigger] entries[j]).0@ != key,
    ensures
        lookup(entries, key) == Some(entries[at].1),
    decreases entries.len(),
{
    if at > 0 {
        assert(entries[0].0@ != key);
        let rest = entries.drop_first();
        assert forall|j: int| 0 <= j < at - 1 implies (#[trigger] rest[j]).0@ != key by {
            assert(entries[j + 1].0@ != key);
        }
        lookup_first(rest, key, at - 1);
    }
}

proof fn lookup_absent<V>(entries: Seq<(String, V)>, key: Seq<char>)
    requires
        forall|j: int| 0 <= j < entries.len() ==> (#[trigger] entries[j]).0@ != key,
    ensures
        lookup(entries, key) is None,
    decreases entries.len(),
{
    if entries.len() > 0 {
        assert(entries[0].0@ != key);
        let rest = entries.drop_first();
        assert forall|j: int| 0 <= j < rest.len() implies (#[trigger] rest[j]).0@ != key by {
            assert(entries[j + 1].0@ != key);
        }
        lookup_absent(rest, key);
    }
}

proof fn lookup_present<V>(entries: Seq<(String, V)>, key: Seq<char>, at: int)
    requires
        0 <= at < entries.len(),
        entries[at].0@ == key,
    ensures
        lookup(entries, key) is Some,
    decreases entries.len(),
{
    if entries[0].0@ != key {
        lookup_present(entries.drop_first(), key, at - 1);
    }
}

proof fn lookup_push<V>(entries: Seq<(String, V)>, entry: (String, V), key: Seq<char>)
    ensures
        lookup(entries.push(entry), key) == (if lookup(entries, key) is Some {
            lookup(entries, key)
        } else if entry.0@ == key {
            Some(entry.1)
        } else {
            None
        }),
    decreases entries.len(),
{
    if entries.len() == 0 {
        assert(entries.push(entry).drop_first() =~= Seq::empty());
        assert(lookup(entries.push(entry).drop_first(), key) is None);
    } else {
        assert(entries.push(entry).drop_first() =~= entries.drop_first().push(entry));
        lookup_push(entries.drop_first(), entry, key);
    }
}

proof fn lookup_update<V>(
    entries: Seq<(String, V)>,
    at: int,
    entry: (String, V),
    key: Seq<char>,
)
    requires
        0 <= at < entries.len(),
        entries[at].0@ == entry.0@,
    ensures
        key != entry.0@ ==> lookup(entries.update(at, entry), key) == lookup(entries, key),
    decreases entries.len(),
{
    if at == 0 {
        assert(entries.update(at, entry).drop_first() =~= entries.drop_first());
    } else {
        assert(entries.update(at, entry).drop_first() =~= entries.drop_first().update(
            at - 1,
            entry,
        ));
        lookup_update(entries.drop_first(), at - 1, entry, key);
    }
}

/// The keys of a list of entries, in order.
pub open spec fn key_texts<V>(entries: Seq<(String, V)>) -> Seq<Seq<char>> {
    Seq::new(entries.len(), |i: int| entries[i].0@)
}

/// A map from texts to values.
#[derive(Debug)]
pub struct StrMap<V> {
    pub entries: Vec<(String, V)>,
}

impl<V> View for StrMap<V> {
    type V = Map<Seq<char>, V>;

    open spec fn view(&self) -> Map<Seq<char>, V> {
        Map::new(
            |key: Seq<char>| lookup(self.entries@, key) is Some,
            |key: Seq<char>| lookup(self.entries@, key)->0,
        )
    }
}

impl<V> StrMap<V> {
    /// No key is listed twice.
    pub open spec fn wf(self) -> bool {
        key_texts(self.entries@).no_duplicates()
    }

    pub fn new() -> (map: Self)
        ensures
            map@ == Map::<Seq<char>, V>::empty(),
            map.wf(),
    {
        let map = StrMap { entries: Vec::new() };
        assert(map@ =~= Map::<Seq<char>, V>::empty());
        map
    }

    /// Where the first entry with a key stands.
    fn position(&self, key: &str) -> (at: Option<usize>)
        ensures
            at matches Some(i) ==> i < self.entries.len() && self.entries@[i as int].0@ == key@
                && self@.contains_key(key@) && self@[key@] == self.entries@[i as int].1 && (forall|
                j: int,
            | 0 <= j < i ==> (#[trigger] self.entries@[j]).0@ != key@),
            at is None ==> !self@.contains_key(key@),
    {
        let mut i: usize = 0;
        while i < self.entries.len()
            invariant
                i <= self.entries.len(),
                forall|j: int| 0 <= j < i ==> (#[trigger] self.entries@[j]).0@ != key@,
            decreases self.entries.len() - i,
        {
            if same_text(self.entries[i].0.as_str(), key) {
                proof {
                    lookup_first(self.entries@, key@, i as int);
                }
                return Some(i);
            }
            i += 1;
        }
        proof {
            lookup_absent(self.entries@, key@);
        }
        None
    }

    pub fn contains_key(&self, key: &str) -> (found: bool)
        ensures
            found == self@.contains_key(key@),
    {
        self.position(key).is_some()
    }

    pub fn get(&self, key: &str) -> (value: Option<&V>)
        ensures
            value matches Some(v) ==> self@.contains_key(key@) && *v == self@[key@],
            value is None ==> !self@.contains_key(key@),
    {
        match self.position(key) {
            Some(i) => Some(&self.entries[i].1),
            None => None,
        }
    }

    pub fn len(&self) -> (n: usize)
        requires
            self.wf(),
        ensures
            n == self@.dom().len(),
            self@.dom().finite(),
    {
        proof {
            let keys = key_texts(self.entries@);
            assert forall|key: Seq<char>| self@.contains_key(key) == keys.contains(key) by {
                if keys.contains(key) {
                    let j = choose|j: int| 0 <= j < keys.len() && keys[j] == key;
                    lookup_present(self.entries@, key, j);
                } else {
                    assert forall|j: int| 0 <= j < self.entries@.len() implies (
                    #[trigger] self.entries@[j]).0@ != key by {
                        assert(keys[j] == self.entries@[j].0@);
                    }
                    lookup_absent(self.entries@, key);
                }
            }
            assert(self@.dom() =~= keys.to_set());
            keys.unique_seq_to_set();
        }
        self.entries.len()
    }

    /// The keys of the map; one may be listed more than once.
    pub fn keys(&self) -> (keys: Vec<String>)
        ensures
            forall|key: Seq<char>|
                self@.contains_key(key) == #[trigger] crate::text::texts(keys@).contains(key),
    {
        let mut keys: Vec<String> = Vec::new();
        let mut i: usize = 0;
        while i < self.entries.len()
            invariant
                i <= self.entries.len(),
                keys@.len() == i,
                forall|j: int| 0 <= j < i ==> (#[trigger] keys@[j])@ == self.entries@[j].0@,
            decreases self.entries.len() - i,
        {
            keys.push(self.entries[i].0.clone());
            i += 1;
        }
        proof {
            let names = crate::text::texts(keys@);
            assert forall|key: Seq<char>| self@.contains_key(key) == #[trigger] names.contains(
                key,
            ) by {
                if names.contains(key) {
                    let j = choose|j: int| 0 <= j < names.len() && names[j] == key;
                    assert(self.entries@[j].0@ == key);
                    lookup_present(self.entries@, key, j);
                } else {
                    assert forall|j: int| 0 <= j < self.entries@.len() implies (
                    #[trigger] self.entries@[j]).0@ != key by {
                        assert(names[j] == self.entries@[j].0@);
                    }
                    lookup_absent(self.entries@, key);
                }
            }
        }
        keys
    }

    pub fn insert(&mut self, key: &str, value: V)
        ensures
            final(self)@ == old(self)@.insert(key@, value),
            old(self).wf() ==> final(self).wf(),
    {
        let ghost before = self.entries@;
        match self.position(key) {
            Some(i) => {
                let ghost entry = (before[i as int].0, value);
                proof {
                    assert forall|k: Seq<char>| k != key@ implies lookup(
                        before.update(i as int, entry),
                        k,
                    ) == lookup(before, k) by {
                        lookup_update(before, i as int, entry, k);
                    }
                    lookup_first(before.update(i as int, entry), key@, i as int);
                }
                self.entries[i].1 = value;
                assert(self.entries@ =~= before.update(i as int, entry));
                assert(key_texts(self.entries@) =~= key_texts(before));
            },
            None => {
                let name = key.to_owned();
                proof {
                    assert forall|k: Seq<char>| lookup(before.push((name, value)), k) == (if k
                        == key@ {
                        Some(value)
                    } else {
                        lookup(before, k)
                    }) by {
                        lookup_push(before, (name, value), k);
                    }
                }
                self.entries.push((name, value));
                proof {
                    assert(key_texts(self.entries@) =~= key_texts(before).push(key@));
                    assert forall|j: int| 0 <= j < before.len() implies (
                    #[trigger] key_texts(before)[j]) != key@ by {
                        if key_texts(before)[j] == key@ {
                            lookup_present(before, key@, j);
                        }
                    }
                }
            },
        }
        assert(self@ =~= old(self)@.insert(key@, value));
    }

    /// Removes a key and returns its value.
    pub fn take(&mut self, key: &str) -> (value: Option<V>)
        ensures
            final(self)@ == old(self)@.remove(key@),
            old(self).wf() ==> final(self).wf(),
            value == (if old(self)@.contains_key(key@) {
                Some(old(self)@[key@])
            } else {
                None
            }),
    {
        let mut value: Option<V> = None;
        let mut found = self.position(key);
        let ghost wanted = if self@.contains_key(key@) {
            Some(self@[key@])
        } else {
            None
        };
        while found.is_some()
            invariant
                found matches Some(i) ==> i < self.entries.len() && self.entries@[i as int].0@
                    == key@,
                found is None ==> !self@.contains_key(key@),
                found is Some && value is None ==> wanted == Some(
                    self.entries@[found->0 as int].1,
                ),
                value is Some ==> value == wanted,
                found is None && value is None ==> wanted is None,
                forall|k: Seq<char>|
                    k != key@ ==> lookup(self.entries@, k) == lookup(old(self).entries@, k),
                old(self).wf() ==> self.wf(),
            decreases self.entries.len() + (if found is Some { 1int } else { 0 }),
        {
            let i: usize = found.unwrap();
            let ghost before = self.entries@;
            let entry = self.entries.remove(i);
            proof {
                assert forall|k: Seq<char>| k != key@ implies lookup(self.entries@, k) == lookup(
                    before,
                    k,
                ) by {
                    lookup_remove(before, i as int, k);
                }
                assert(key_texts(self.entries@) =~= key_texts(before).remove(i as int));
            }
            if value.is_none() {
                value = Some(entry.1);
            }
            found = self.position(key);
        }
        assert(self@ =~= old(self)@.remove(key@));
        value
    }

    pub fn remove(&mut self, key: &str)
        ensures
            final(self)@ == old(self)@.remove(key@),
            old(self).wf() ==> final(self).wf(),
    {
        let _ = self.take(key);
    }
}

proof fn lookup_remove<V>(entries: Seq<(String, V)>, at: int, key: Seq<char>)
    requires
        0 <= at < entries.len(),
        entries[at].0@ != key,
    ensures
        lookup(entries.remove(at), key) == lookup(entries, key),
    decreases entries.len(),
{
    if at == 0 {
        assert(entries.remove(at) =~= entries.drop_first());
    } else {
        assert(entries.remove(at).drop_first() =~= entries.drop_first().remove(at - 1));
        lookup_remove(entries.drop_first(), at - 1, key);
    }
}

/// A set of texts. No text is listed twice.
#[derive(Debug)]
pub struct StrSet {
    pub items: Vec<String>,
}

impl View for StrSet {
    type V = Set<Seq<char>>;

    open spec fn view(&self) -> Set<Seq<char>> {
        crate::text::texts(self.items@).to_set()
    }
}

impl StrSet {
    pub open spec fn wf(self) -> bool {
        crate::text::texts(self.items@).no_duplicates()
    }

    pub fn new() -> (set: Self)
        ensures
            set@ == Set::<Seq<char>>::empty(),
            set.wf(),
    {
        let set = StrSet { items: Vec::new() };
        assert(set@ =~= Set::<Seq<char>>::empty());
        set
    }

    pub fn len(&self) -> (n: usize)
        requires
            self.wf(),
        ensures
            n == self@.len(),
    {
        proof {
            crate::text::texts(self.items@).unique_seq_to_set();
        }
        self.items.len()
    }

    pub fn contains(&self, text: &str) -> (found: bool)
        ensures
            found == self@.contains(text@),
    {
        lists(&self.items, text)
    }

    pub fn insert(&mut self, text: &str)
        requires
            old(self).wf(),
        ensures
            final(self)@ == old(self)@.insert(text@),
            final(self).wf(),
    {
        let ghost before = crate::text::texts(self.items@);
        if !self.contains(text) {
            let name = text.to_owned();
            self.items.push(name);
            proof {
                let after = crate::text::texts(self.items@);
                assert(after =~= before.push(text@));
                assert(!before.to_set().contains(text@));
                assert forall|k: Seq<char>| after.contains(k) == (before.contains(k) || k == text@) by {
                    if before.contains(k) {
                        let i = choose|i: int| 0 <= i < before.len() && before[i] == k;
                        assert(after[i] == k);
                    }
                    assert(after[before.len() as int] == text@);
                }
                assert(self@ =~= old(self)@.insert(text@));
            }
        } else {
            assert(self@ =~= old(self)@.insert(text@));
        }
    }

    /// Removes a text and tells whether it was there.
    pub fn remove(&mut self, text: &str) -> (removed: bool)
        requires
            old(self).wf(),
        ensures
            final(self)@ == old(self)@.remove(text@),
            final(self).wf(),
            removed == old(self)@.contains(text@),
    {
        let mut i: usize = 0;
        let ghost before = crate::text::texts(self.items@);
        while i < self.items.len()
            invariant
                i <= self.items.len(),
                before == crate::text::texts(self.items@),
                before == crate::text::texts(old(self).items@),
                before.no_duplicates(),
                forall|j: int| 0 <= j < i ==> #[trigger] before[j] != text@,
            decreases self.items.len() - i,
        {
            if same_text(self.items[i].as_str(), text) {
                let _ = self.items.remove(i);
                proof {
                    let after = crate::text::texts(self.items@);
                    assert(before[i as int] == text@);
                    assert(after =~= before.remove(i as int));
                    assert forall|k: Seq<char>|
                        after.contains(k) == (before.contains(k) && k != text@) by {
                        if before.contains(k) && k != text@ {
                            let j = choose|j: int| 0 <= j < before.len() && before[j] == k;
                            if j < i {
                                assert(after[j] == k);
                            } else {
                                assert(after[j - 1] == k);
                            }
                        }
                        if after.contains(k) {
                            let j = choose|j: int| 0 <= j < after.len() && after[j] == k;
                            if j < i {
                                assert(before[j] == k);
                            } else {
                                assert(before[j + 1] == k);
                            }
                        }
                    }
                    assert(self@ =~= old(self)@.remove(text@));
                }
                return true;
            }
            i += 1;
        }
        assert(!before.contains(text@));
        assert(self@ =~= old(self)@.remove(text@));
        false
    }
}

/// Whether a list holds a text.
pub fn lists(list: &Vec<String>, text: &str) -> (found: bool)
    ensures
        found == crate::text::texts(list@).contains(text@),
{
    let mut i: usize = 0;
    while i < list.len()
        invariant
            i <= list.len(),
            forall|j: int| 0 <= j < i ==> #[trigger] crate::text::texts(list@)[j] != text@,
        decreases list.len() - i,
    {
        if same_text(list[i].as_str(), text) {
            assert(crate::text::texts(list@)[i as int] == text@);
            return true;
        }
        i += 1;
    }
    false
}

} // verus!
