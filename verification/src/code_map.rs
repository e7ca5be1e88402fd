//! A map from currency codes to values, kept as a list of entries in which
//! no code occurs twice.
//!
//! A hash map keyed by `String` would serve compiled code as well. Verus
//! proves nothing of what such a map holds, not even its length after one
//! insertion, so the entries are kept in a `Vec` and the invariant says what
//! a map would give for free.

use vstd::prelude::*;
use crate::text::texts;

verus! {

/// The codes of a list of entries, in order.
pub open spec fn entry_codes<V>(entries: Seq<(String, V)>) -> Seq<Seq<char>> {
    Seq::new(entries.len(), |i: int| entries[i].0@)
}

/// The map a list of entries stands for: a later entry replaces an earlier
/// one with the same code.
pub open spec fn entries_map<V>(entries: Seq<(String, V)>) -> Map<Seq<char>, V>
    decreases entries.len(),
{
    if entries.len() == 0 {
        Map::empty()
    } else {
        entries_map(entries.drop_last()).insert(entries.last().0@, entries.last().1)
    }
}

/// The codes of the map of a list are the codes of its entries.
pub proof fn lemma_entries_map_dom<V>(entries: Seq<(String, V)>)
    ensures
        entries_map(entries).dom() =~= entry_codes(entries).to_set(),
        entries_map(entries).dom().finite(),
    decreases entries.len(),
{
    let codes = entry_codes(entries);
    if entries.len() > 0 {
        let front = entries.drop_last();
        lemma_entries_map_dom(front);
        assert(entry_codes(front) =~= codes.drop_last());
        assert forall|k: Seq<char>| entries_map(entries).dom().contains(k) implies codes.to_set()
            .contains(k) by {
            if k == entries.last().0@ {
                assert(codes[entries.len() - 1] == k);
            } else {
                assert(entry_codes(front).to_set().contains(k));
                let i = choose|i: int| 0 <= i < front.len() && entry_codes(front)[i] == k;
                assert(codes[i] == k);
            }
        }
        assert forall|k: Seq<char>| codes.to_set().contains(k) implies entries_map(entries).dom()
            .contains(k) by {
            let i = choose|i: int| 0 <= i < codes.len() && codes[i] == k;
            if i < front.len() {
                assert(entry_codes(front)[i] == k);
                assert(entry_codes(front).to_set().contains(k));
            }
        }
    } else {
        assert(codes.to_set() =~= Set::<Seq<char>>::empty());
    }
}

/// Where no code occurs twice, the map of a list holds each entry's value
/// under its code, and as many codes as the list has entries.
pub proof fn lemma_entries_map_values<V>(entries: Seq<(String, V)>)
    requires
        entry_codes(entries).no_duplicates(),
    ensures
        forall|i: int|
            0 <= i < entries.len() ==> entries_map(entries).contains_key(#[trigger] entries[i].0@)
                && entries_map(entries)[entries[i].0@] == entries[i].1,
        entries_map(entries).dom().len() == entries.len(),
    decreases entries.len(),
{
    if entries.len() > 0 {
        let front = entries.drop_last();
        let codes = entry_codes(entries);
        assert(entry_codes(front) =~= codes.drop_last());
        lemma_entries_map_values(front);
        lemma_entries_map_dom(front);
        let last = entries.len() - 1;
        assert(!entries_map(front).dom().contains(entries.last().0@)) by {
            if entry_codes(front).to_set().contains(entries.last().0@) {
                let i = choose|i: int|
                    0 <= i < front.len() && entry_codes(front)[i] == entries.last().0@;
                assert(codes[i] == codes[last]);
            }
        }
        assert forall|i: int| 0 <= i < entries.len() implies entries_map(entries).contains_key(
            #[trigger] entries[i].0@,
        ) && entries_map(entries)[entries[i].0@] == entries[i].1 by {
            if i < last {
                assert(front[i] == entries[i]);
                assert(codes[i] != codes[last]);
            }
        }
    }
}

/// Replacing an entry by one with the same code puts the new value under
/// that code and leaves every other code as it was.
pub proof fn lemma_entries_map_update<V>(entries: Seq<(String, V)>, i: int, entry: (String, V))
    requires
        entry_codes(entries).no_duplicates(),
        0 <= i < entries.len(),
        entry.0@ == entries[i].0@,
    ensures
        entry_codes(entries.update(i, entry)) == entry_codes(entries),
        entries_map(entries.update(i, entry)) == entries_map(entries).insert(entry.0@, entry.1),
{
    let after = entries.update(i, entry);
    let codes = entry_codes(entries);
    assert(entry_codes(after) =~= codes);
    lemma_entries_map_values(entries);
    lemma_entries_map_dom(entries);
    lemma_entries_map_values(after);
    lemma_entries_map_dom(after);
    let left = entries_map(after);
    let right = entries_map(entries).insert(entry.0@, entry.1);
    assert(entries_map(entries).contains_key(entries[i].0@));
    assert(left.dom() =~= right.dom());
    assert forall|k: Seq<char>| left.dom().contains(k) implies left[k] == right[k] by {
        let j = choose|j: int| 0 <= j < codes.len() && codes[j] == k;
        assert(after[j].0@ == k);
        if j != i {
            assert(entries[j].0@ == k);
            assert(codes[j] != codes[i]);
        }
    }
    assert(left =~= right);
}

/// Adding an entry with a new code keeps the codes free of duplicates and
/// puts the value under the new code.
pub proof fn lemma_entries_map_push<V>(entries: Seq<(String, V)>, entry: (String, V))
    requires
        entry_codes(entries).no_duplicates(),
        !entries_map(entries).contains_key(entry.0@),
    ensures
        entry_codes(entries.push(entry)).no_duplicates(),
        entries_map(entries.push(entry)) == entries_map(entries).insert(entry.0@, entry.1),
{
    let after = entries.push(entry);
    let codes = entry_codes(entries);
    assert(after.drop_last() =~= entries);
    assert(entry_codes(after) =~= codes.push(entry.0@));
    lemma_entries_map_dom(entries);
    assert forall|a: int, b: int| 0 <= a < b < entry_codes(after).len() implies entry_codes(
        after,
    )[a] != entry_codes(after)[b] by {
        if b == entries.len() {
            assert(codes[a] == entry_codes(after)[a]);
            assert(codes.to_set().contains(codes[a]));
        } else {
            assert(codes[a] != codes[b]);
        }
    }
}

/// A map from currency codes to values of type `V`.
#[derive(Debug)]
pub struct CodeMap<V> {
    entries: Vec<(String, V)>,
}

impl<V> View for CodeMap<V> {
    type V = Map<Seq<char>, V>;

    closed spec fn view(&self) -> Map<Seq<char>, V> {
        entries_map(self.entries@)
    }
}

impl<V> CodeMap<V> {
    /// No code occurs twice among the entries.
    #[verifier::type_invariant]
    pub closed spec fn valid(&self) -> bool {
        entry_codes(self.entries@).no_duplicates()
    }

    /// The entries of the map, in the order in which their codes came in.
    pub closed spec fn entries(&self) -> Seq<(String, V)> {
        self.entries@
    }

    /// The view of a map is the map of its entries, and no code occurs
    /// twice among them.
    pub proof fn lemma_entries(&self)
        requires
            self.valid(),
        ensures
            self@ == entries_map(self.entries()),
            entry_codes(self.entries()).no_duplicates(),
            self@.dom().finite(),
            self@.len() == self.entries().len(),
    {
        lemma_entries_map_dom(self.entries@);
        lemma_entries_map_values(self.entries@);
    }

    /// The empty map.
    pub fn new() -> (made: CodeMap<V>)
        ensures
            made@ == Map::<Seq<char>, V>::empty(),
    {
        CodeMap { entries: Vec::new() }
    }

    /// The number of codes in the map.
    pub fn len(&self) -> (n: usize)
        ensures
            n == self@.len(),
            n == self.entries().len(),
    {
        proof {
            use_type_invariant(self);
            lemma_entries_map_values(self.entries@);
        }
        self.entries.len()
    }

    /// Whether the map holds no code.
    pub fn is_empty(&self) -> (empty: bool)
        ensures
            empty == (self@ == Map::<Seq<char>, V>::empty()),
    {
        proof {
            use_type_invariant(self);
            lemma_entries_map_values(self.entries@);
            lemma_entries_map_dom(self.entries@);
            if self.entries@.len() == 0 {
                assert(self@ =~= Map::<Seq<char>, V>::empty());
            } else {
                assert(self@.contains_key(self.entries@[0].0@));
            }
        }
        self.entries.len() == 0
    }

    /// The entry at place `i`.
    pub fn entry(&self, i: usize) -> (entry: &(String, V))
        requires
            i < self.entries().len(),
        ensures
            *entry == self.entries()[i as int],
    {
        &self.entries[i]
    }

    /// The place of `code` among the entries.
    fn position(&self, code: &String) -> (found: Option<usize>)
        ensures
            found matches Some(i) ==> i < self.entries@.len() && self.entries@[i as int].0@
                == code@,
            found is None ==> !self@.contains_key(code@),
    {
        let mut i: usize = 0;
        while i < self.entries.len()
            invariant
                i <= self.entries@.len(),
                forall|j: int| 0 <= j < i ==> self.entries@[j].0@ != code@,
            decreases self.entries@.len() - i,
        {
            if self.entries[i].0 == *code {
                return Some(i);
            }
            i += 1;
        }
        proof {
            lemma_entries_map_dom(self.entries@);
            if self@.contains_key(code@) {
                let codes = entry_codes(self.entries@);
                let j = choose|j: int| 0 <= j < codes.len() && codes[j] == code@;
                assert(self.entries@[j].0@ == code@);
            }
        }
        None
    }

    /// Whether the map holds `code`.
    pub fn contains_key(&self, code: &str) -> (held: bool)
        ensures
            held == self@.contains_key(code@),
    {
        let wanted = code.to_owned();
        let found = self.position(&wanted);
        proof {
            use_type_invariant(self);
            lemma_entries_map_values(self.entries@);
        }
        found.is_some()
    }

    /// The value held under `code`.
    pub fn get(&self, code: &str) -> (value: Option<&V>)
        ensures
            value is Some <==> self@.contains_key(code@),
            value matches Some(v) ==> *v == self@[code@],
    {
        let wanted = code.to_owned();
        proof {
            use_type_invariant(self);
            lemma_entries_map_values(self.entries@);
        }
        match self.position(&wanted) {
            Some(i) => Some(&self.entries[i].1),
            None => None,
        }
    }

    /// Puts `value` under `code`, in place of what the map held there. A
    /// code that is new to the map comes last among the entries; one that the
    /// map holds keeps its place.
    pub fn insert(&mut self, code: String, value: V)
        ensures
            final(self)@ == old(self)@.insert(code@, value),
            !old(self)@.contains_key(code@) ==> final(self).entries() == old(self).entries().push(
                (code, value),
            ),
            forall|i: int|
                0 <= i < old(self).entries().len() && (#[trigger] old(self).entries()[i]).0@
                    == code@ ==> final(self).entries() == old(self).entries().update(
                    i,
                    (code, value),
                ),
    {
        proof {
            use_type_invariant(&*self);
            lemma_entries_map_values(self.entries@);
            lemma_entries_map_dom(self.entries@);
        }
        let ghost before = self.entries@;
        let found = self.position(&code);
        let mut entries: Vec<(String, V)> = Vec::new();
        core::mem::swap(&mut self.entries, &mut entries);
        match found {
            Some(i) => {
                proof {
                    lemma_entries_map_update(before, i as int, (code, value));
                    assert forall|j: int|
                        0 <= j < before.len() && (#[trigger] before[j]).0@ == code@ implies j
                        == i by {
                        assert(entry_codes(before)[j] == entry_codes(before)[i as int]);
                    }
                }
                entries.set(i, (code, value));
            },
            None => {
                proof {
                    lemma_entries_map_push(before, (code, value));
                    assert forall|j: int| 0 <= j < before.len() implies (#[trigger] before[j]).0@
                        != code@ by {
                        assert(entries_map(before).contains_key(before[j].0@));
                    }
                }
                entries.push((code, value));
            },
        }
        core::mem::swap(&mut self.entries, &mut entries);
    }

    /// The codes of the map, each once.
    pub fn codes(&self) -> (codes: Vec<String>)
        ensures
            texts(codes@) == entry_codes(self.entries()),
            texts(codes@).no_duplicates(),
            texts(codes@).to_set() == self@.dom(),
            codes@.len() == self@.len(),
    {
        let mut codes: Vec<String> = Vec::new();
        let mut i: usize = 0;
        while i < self.entries.len()
            invariant
                i <= self.entries@.len(),
                codes@.len() == i,
                forall|j: int| 0 <= j < i ==> codes@[j]@ == self.entries@[j].0@,
            decreases self.entries@.len() - i,
        {
            codes.push(self.entries[i].0.clone());
            i += 1;
        }
        proof {
            use_type_invariant(self);
            lemma_entries_map_dom(self.entries@);
            lemma_entries_map_values(self.entries@);
            assert(texts(codes@) =~= entry_codes(self.entries@));
        }
        codes
    }

    /// The entries of the map, no code twice.
    pub fn into_entries(self) -> (entries: Vec<(String, V)>)
        ensures
            entries@ == self.entries(),
            entry_codes(entries@).no_duplicates(),
            entries_map(entries@) == self@,
    {
        proof {
            use_type_invariant(&self);
        }
        self.entries
    }

    /// The map a list of entries stands for: a later entry replaces an
    /// earlier one with the same code.
    pub fn from_entries(entries: Vec<(String, V)>) -> (made: CodeMap<V>)
        ensures
            made@ == entries_map(entries@),
    {
        let mut made: CodeMap<V> = CodeMap::new();
        let ghost all = entries@;
        for entry in it: entries.into_iter()
            invariant
                it.seq() == all,
                made@ == entries_map(all.take(it.index() as int)),
        {
            proof {
                let upto = all.take(it.index() + 1);
                assert(upto.drop_last() =~= all.take(it.index() as int));
                assert(upto.last() == entry);
            }
            made.insert(entry.0, entry.1);
        }
        proof {
            assert(all.take(all.len() as int) =~= all);
        }
        made
    }
}

} // verus!
