//! A map from column names to text, walked in the order of the names.
use vstd::prelude::*;

use crate::order;
use crate::text;

verus! {

/// Column names with what each of them stands for: a data type, or another column.
/// No name occurs twice, and the entries are kept in the order of their names.
#[derive(Debug)]
pub struct ColumnMap {
    entries: Vec<(String, String)>,
}

/// One entry: the name, and what it stands for.
pub type Entry = (Seq<char>, Seq<char>);

pub open spec fn entry_of(entry: (String, String)) -> Entry {
    (entry.0@, entry.1@)
}

/// The names of a list of entries.
pub open spec fn names(entries: Seq<Entry>) -> Seq<Seq<char>> {
    entries.map_values(|entry: Entry| entry.0)
}

/// What a name stands for.
pub open spec fn lookup(entries: Seq<Entry>, name: Seq<char>) -> Option<Seq<char>>
    decreases entries.len(),
{
    if entries.len() == 0 {
        None
    } else if entries[0].0 == name {
        Some(entries[0].1)
    } else {
        lookup(entries.drop_first(), name)
    }
}

/// The entries with `name` standing for `value`, at the place where the order of the
/// names has it.
pub open spec fn inserted(entries: Seq<Entry>, name: Seq<char>, value: Seq<char>) -> Seq<Entry>
    decreases entries.len(),
{
    if entries.len() == 0 || order::precedes(name, entries[0].0) {
        seq![(name, value)] + entries
    } else if entries[0].0 == name {
        seq![(name, value)] + entries.drop_first()
    } else {
        seq![entries[0]] + inserted(entries.drop_first(), name, value)
    }
}

impl View for ColumnMap {
    type V = Seq<Entry>;

    closed spec fn view(&self) -> Seq<Entry> {
        self.entries@.map_values(|entry: (String, String)| entry_of(entry))
    }
}

/// After an insertion the name stands for the new value, and every other name for what
/// it stood for before.
pub proof fn insertion_is_seen_by_lookup(
    entries: Seq<Entry>,
    name: Seq<char>,
    value: Seq<char>,
    other: Seq<char>,
)
    ensures
        lookup(inserted(entries, name, value), name) == Some(value),
        other != name ==> lookup(inserted(entries, name, value), other) == lookup(entries, other),
    decreases entries.len(),
{
    let r = inserted(entries, name, value);
    if entries.len() == 0 || order::precedes(name, entries[0].0) {
        assert(r.drop_first() =~= entries);
    } else if entries[0].0 == name {
        assert(r.drop_first() =~= entries.drop_first());
    } else {
        insertion_is_seen_by_lookup(entries.drop_first(), name, value, other);
        assert(r.drop_first() =~= inserted(entries.drop_first(), name, value));
    }
}

/// The number of entries in front of the place of a name.
spec fn place(entries: Seq<Entry>, name: Seq<char>) -> int
    decreases entries.len(),
{
    if entries.len() > 0 && order::precedes(entries[0].0, name) {
        1 + place(entries.drop_first(), name)
    } else {
        0
    }
}

proof fn lemma_place(entries: Seq<Entry>, name: Seq<char>)
    ensures
        0 <= place(entries, name) <= entries.len(),
        forall|i: int|
            0 <= i < place(entries, name) ==> order::precedes((#[trigger] entries[i]).0, name),
        place(entries, name) < entries.len() ==> !order::precedes(
            entries[place(entries, name)].0,
            name,
        ),
    decreases entries.len(),
{
    let n = place(entries, name);
    if entries.len() > 0 && order::precedes(entries[0].0, name) {
        let tail = entries.drop_first();
        lemma_place(tail, name);
        assert forall|i: int| 0 <= i < n implies order::precedes(
            (#[trigger] entries[i]).0,
            name,
        ) by {
            if i > 0 {
                assert(entries[i] == tail[i - 1]);
            }
        }
        if n < entries.len() {
            assert(entries[n] == tail[n - 1]);
        }
    }
}

proof fn lemma_inserted_at(entries: Seq<Entry>, name: Seq<char>, value: Seq<char>, n: int)
    requires
        0 <= n <= entries.len(),
        forall|i: int| 0 <= i < n ==> order::precedes((#[trigger] entries[i]).0, name),
        n < entries.len() ==> !order::precedes(entries[n].0, name),
    ensures
        inserted(entries, name, value) == (if n < entries.len() && entries[n].0 == name {
            entries.update(n, (name, value))
        } else {
            entries.insert(n, (name, value))
        }),
    decreases n,
{
    if n > 0 {
        let tail = entries.drop_first();
        assert forall|i: int| 0 <= i < n - 1 implies order::precedes(
            (#[trigger] tail[i]).0,
            name,
        ) by {
            assert(tail[i] == entries[i + 1]);
        }
        lemma_inserted_at(tail, name, value, n - 1);
        assert(order::precedes(entries[0].0, name));
        order::lemma_precedes_irreflexive(name);
        if order::precedes(name, entries[0].0) {
            order::lemma_precedes_transitive(name, entries[0].0, name);
        }
        if n < entries.len() && entries[n].0 == name {
            assert(tail[n - 1] == entries[n]);
            assert(seq![entries[0]] + tail.update(n - 1, (name, value)) =~= entries.update(
                n,
                (name, value),
            ));
        } else {
            assert(n < entries.len() ==> tail[n - 1] == entries[n]);
            assert(seq![entries[0]] + tail.insert(n - 1, (name, value)) =~= entries.insert(
                n,
                (name, value),
            ));
        }
    } else if n < entries.len() {
        order::lemma_precedes_total(name, entries[0].0);
        order::lemma_precedes_irreflexive(name);
        if entries[0].0 == name {
            assert(seq![(name, value)] + entries.drop_first() =~= entries.update(0, (name, value)));
        } else {
            assert(seq![(name, value)] + entries =~= entries.insert(0, (name, value)));
        }
    } else {
        assert(seq![(name, value)] + entries =~= entries.insert(0, (name, value)));
    }
}

/// An insertion keeps the names in order, and each of them single.
pub proof fn insertion_keeps_the_order(entries: Seq<Entry>, name: Seq<char>, value: Seq<char>)
    requires
        order::strictly_sorted(names(entries)),
    ensures
        order::strictly_sorted(names(inserted(entries, name, value))),
{
    lemma_place(entries, name);
    let n = place(entries, name);
    lemma_inserted_at(entries, name, value, n);
    let before = names(entries);
    let after = names(inserted(entries, name, value));
    if n < entries.len() && entries[n].0 == name {
        assert(after =~= before);
    } else {
        assert(after =~= before.insert(n, name));
        assert forall|i: int, j: int|
            #![trigger after[i], after[j]]
            0 <= i < j < after.len() implies order::precedes(after[i], after[j]) by {
            let bi = if i < n {
                i
            } else {
                i - 1
            };
            let bj = if j < n {
                j
            } else {
                j - 1
            };
            if i == n {
                assert(after[j] == before[bj]);
                assert(before[n] == entries[n].0);
                order::lemma_precedes_total(name, before[n]);
                if n < bj {
                    assert(order::precedes(before[n], before[bj]));
                    order::lemma_precedes_transitive(name, before[n], before[bj]);
                }
            } else if j == n {
                assert(after[i] == before[bi]);
                assert(before[bi] == entries[bi].0);
            } else {
                assert(after[i] == before[bi] && after[j] == before[bj]);
            }
        }
    }
}

impl ColumnMap {
    /// The entries are in the order of their names, and each name is single.
    pub open spec fn wf(&self) -> bool {
        order::strictly_sorted(names(self@))
    }

    /// The map without entries.
    pub fn new() -> (r: ColumnMap)
        ensures
            r@ == Seq::<Entry>::empty(),
            r.wf(),
    {
        let r = ColumnMap { entries: Vec::new() };
        assert(r@ =~= Seq::<Entry>::empty());
        r
    }

    /// The number of entries.
    pub fn len(&self) -> (n: usize)
        ensures
            n == self@.len(),
    {
        self.entries.len()
    }

    /// Whether there is no entry.
    pub fn is_empty(&self) -> (b: bool)
        ensures
            b == (self@.len() == 0),
    {
        self.entries.len() == 0
    }

    /// The name of the entry at `index`, in the order of the names.
    pub fn name_at(&self, index: usize) -> (name: &str)
        requires
            index < self@.len(),
        ensures
            name@ == self@[index as int].0,
    {
        self.entries[index].0.as_str()
    }

    /// What the name of the entry at `index` stands for.
    pub fn value_at(&self, index: usize) -> (value: &str)
        requires
            index < self@.len(),
        ensures
            value@ == self@[index as int].1,
    {
        self.entries[index].1.as_str()
    }

    /// What `name` stands for.
    pub fn get(&self, name: &str) -> (r: Option<String>)
        ensures
            match r {
                Some(value) => lookup(self@, name@) == Some(value@),
                None => lookup(self@, name@) is None,
            },
    {
        let mut i: usize = 0;
        assert(self@.skip(0) =~= self@);
        while i < self.entries.len()
            invariant
                i <= self.entries@.len(),
                lookup(self@, name@) == lookup(self@.skip(i as int), name@),
            decreases self.entries@.len() - i,
        {
            assert(self@[i as int] == entry_of(self.entries@[i as int]));
            if text::same_text(self.entries[i].0.as_str(), name) {
                return Some(self.entries[i].1.clone());
            }
            assert(self@.skip(i as int).drop_first() =~= self@.skip(i + 1));
            i += 1;
        }
        None
    }

    /// Whether the map holds an entry for `name`.
    pub fn contains_key(&self, name: &str) -> (b: bool)
        ensures
            b == (lookup(self@, name@) is Some),
    {
        self.get(name).is_some()
    }

    /// Lets `name` stand for `value`.
    pub fn insert(&mut self, name: String, value: String)
        ensures
            final(self)@ == inserted(old(self)@, name@, value@),
            old(self).wf() ==> final(self).wf(),
    {
        let ghost before = self@;
        let mut at: usize = 0;
        while at < self.entries.len() && order::text_precedes(
            self.entries[at].0.as_str(),
            name.as_str(),
        )
            invariant
                at <= self.entries@.len(),
                before == self@,
                forall|i: int|
                    0 <= i < at ==> order::precedes((#[trigger] before[i]).0, name@),
            decreases self.entries@.len() - at,
        {
            assert(before[at as int] == entry_of(self.entries@[at as int]));
            at += 1;
        }
        proof {
            if at < self.entries@.len() {
                assert(before[at as int] == entry_of(self.entries@[at as int]));
            }
            lemma_inserted_at(before, name@, value@, at as int);
            if order::strictly_sorted(names(before)) {
                insertion_keeps_the_order(before, name@, value@);
            }
        }
        if at < self.entries.len() && text::same_text(
            self.entries[at].0.as_str(),
            name.as_str(),
        ) {
            let ghost entry = (name@, value@);
            self.entries.set(at, (name, value));
            assert(self@ =~= before.update(at as int, entry));
        } else {
            let ghost entry = (name@, value@);
            self.entries.insert(at, (name, value));
            assert(self@ =~= before.insert(at as int, entry));
        }
    }
}

impl Clone for ColumnMap {
    fn clone(&self) -> (r: Self)
        ensures
            r@ == self@,
    {
        let mut entries: Vec<(String, String)> = Vec::new();
        let mut i: usize = 0;
        while i < self.entries.len()
            invariant
                i <= self.entries@.len(),
                entries@.len() == i,
                forall|j: int|
                    0 <= j < i ==> entry_of(#[trigger] entries@[j]) == entry_of(self.entries@[j]),
            decreases self.entries@.len() - i,
        {
            entries.push((self.entries[i].0.clone(), self.entries[i].1.clone()));
            i += 1;
        }
        let r = ColumnMap { entries };
        assert(r@ =~= self@);
        r
    }
}

/// A name stands for what its entry says, and for nothing where no entry has the name.
pub proof fn lookup_finds_the_entry(entries: Seq<Entry>, name: Seq<char>, k: int)
    requires
        order::strictly_sorted(names(entries)),
    ensures
        0 <= k < entries.len() && entries[k].0 == name ==> lookup(entries, name) == Some(
            entries[k].1,
        ),
        (forall|j: int| 0 <= j < entries.len() ==> (#[trigger] entries[j]).0 != name) ==> lookup(
            entries,
            name,
        ) is None,
    decreases entries.len(),
{
    let tail = entries.drop_first();
    let all = names(entries);
    if 0 < k < entries.len() {
        let rest = names(tail);
        assert forall|i: int, j: int|
            #![trigger rest[i], rest[j]]
            0 <= i < j < rest.len() implies order::precedes(rest[i], rest[j]) by {
            assert(rest[i] == all[i + 1] && rest[j] == all[j + 1]);
        }
        lookup_finds_the_entry(tail, name, k - 1);
        assert(order::precedes(all[0], all[k]));
        order::lemma_precedes_irreflexive(all[k]);
        assert(tail[k - 1] == entries[k]);
    }
    if forall|j: int| 0 <= j < entries.len() ==> (#[trigger] entries[j]).0 != name {
        lemma_lookup_none(entries, name);
    }
}

proof fn lemma_lookup_none(entries: Seq<Entry>, name: Seq<char>)
    ensures
        (forall|j: int| 0 <= j < entries.len() ==> (#[trigger] entries[j]).0 != name) ==> lookup(
            entries,
            name,
        ) is None,
    decreases entries.len(),
{
    if entries.len() > 0 && (forall|j: int|
        0 <= j < entries.len() ==> (#[trigger] entries[j]).0 != name) {
        let tail = entries.drop_first();
        assert forall|j: int| 0 <= j < tail.len() implies (#[trigger] tail[j]).0 != name by {
            assert(tail[j] == entries[j + 1]);
        }
        lemma_lookup_none(tail, name);
        assert(entries[0].0 != name);
    }
}

/// What is put under a name is what the name stands for from then on, every other name stands for
/// what it stood for, and a name that was there adds no entry.
pub proof fn columns_stand_for_what_was_put(
    map: &mut ColumnMap,
    name: String,
    value: String,
    other: Seq<char>,
)
    requires
        call_ensures(ColumnMap::insert, (map, name, value), ()),
    ensures
        lookup(final(map)@, name@) == Some(value@),
        other != name@ ==> lookup(final(map)@, other) == lookup(old(map)@, other),
        old(map).wf() ==> final(map).wf(),
        old(map).wf() ==> final(map)@.len() == old(map)@.len() + (if lookup(
            old(map)@,
            name@,
        ) is Some {
            0int
        } else {
            1int
        }),
{
    insertion_is_seen_by_lookup(old(map)@, name@, value@, other);
    if old(map).wf() {
        lemma_inserted_length(old(map)@, name@, value@);
    }
}

proof fn lemma_inserted_length(entries: Seq<Entry>, name: Seq<char>, value: Seq<char>)
    requires
        order::strictly_sorted(names(entries)),
    ensures
        inserted(entries, name, value).len() == entries.len() + (if lookup(entries, name) is Some {
            0int
        } else {
            1int
        }),
    decreases entries.len(),
{
    if entries.len() > 0 {
        let tail = entries.drop_first();
        let all = names(entries);
        let rest = names(tail);
        assert forall|i: int, j: int|
            #![trigger rest[i], rest[j]]
            0 <= i < j < rest.len() implies order::precedes(rest[i], rest[j]) by {
            assert(rest[i] == all[i + 1] && rest[j] == all[j + 1]);
        }
        if order::precedes(name, entries[0].0) {
            assert forall|j: int| 0 <= j < entries.len() implies (#[trigger] entries[j]).0
                != name by {
                assert(all[0] == entries[0].0 && all[j] == entries[j].0);
                if j > 0 {
                    assert(order::precedes(all[0], all[j]));
                    order::lemma_precedes_transitive(name, all[0], all[j]);
                }
                order::lemma_precedes_irreflexive(name);
            }
            lemma_lookup_none(entries, name);
        } else if entries[0].0 != name {
            lemma_inserted_length(tail, name, value);
        }
    }
}

/// A name is looked up as its entry says, and the entries are told by their places.
pub proof fn columns_are_read_by_name_and_place(
    map: &ColumnMap,
    name: &str,
    r: Option<String>,
    known: bool,
    n: usize,
    empty: bool,
    k: int,
)
    requires
        map.wf(),
        call_ensures(ColumnMap::get, (map, name), r),
        call_ensures(ColumnMap::contains_key, (map, name), known),
        call_ensures(ColumnMap::len, (map,), n),
        call_ensures(ColumnMap::is_empty, (map,), empty),
    ensures
        0 <= k < map@.len() && map@[k].0 == name@ ==> (r matches Some(value) && value@
            == map@[k].1),
        (forall|j: int| 0 <= j < map@.len() ==> (#[trigger] map@[j]).0 != name@) ==> r is None,
        known <==> r is Some,
        n == map@.len(),
        empty <==> n == 0,
{
    lookup_finds_the_entry(map@, name@, k);
}

/// The entry at a place is told by its name and by what it stands for.
pub proof fn entries_are_told_by_place(map: &ColumnMap, index: usize, name: &str, value: &str)
    requires
        index < map@.len(),
        call_ensures(ColumnMap::name_at, (map, index), name),
        call_ensures(ColumnMap::value_at, (map, index), value),
    ensures
        map@[index as int] == (name@, value@),
{
}

} // verus!
