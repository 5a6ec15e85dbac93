//! The order of text, and sorting by it.
//!
//! Strings are ordered by their characters, the first difference deciding and a prefix
//! coming first. This is the order of `str` in the standard library, which compares the
//! bytes of the UTF-8 encodings: that encoding keeps the order of the characters.
use vstd::prelude::*;

use crate::text;

verus! {

/// Whether `a` comes before `b`.
pub open spec fn precedes(a: Seq<char>, b: Seq<char>) -> bool
    decreases a.len(),
{
    if b.len() == 0 {
        false
    } else if a.len() == 0 {
        true
    } else if a[0] != b[0] {
        a[0] < b[0]
    } else {
        precedes(a.drop_first(), b.drop_first())
    }
}

pub proof fn lemma_precedes_irreflexive(a: Seq<char>)
    ensures
        !precedes(a, a),
    decreases a.len(),
{
    if a.len() > 0 {
        lemma_precedes_irreflexive(a.drop_first());
    }
}

pub proof fn lemma_precedes_transitive(a: Seq<char>, b: Seq<char>, c: Seq<char>)
    requires
        precedes(a, b),
        precedes(b, c),
    ensures
        precedes(a, c),
    decreases a.len(),
{
    if a.len() > 0 && a[0] == b[0] && b[0] == c[0] {
        lemma_precedes_transitive(a.drop_first(), b.drop_first(), c.drop_first());
    }
}

pub proof fn lemma_precedes_total(a: Seq<char>, b: Seq<char>)
    ensures
        precedes(a, b) || precedes(b, a) || a == b,
    decreases a.len(),
{
    if a.len() == 0 && b.len() == 0 {
        assert(a =~= b);
    } else if a.len() > 0 && b.len() > 0 && a[0] == b[0] {
        lemma_precedes_total(a.drop_first(), b.drop_first());
        if a.drop_first() == b.drop_first() {
            assert(a =~= seq![a[0]] + a.drop_first());
            assert(b =~= seq![b[0]] + b.drop_first());
        }
    }
}

/// Where `b` is not before `a`, nor `c` before `b`, `c` is not before `a`.
pub proof fn lemma_not_after_transitive(a: Seq<char>, b: Seq<char>, c: Seq<char>)
    requires
        !precedes(b, a),
        !precedes(c, b),
    ensures
        !precedes(c, a),
{
    if precedes(c, a) {
        lemma_precedes_total(b, c);
        if precedes(b, c) {
            lemma_precedes_transitive(b, c, a);
        }
    }
}

/// Whether `a` comes before `b`.
pub fn text_precedes(a: &str, b: &str) -> (r: bool)
    ensures
        r == precedes(a@, b@),
{
    let x = text::chars_of(a);
    let y = text::chars_of(b);
    let mut i: usize = 0;
    assert(x@.skip(0) =~= a@);
    assert(y@.skip(0) =~= b@);
    while i < x.len() && i < y.len()
        invariant
            i <= x@.len(),
            i <= y@.len(),
            precedes(a@, b@) == precedes(x@.skip(i as int), y@.skip(i as int)),
        decreases x@.len() - i,
    {
        if x[i] != y[i] {
            return x[i] < y[i];
        }
        assert(x@.skip(i as int).drop_first() =~= x@.skip(i + 1));
        assert(y@.skip(i as int).drop_first() =~= y@.skip(i + 1));
        i += 1;
    }
    i < y.len()
}

// ---------------------------------------------------------------------------
// Sorting
// ---------------------------------------------------------------------------

/// Whether no item comes before an earlier one.
pub open spec fn sorted_by<M>(s: Seq<M>, key: spec_fn(M) -> Seq<char>) -> bool {
    forall|i: int, j: int|
        #![trigger s[i], s[j]]
        0 <= i < j < s.len() ==> !precedes(key(s[j]), key(s[i]))
}

/// The items with `item` in front of the first whose key does not come before its own.
pub open spec fn placed<M>(item: M, s: Seq<M>, key: spec_fn(M) -> Seq<char>) -> Seq<M>
    decreases s.len(),
{
    if s.len() > 0 && precedes(key(s[0]), key(item)) {
        seq![s[0]] + placed(item, s.drop_first(), key)
    } else {
        seq![item] + s
    }
}

/// The items in the order of their keys; items with the same key keep their order.
pub open spec fn stable_sort<M>(s: Seq<M>, key: spec_fn(M) -> Seq<char>) -> Seq<M>
    decreases s.len(),
{
    if s.len() == 0 {
        s
    } else {
        placed(s[0], stable_sort(s.drop_first(), key), key)
    }
}

proof fn lemma_placed_at<M>(item: M, s: Seq<M>, key: spec_fn(M) -> Seq<char>, n: int)
    requires
        0 <= n <= s.len(),
        forall|i: int| 0 <= i < n ==> precedes(key(#[trigger] s[i]), key(item)),
        n < s.len() ==> !precedes(key(s[n]), key(item)),
    ensures
        placed(item, s, key) == s.insert(n, item),
    decreases n,
{
    if n > 0 {
        assert(s.drop_first().len() == s.len() - 1);
        assert forall|i: int| 0 <= i < n - 1 implies precedes(
            key(#[trigger] s.drop_first()[i]),
            key(item),
        ) by {
            assert(s.drop_first()[i] == s[i + 1]);
        }
        lemma_placed_at(item, s.drop_first(), key, n - 1);
        assert(seq![s[0]] + s.drop_first().insert(n - 1, item) =~= s.insert(n, item));
    } else {
        assert(seq![item] + s =~= s.insert(0, item));
    }
}

/// Where an item is placed.
spec fn place<M>(item: M, s: Seq<M>, key: spec_fn(M) -> Seq<char>) -> int
    decreases s.len(),
{
    if s.len() > 0 && precedes(key(s[0]), key(item)) {
        1 + place(item, s.drop_first(), key)
    } else {
        0
    }
}

proof fn lemma_place<M>(item: M, s: Seq<M>, key: spec_fn(M) -> Seq<char>)
    ensures
        0 <= place(item, s, key) <= s.len(),
        forall|i: int|
            0 <= i < place(item, s, key) ==> precedes(key(#[trigger] s[i]), key(item)),
        place(item, s, key) < s.len() ==> !precedes(key(s[place(item, s, key)]), key(item)),
        placed(item, s, key) == s.insert(place(item, s, key), item),
    decreases s.len(),
{
    let n = place(item, s, key);
    if s.len() > 0 && precedes(key(s[0]), key(item)) {
        let tail = s.drop_first();
        lemma_place(item, tail, key);
        assert forall|i: int| 0 <= i < n implies precedes(key(#[trigger] s[i]), key(item)) by {
            if i > 0 {
                assert(s[i] == tail[i - 1]);
            }
        }
        if n < s.len() {
            assert(s[n] == tail[n - 1]);
        }
    }
    lemma_placed_at(item, s, key, n);
}

proof fn lemma_placed_sorted<M>(item: M, s: Seq<M>, key: spec_fn(M) -> Seq<char>)
    requires
        sorted_by(s, key),
    ensures
        sorted_by(placed(item, s, key), key),
{
    lemma_place(item, s, key);
    let n = place(item, s, key);
    let r = s.insert(n, item);
    assert forall|i: int, j: int|
        #![trigger r[i], r[j]]
        0 <= i < j < r.len() implies !precedes(key(r[j]), key(r[i])) by {
        let si = if i < n {
            i
        } else {
            i - 1
        };
        let sj = if j < n {
            j
        } else {
            j - 1
        };
        if i == n {
            assert(r[j] == s[sj]);
            if n < sj {
                assert(!precedes(key(s[sj]), key(s[n])));
                lemma_not_after_transitive(key(item), key(s[n]), key(s[sj]));
            }
        } else if j == n {
            assert(r[i] == s[si]);
            assert(precedes(key(s[si]), key(item)));
            if precedes(key(item), key(s[si])) {
                lemma_precedes_transitive(key(item), key(s[si]), key(item));
                lemma_precedes_irreflexive(key(item));
            }
        } else {
            assert(r[i] == s[si] && r[j] == s[sj]);
        }
    }
}

/// Sorting sorts.
pub proof fn stable_sort_sorts<M>(s: Seq<M>, key: spec_fn(M) -> Seq<char>)
    ensures
        sorted_by(stable_sort(s, key), key),
    decreases s.len(),
{
    if s.len() > 0 {
        stable_sort_sorts(s.drop_first(), key);
        lemma_placed_sorted(s[0], stable_sort(s.drop_first(), key), key);
    }
}

/// Sorting neither loses nor adds an item.
pub proof fn stable_sort_keeps_the_items<M>(s: Seq<M>, key: spec_fn(M) -> Seq<char>)
    ensures
        stable_sort(s, key).to_multiset() == s.to_multiset(),
        stable_sort(s, key).len() == s.len(),
    decreases s.len(),
{
    broadcast use vstd::seq_lib::group_to_multiset_ensures;

    if s.len() > 0 {
        let tail = s.drop_first();
        stable_sort_keeps_the_items(tail, key);
        let sorted = stable_sort(tail, key);
        lemma_place(s[0], sorted, key);
        let n = place(s[0], sorted, key);
        assert(sorted.insert(n, s[0]).to_multiset() =~= sorted.to_multiset().insert(s[0]));
        assert(s =~= tail.insert(0, s[0]));
        assert(s.to_multiset() =~= tail.to_multiset().insert(s[0]));
    }
}

/// What is sorted stays as it is.
pub proof fn sorting_what_is_sorted_changes_nothing<M>(s: Seq<M>, key: spec_fn(M) -> Seq<char>)
    requires
        sorted_by(s, key),
    ensures
        stable_sort(s, key) == s,
    decreases s.len(),
{
    if s.len() > 0 {
        let tail = s.drop_first();
        assert forall|i: int, j: int|
            #![trigger tail[i], tail[j]]
            0 <= i < j < tail.len() implies !precedes(key(tail[j]), key(tail[i])) by {
            assert(tail[i] == s[i + 1] && tail[j] == s[j + 1]);
        }
        sorting_what_is_sorted_changes_nothing(tail, key);
        if tail.len() > 0 {
            assert(tail[0] == s[1]);
            assert(!precedes(key(s[1]), key(s[0])));
        }
        assert(seq![s[0]] + tail =~= s);
    }
}

/// The items whose key is `k`, in their order.
pub open spec fn with_key<M>(s: Seq<M>, key: spec_fn(M) -> Seq<char>, k: Seq<char>) -> Seq<M>
    decreases s.len(),
{
    if s.len() == 0 {
        s
    } else if key(s[0]) == k {
        seq![s[0]] + with_key(s.drop_first(), key, k)
    } else {
        with_key(s.drop_first(), key, k)
    }
}

proof fn lemma_placed_with_key<M>(
    item: M,
    s: Seq<M>,
    key: spec_fn(M) -> Seq<char>,
    k: Seq<char>,
)
    ensures
        with_key(placed(item, s, key), key, k) == (if key(item) == k {
            seq![item] + with_key(s, key, k)
        } else {
            with_key(s, key, k)
        }),
    decreases s.len(),
{
    if s.len() > 0 && precedes(key(s[0]), key(item)) {
        let tail = s.drop_first();
        lemma_placed_with_key(item, tail, key, k);
        lemma_precedes_irreflexive(key(item));
        let r = seq![s[0]] + placed(item, tail, key);
        assert(r.drop_first() =~= placed(item, tail, key));
        assert(r[0] == s[0]);
    } else {
        let r = seq![item] + s;
        assert(r.drop_first() =~= s);
    }
}

/// Sorting keeps the order of the items that share a key.
pub proof fn stable_sort_is_stable<M>(s: Seq<M>, key: spec_fn(M) -> Seq<char>, k: Seq<char>)
    ensures
        with_key(stable_sort(s, key), key, k) == with_key(s, key, k),
    decreases s.len(),
{
    if s.len() > 0 {
        stable_sort_is_stable(s.drop_first(), key, k);
        lemma_placed_with_key(s[0], stable_sort(s.drop_first(), key), key, k);
    }
}

/// What a list of these can be sorted by.
pub trait Sortable: View + Sized {
    /// The key of an item, of which the item's model decides alone.
    spec fn key() -> spec_fn(Self::V) -> Seq<char>;

    /// Whether the key of this item comes before that of the other.
    fn is_before(&self, other: &Self) -> (r: bool)
        ensures
            r == precedes(Self::key()(self@), Self::key()(other@)),
    ;
}

/// The models of a list of items.
pub open spec fn models<T: View>(s: Seq<T>) -> Seq<T::V> {
    s.map_values(|item: T| item@)
}

pub proof fn lemma_models_push<T: View>(s: Seq<T>, item: T)
    ensures
        models(s.push(item)) == models(s).push(item@),
{
    assert(models(s.push(item)) =~= models(s).push(item@));
}

/// Where the first `n` models of two lists agree and the next items do, the first `n + 1` do.
pub proof fn lemma_models_grow<T: View>(copied: Seq<T>, all: Seq<T>, n: int, item: T)
    requires
        0 <= n < all.len(),
        models(copied) == models(all).take(n),
        item@ == all[n]@,
    ensures
        models(copied.push(item)) == models(all).take(n + 1),
{
    lemma_models_push(copied, item);
    assert(models(all).take(n + 1) =~= models(all).take(n).push(models(all)[n]));
}

/// Sorts a list by the keys of its items.
pub fn sort<T: Sortable>(items: Vec<T>) -> (r: Vec<T>)
    ensures
        models(r@) == stable_sort(models(items@), T::key()),
{
    let ghost all = models(items@);
    let ghost key = T::key();
    let mut rest = items;
    let mut r: Vec<T> = Vec::new();
    assert(models(r@) =~= stable_sort(all.skip(all.len() as int), key));
    loop
        invariant
            rest@.len() <= all.len(),
            models(rest@) == all.take(rest@.len() as int),
            models(r@) == stable_sort(all.skip(rest@.len() as int), key),
            key == T::key(),
        ensures
            rest@.len() == 0,
            models(r@) == stable_sort(all.skip(rest@.len() as int), key),
        decreases rest@.len(),
    {
        let ghost left = rest@;
        match rest.pop() {
            None => {
                break;
            },
            Some(item) => {
                let ghost n = rest@.len() as int;
                let ghost done = models(r@);
                assert(models(left)[n] == item@);
                assert(all[n] == item@);
                assert(models(rest@) =~= all.take(n));
                assert(all.skip(n).drop_first() =~= all.skip(n + 1));
                let mut at: usize = 0;
                while at < r.len() && r[at].is_before(&item)
                    invariant
                        at <= r@.len(),
                        done == models(r@),
                        key == T::key(),
                        forall|i: int|
                            0 <= i < at ==> precedes(key(#[trigger] done[i]), key(item@)),
                    decreases r@.len() - at,
                {
                    assert(done[at as int] == r@[at as int]@);
                    at += 1;
                }
                proof {
                    if at < r@.len() {
                        assert(done[at as int] == r@[at as int]@);
                    }
                    lemma_placed_at(item@, done, key, at as int);
                }
                r.insert(at, item);
                assert(models(r@) =~= done.insert(at as int, item@));
            },
        }
    }
    assert(all.skip(0) =~= all);
    r
}

impl Sortable for String {
    open spec fn key() -> spec_fn(Seq<char>) -> Seq<char> {
        |s: Seq<char>| s
    }

    fn is_before(&self, other: &Self) -> (r: bool) {
        text_precedes(self.as_str(), other.as_str())
    }
}

// ---------------------------------------------------------------------------
// Sets of strings, as sorted lists
// ---------------------------------------------------------------------------

/// Whether each text comes before every later one; so none occurs twice.
pub open spec fn strictly_sorted(s: Seq<Seq<char>>) -> bool {
    forall|i: int, j: int| #![trigger s[i], s[j]] 0 <= i < j < s.len() ==> precedes(s[i], s[j])
}

/// The texts of a finite set as a sorted list without repetitions, of which there is one.
pub open spec fn listing(set: Set<Seq<char>>) -> Seq<Seq<char>> {
    choose|r: Seq<Seq<char>>| #[trigger] strictly_sorted(r) && r.to_set() == set
}

/// The distinct strings of a list, in order.
pub fn distinct(items: Vec<String>) -> (r: Vec<String>)
    ensures
        strictly_sorted(text::texts(r@)),
        text::texts(r@).to_set() == text::texts(items@).to_set(),
        text::texts(r@) == listing(text::texts(items@).to_set()),
{
    let ghost key = String::key();
    let ghost given = text::texts(items@);
    assert(models(items@) =~= given);
    let sorted = sort(items);
    let ghost all = models(sorted@);
    proof {
        stable_sort_sorts(given, key);
        stable_sort_keeps_the_items(given, key);
        broadcast use vstd::seq_lib::group_to_multiset_ensures;

        assert forall|x: Seq<char>| given.to_set().contains(x) == all.to_set().contains(x) by {
            assert(given.contains(x) <==> given.to_multiset().count(x) > 0);
            assert(all.contains(x) <==> all.to_multiset().count(x) > 0);
        }
        assert(given.to_set() =~= all.to_set());
    }
    let mut r: Vec<String> = Vec::new();
    let mut i: usize = 0;
    while i < sorted.len()
        invariant
            i <= sorted@.len(),
            all == models(sorted@),
            sorted_by(all, key),
            key == String::key(),
            strictly_sorted(text::texts(r@)),
            i > 0 ==> r@.len() > 0 && text::texts(r@).last() == all[i - 1],
            i == 0 ==> r@.len() == 0,
            forall|x: Seq<char>|
                #[trigger] text::texts(r@).contains(x) <==> all.take(i as int).contains(x),
        decreases sorted@.len() - i,
    {
        let ghost before = text::texts(r@);
        let ghost x = all[i as int];
        assert(x == sorted@[i as int]@);
        let fresh = r.len() == 0 || !text::same_text(r[r.len() - 1].as_str(), sorted[i].as_str());
        assert(all.take(i + 1) =~= all.take(i as int).push(x));
        if fresh {
            r.push(sorted[i].clone());
            let ghost after = text::texts(r@);
            assert(after =~= before.push(x));
            proof {
                if before.len() > 0 {
                    assert(!precedes(key(all[i as int]), key(all[i - 1])));
                    lemma_precedes_total(before.last(), x);
                }
                assert forall|j: int, k: int|
                    #![trigger after[j], after[k]]
                    0 <= j < k < after.len() implies precedes(after[j], after[k]) by {
                    if k == before.len() {
                        if j < before.len() - 1 {
                            assert(precedes(before[j], before.last()));
                            lemma_precedes_transitive(before[j], before.last(), x);
                        }
                    } else {
                        assert(after[j] == before[j] && after[k] == before[k]);
                    }
                }
                assert forall|y: Seq<char>| #[trigger]
                    after.contains(y) <==> all.take(i + 1).contains(y) by {
                    lemma_push_contains(before, x, y);
                    lemma_push_contains(all.take(i as int), x, y);
                    assert(before.contains(y) <==> all.take(i as int).contains(y));
                }
            }
        } else {
            proof {
                assert(before.last() == x);
                assert(before.contains(x)) by {
                    assert(before[before.len() - 1] == x);
                }
                assert forall|y: Seq<char>| #[trigger]
                    before.contains(y) <==> all.take(i + 1).contains(y) by {
                    lemma_push_contains(all.take(i as int), x, y);
                    assert(before.contains(y) <==> all.take(i as int).contains(y));
                }
            }
        }
        i += 1;
    }
    proof {
        assert(all.take(all.len() as int) =~= all);
        assert(text::texts(r@).to_set() =~= all.to_set());
        strictly_sorted_lists_are_sets(text::texts(r@), listing(given.to_set()));
    }
    r
}

proof fn lemma_push_contains(s: Seq<Seq<char>>, x: Seq<char>, y: Seq<char>)
    ensures
        s.push(x).contains(y) <==> s.contains(y) || x == y,
{
    if s.contains(y) {
        let i = choose|i: int| 0 <= i < s.len() && s[i] == y;
        assert(s.push(x)[i] == y);
    }
    if x == y {
        assert(s.push(x)[s.len() as int] == y);
    }
    if s.push(x).contains(y) {
        let i = choose|i: int| 0 <= i < s.push(x).len() && s.push(x)[i] == y;
        if i < s.len() {
            assert(s[i] == y);
        }
    }
}

/// A strictly sorted list is determined by the texts in it: whatever order they were
/// found in, and however often, the list is the same.
pub proof fn strictly_sorted_lists_are_sets(a: Seq<Seq<char>>, b: Seq<Seq<char>>)
    requires
        strictly_sorted(a),
        strictly_sorted(b),
        a.to_set() == b.to_set(),
    ensures
        a == b,
    decreases a.len(),
{
    assert forall|x: Seq<char>| a.contains(x) <==> b.contains(x) by {
        assert(a.contains(x) <==> a.to_set().contains(x));
        assert(b.contains(x) <==> b.to_set().contains(x));
    }
    if a.len() == 0 {
        if b.len() > 0 {
            assert(b.contains(b[0]));
        }
        assert(a =~= b);
    } else {
        assert(a.contains(a[0]));
        assert(b.contains(a[0]));
        let j = choose|j: int| 0 <= j < b.len() && b[j] == a[0];
        assert(b.contains(b[0]));
        assert(a.contains(b[0]));
        let i = choose|i: int| 0 <= i < a.len() && a[i] == b[0];
        if j > 0 {
            assert(precedes(b[0], b[j]));
            if i > 0 {
                assert(precedes(a[0], a[i]));
                lemma_precedes_transitive(a[0], b[0], a[0]);
            }
            lemma_precedes_irreflexive(a[0]);
        }
        assert(a[0] == b[0]);
        let a1 = a.drop_first();
        let b1 = b.drop_first();
        lemma_tail_is_strictly_sorted(a);
        lemma_tail_is_strictly_sorted(b);
        assert forall|x: Seq<char>| a1.to_set().contains(x) == b1.to_set().contains(x) by {
            lemma_tail_contains(a, x);
            lemma_tail_contains(b, x);
            assert(a.contains(x) <==> b.contains(x));
        }
        assert(a1.to_set() =~= b1.to_set());
        strictly_sorted_lists_are_sets(a1, b1);
        assert(a =~= seq![a[0]] + a1);
        assert(b =~= seq![b[0]] + b1);
    }
}

proof fn lemma_tail_is_strictly_sorted(s: Seq<Seq<char>>)
    requires
        strictly_sorted(s),
        s.len() > 0,
    ensures
        strictly_sorted(s.drop_first()),
{
    let t = s.drop_first();
    assert forall|i: int, j: int| #![trigger t[i], t[j]] 0 <= i < j < t.len() implies precedes(
        t[i],
        t[j],
    ) by {
        assert(t[i] == s[i + 1] && t[j] == s[j + 1]);
    }
}

proof fn lemma_tail_contains(s: Seq<Seq<char>>, x: Seq<char>)
    requires
        strictly_sorted(s),
        s.len() > 0,
    ensures
        s.drop_first().contains(x) <==> s.contains(x) && x != s[0],
{
    let t = s.drop_first();
    if t.contains(x) {
        let i = choose|i: int| 0 <= i < t.len() && t[i] == x;
        assert(s[i + 1] == x);
        assert(precedes(s[0], s[i + 1]));
        lemma_precedes_irreflexive(x);
    }
    if s.contains(x) && x != s[0] {
        let i = choose|i: int| 0 <= i < s.len() && s[i] == x;
        assert(t[i - 1] == x);
    }
}

// ---------------------------------------------------------------------------
// What a list says whatever its order
// ---------------------------------------------------------------------------

/// Whether two items of a list stand in a relation that they should not.
pub open spec fn clash<M>(s: Seq<M>, same: spec_fn(M, M) -> bool) -> bool {
    exists|i: int, j: int| 0 <= i < j < s.len() && #[trigger] same(s[i], s[j])
}

/// Whether every item of a list has a property.
pub open spec fn every<M>(s: Seq<M>, property: spec_fn(M) -> bool) -> bool {
    forall|i: int| 0 <= i < s.len() ==> property(#[trigger] s[i])
}

/// Reordering a list takes no property from all of its items.
pub proof fn properties_survive_reordering<M>(
    s: Seq<M>,
    t: Seq<M>,
    property: spec_fn(M) -> bool,
)
    requires
        s.to_multiset() == t.to_multiset(),
    ensures
        every(s, property) ==> every(t, property),
{
    broadcast use vstd::seq_lib::group_to_multiset_ensures;

    if every(s, property) {
        assert forall|i: int| 0 <= i < t.len() implies property(#[trigger] t[i]) by {
            assert(t.contains(t[i]));
            assert(t.to_multiset().count(t[i]) > 0);
            assert(s.contains(t[i]));
            let k = choose|k: int| 0 <= k < s.len() && s[k] == t[i];
            assert(property(s[k]));
        }
    }
}

/// Reordering a list does not take two clashing items apart.
pub proof fn clashes_survive_reordering<M>(s: Seq<M>, t: Seq<M>, same: spec_fn(M, M) -> bool)
    requires
        s.to_multiset() == t.to_multiset(),
        forall|a: M, b: M| #[trigger] same(a, b) ==> same(b, a),
    ensures
        clash(s, same) ==> clash(t, same),
{
    broadcast use vstd::seq_lib::group_to_multiset_ensures;

    if clash(s, same) {
        let (i, j) = choose|i: int, j: int| 0 <= i < j < s.len() && #[trigger] same(s[i], s[j]);
        let x = s[i];
        let y = s[j];
        assert(s.contains(x) && s.contains(y));
        assert(s.to_multiset().count(x) > 0 && s.to_multiset().count(y) > 0);
        assert(t.to_multiset().count(x) > 0 && t.to_multiset().count(y) > 0);
        assert(t.contains(x) && t.contains(y));
        let p = choose|p: int| 0 <= p < t.len() && t[p] == x;
        let q = if x == y {
            let shorter = s.remove(i);
            assert(shorter[j - 1] == y);
            assert(shorter.contains(y));
            assert(shorter.to_multiset().count(y) > 0);
            assert(s.to_multiset().count(y) > 1);
            let other = t.remove(p);
            assert(other.to_multiset().count(y) > 0);
            assert(other.contains(y));
            let r = choose|r: int| 0 <= r < other.len() && other[r] == y;
            if r < p {
                assert(t[r] == other[r]);
                r
            } else {
                assert(t[r + 1] == other[r]);
                r + 1
            }
        } else {
            choose|q: int| 0 <= q < t.len() && t[q] == y
        };
        assert(p != q);
        assert(t[q] == y);
        if p < q {
            assert(same(t[p], t[q]));
        } else {
            assert(same(t[q], t[p]));
        }
    }
}

/// Text comes before other text where the two begin alike and the first ends there or goes on
/// with the smaller character, as the characters are numbered; and nowhere else.
pub proof fn the_first_difference_decides(a: &str, b: &str, r: bool, k: int)
    requires
        call_ensures(text_precedes, (a, b), r),
        0 <= k <= a@.len(),
        k <= b@.len(),
        a@.take(k) == b@.take(k),
    ensures
        k == a@.len() && k < b@.len() ==> r,
        k == b@.len() ==> !r,
        k < a@.len() && k < b@.len() && a@[k] != b@[k] ==> (r <==> a@[k] < b@[k]),
{
    lemma_first_difference(a@, b@, k);
}

proof fn lemma_first_difference(a: Seq<char>, b: Seq<char>, k: int)
    requires
        0 <= k <= a.len(),
        k <= b.len(),
        a.take(k) == b.take(k),
    ensures
        k == a.len() && k < b.len() ==> precedes(a, b),
        k == b.len() ==> !precedes(a, b),
        k < a.len() && k < b.len() && a[k] != b[k] ==> (precedes(a, b) <==> a[k] < b[k]),
    decreases k,
{
    if k > 0 {
        assert(a[0] == a.take(k)[0] && b[0] == b.take(k)[0]);
        let x = a.drop_first();
        let y = b.drop_first();
        assert(x.take(k - 1) =~= a.take(k).drop_first());
        assert(y.take(k - 1) =~= b.take(k).drop_first());
        lemma_first_difference(x, y, k - 1);
    }
}

/// Sorting puts nothing before anything that its key comes after, keeps every item as often as
/// it was there, and leaves items of one key in their order.
pub proof fn sorting_orders_and_keeps<T: Sortable>(items: Vec<T>, r: Vec<T>, k: Seq<char>)
    requires
        call_ensures(sort::<T>, (items,), r),
    ensures
        sorted_by(models(r@), T::key()),
        models(r@).to_multiset() == models(items@).to_multiset(),
        with_key(models(r@), T::key(), k) == with_key(models(items@), T::key(), k),
        r@.len() == items@.len(),
{
    let given = models(items@);
    stable_sort_sorts(given, T::key());
    stable_sort_keeps_the_items(given, T::key());
    stable_sort_is_stable(given, T::key(), k);
    assert(models(r@).len() == r@.len());
    vstd::seq_lib::to_multiset_len(models(r@));
    vstd::seq_lib::to_multiset_len(given);
}

/// The distinct texts of a list are those in it, each once, in order.
pub proof fn distinct_texts_are_those_of_the_list(items: Vec<String>, r: Vec<String>, x: Seq<char>)
    requires
        call_ensures(distinct, (items,), r),
    ensures
        strictly_sorted(text::texts(r@)),
        text::texts(r@).contains(x) <==> text::texts(items@).contains(x),
{
    let a = text::texts(r@);
    let b = text::texts(items@);
    assert(a.to_set().contains(x) <==> a.contains(x));
    assert(b.to_set().contains(x) <==> b.contains(x));
}

} // verus!
