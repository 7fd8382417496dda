//! Collections that are kept in the order of their names.

use crate::text::same_text;
use vstd::prelude::*;
use vstd::string::StrSliceExecFns;

verus! {

/// Whether `a` comes before `b` from the `i`-th character on, where the ones
/// before are equal.
pub open spec fn less_from(a: Seq<char>, b: Seq<char>, i: int) -> bool
    decreases a.len() - i,
{
    if i >= b.len() {
        false
    } else if i >= a.len() {
        true
    } else if a[i] == b[i] {
        less_from(a, b, i + 1)
    } else {
        a[i] < b[i]
    }
}

/// The order of texts, character by character.
pub open spec fn comes_before(a: Seq<char>, b: Seq<char>) -> bool {
    less_from(a, b, 0)
}

proof fn lemma_less_irreflexive(a: Seq<char>, i: int)
    ensures
        !less_from(a, a, i),
    decreases a.len() - i,
{
    if i < a.len() {
        lemma_less_irreflexive(a, i + 1);
    }
}

proof fn lemma_less_transitive(a: Seq<char>, b: Seq<char>, c: Seq<char>, i: int)
    requires
        less_from(a, b, i),
        less_from(b, c, i),
    ensures
        less_from(a, c, i),
    decreases a.len() - i,
{
    if i < a.len() && i < b.len() && i < c.len() && a[i] == b[i] && b[i] == c[i] {
        lemma_less_transitive(a, b, c, i + 1);
    }
}

proof fn lemma_less_total(a: Seq<char>, b: Seq<char>, i: int)
    requires
        0 <= i,
        i <= a.len(),
        i <= b.len(),
        forall|k: int| 0 <= k < i ==> a[k] == b[k],
    ensures
        less_from(a, b, i) || less_from(b, a, i) || a == b,
    decreases a.len() - i,
{
    if i < a.len() && i < b.len() && a[i] == b[i] {
        lemma_less_total(a, b, i + 1);
    } else if i == a.len() && i == b.len() {
        assert(a =~= b);
    }
}

/// The order of texts is strict and total.
pub proof fn lemma_texts_are_ordered(a: Seq<char>, b: Seq<char>, c: Seq<char>)
    ensures
        !comes_before(a, a),
        comes_before(a, b) && comes_before(b, c) ==> comes_before(a, c),
        comes_before(a, b) || comes_before(b, a) || a == b,
{
    lemma_less_irreflexive(a, 0);
    if comes_before(a, b) && comes_before(b, c) {
        lemma_less_transitive(a, b, c, 0);
    }
    lemma_less_total(a, b, 0);
}

pub fn precedes(a: &str, b: &str) -> (yes: bool)
    ensures
        yes == comes_before(a@, b@),
{
    let a_length: usize = a.unicode_len();
    let b_length: usize = b.unicode_len();
    let mut i: usize = 0;
    while i < a_length && i < b_length
        invariant
            i <= a_length,
            i <= b_length,
            a_length == a@.len(),
            b_length == b@.len(),
            less_from(a@, b@, i as int) == comes_before(a@, b@),
        decreases a_length - i,
    {
        let left: char = a.get_char(i);
        let right: char = b.get_char(i);
        if left != right {
            return left < right;
        }
        i += 1;
    }
    i < b_length
}

/// What stands under a name, at its first place.
pub open spec fn found<T>(entries: Seq<(String, T)>, name: Seq<char>) -> Option<T>
    decreases entries.len(),
{
    if entries.len() == 0 {
        None
    } else if entries[0].0@ == name {
        Some(entries[0].1)
    } else {
        found(entries.drop_first(), name)
    }
}

/// The names stand in order, each once.
pub open spec fn ascending<T>(entries: Seq<(String, T)>) -> bool {
    forall|i: int, j: int|
        0 <= i < j < entries.len() ==> comes_before(
            (#[trigger] entries[i]).0@,
            (#[trigger] entries[j]).0@,
        )
}

pub open spec fn contents<T>(entries: Seq<(String, T)>) -> Map<Seq<char>, T> {
    Map::new(
        |name: Seq<char>| found(entries, name) is Some,
        |name: Seq<char>| found(entries, name)->Some_0,
    )
}

proof fn lemma_found<T>(entries: Seq<(String, T)>, i: int)
    requires
        ascending(entries),
        0 <= i < entries.len(),
    ensures
        found(entries, entries[i].0@) == Some(entries[i].1),
    decreases entries.len(),
{
    if i > 0 {
        lemma_texts_are_ordered(entries[0].0@, entries[i].0@, entries[0].0@);
        assert(comes_before(entries[0].0@, entries[i].0@));
        assert forall|j: int, k: int|
            0 <= j < k < entries.drop_first().len() implies comes_before(
            (#[trigger] entries.drop_first()[j]).0@,
            (#[trigger] entries.drop_first()[k]).0@,
        ) by {
            assert(comes_before(entries[j + 1].0@, entries[k + 1].0@));
        }
        lemma_found(entries.drop_first(), i - 1);
    }
}

proof fn lemma_absent<T>(entries: Seq<(String, T)>, name: Seq<char>)
    requires
        forall|i: int| 0 <= i < entries.len() ==> (#[trigger] entries[i]).0@ != name,
    ensures
        found(entries, name) is None,
    decreases entries.len(),
{
    if entries.len() > 0 {
        assert(entries[0].0@ != name);
        assert forall|i: int| 0 <= i < entries.drop_first().len() implies (
        #[trigger] entries.drop_first()[i]).0@ != name by {
            assert(entries[i + 1].0@ != name);
        }
        lemma_absent(entries.drop_first(), name);
    }
}

proof fn lemma_place<T>(entries: Seq<(String, T)>, name: Seq<char>) -> (i: int)
    requires
        found(entries, name) is Some,
    ensures
        0 <= i < entries.len(),
        entries[i].0@ == name,
    decreases entries.len(),
{
    if entries[0].0@ == name {
        0
    } else {
        let i = lemma_place(entries.drop_first(), name);
        i + 1
    }
}

/// The place of a name, where it is among the entries.
pub open spec fn place_of<T>(entries: Seq<(String, T)>, name: Seq<char>) -> int {
    choose|i: int| 0 <= i < entries.len() && entries[i].0@ == name
}

/// An entry with the name stands at its place.
pub proof fn lemma_place_of<T>(entries: Seq<(String, T)>, name: Seq<char>)
    requires
        contents(entries).contains_key(name),
    ensures
        0 <= place_of(entries, name) < entries.len(),
        entries[place_of(entries, name)].0@ == name,
{
    let i = lemma_place(entries, name);
    assert(entries[i].0@ == name);
}

/// Values by name, in the order of the names.
#[derive(Debug)]
pub struct NameMap<T> {
    pub entries: Vec<(String, T)>,
}

impl<T> View for NameMap<T> {
    type V = Map<Seq<char>, T>;

    open spec fn view(&self) -> Map<Seq<char>, T> {
        contents(self.entries@)
    }
}

impl<T> NameMap<T> {
    /// The names stand in order, each once.
    pub open spec fn well_formed(self) -> bool {
        ascending(self.entries@)
    }

    pub fn new() -> (map: Self)
        ensures
            map.well_formed(),
            map@ == Map::<Seq<char>, T>::empty(),
            map.entries@.len() == 0,
    {
        let map: NameMap<T> = NameMap { entries: Vec::new() };
        assert(map@ =~= Map::<Seq<char>, T>::empty());
        map
    }

    fn place(&self, name: &str) -> (at: usize)
        requires
            self.well_formed(),
        ensures
            at <= self.entries@.len(),
            forall|i: int|
                0 <= i < at ==> comes_before((#[trigger] self.entries@[i]).0@, name@),
            forall|i: int|
                at <= i < self.entries@.len() ==> !comes_before(
                    (#[trigger] self.entries@[i]).0@,
                    name@,
                ),
            forall|i: int|
                at < i < self.entries@.len() ==> comes_before(
                    name@,
                    (#[trigger] self.entries@[i]).0@,
                ),
    {
        let mut at: usize = 0;
        while at < self.entries.len() && precedes(self.entries[at].0.as_str(), name)
            invariant
                at <= self.entries@.len(),
                forall|i: int|
                    0 <= i < at ==> comes_before((#[trigger] self.entries@[i]).0@, name@),
            decreases self.entries@.len() - at,
        {
            at += 1;
        }
        proof {
            assert forall|i: int| at <= i < self.entries@.len() implies !comes_before(
                (#[trigger] self.entries@[i]).0@,
                name@,
            ) by {
                if at < i {
                    assert(comes_before(self.entries@[at as int].0@, self.entries@[i].0@));
                    lemma_texts_are_ordered(
                        self.entries@[at as int].0@,
                        self.entries@[i].0@,
                        name@,
                    );
                }
            }
            assert forall|i: int| at < i < self.entries@.len() implies comes_before(
                name@,
                (#[trigger] self.entries@[i]).0@,
            ) by {
                assert(comes_before(self.entries@[at as int].0@, self.entries@[i].0@));
                lemma_texts_are_ordered(
                    name@,
                    self.entries@[at as int].0@,
                    self.entries@[i].0@,
                );
                lemma_texts_are_ordered(
                    name@,
                    self.entries@[i].0@,
                    name@,
                );
            }
        }
        at
    }

    /// What stands under a name.
    pub fn get(&self, name: &str) -> (value: Option<&T>)
        requires
            self.well_formed(),
        ensures
            match value {
                Some(value) => self@.contains_key(name@) && *value == self@[name@],
                None => !self@.contains_key(name@),
            },
    {
        let at: usize = self.place(name);
        if at < self.entries.len() && same_text(self.entries[at].0.as_str(), name) {
            proof {
                lemma_found(self.entries@, at as int);
            }
            Some(&self.entries[at].1)
        } else {
            proof {
                assert forall|i: int| 0 <= i < self.entries@.len() implies (
                #[trigger] self.entries@[i]).0@ != name@ by {
                    lemma_texts_are_ordered(self.entries@[i].0@, name@, name@);
                }
                lemma_absent(self.entries@, name@);
            }
            None
        }
    }

    /// Puts a value under a name, in place of the one that was there.
    pub fn insert(&mut self, name: String, value: T)
        requires
            old(self).well_formed(),
        ensures
            final(self).well_formed(),
            final(self)@ == old(self)@.insert(name@, value),
    {
        let at: usize = self.place(name.as_str());
        let ghost before = self.entries@;
        let ghost key = name@;
        if at < self.entries.len() && same_text(self.entries[at].0.as_str(), name.as_str()) {
            self.entries.set(at, (name, value));
            proof {
                assert forall|k: Seq<char>| #[trigger] found(self.entries@, k) == (if k == key {
                    Some(value)
                } else {
                    found(before, k)
                }) by {
                    if k == key {
                        lemma_found(self.entries@, at as int);
                    } else if found(before, k) is Some {
                        let i = lemma_place(before, k);
                        assert(self.entries@[i] == before[i]);
                        lemma_found(before, i);
                        lemma_found(self.entries@, i);
                    } else {
                        assert forall|i: int| 0 <= i < self.entries@.len() implies (
                        #[trigger] self.entries@[i]).0@ != k by {
                            lemma_found(before, i);
                        }
                        lemma_absent(self.entries@, k);
                    }
                }
            }
        } else {
            self.entries.insert(at, (name, value));
            proof {
                let after = self.entries@;
                assert forall|i: int| 0 <= i < before.len() implies #[trigger] before[i] == after[(
                if i < at {
                    i
                } else {
                    i + 1
                })] by {}
                if at < before.len() {
                    lemma_texts_are_ordered(before[at as int].0@, key, key);
                }
                assert forall|i: int, j: int| 0 <= i < j < after.len() implies comes_before(
                    (#[trigger] after[i]).0@,
                    (#[trigger] after[j]).0@,
                ) by {
                    let bi = if i < at {
                        i
                    } else {
                        i - 1
                    };
                    let bj = if j < at {
                        j
                    } else {
                        j - 1
                    };
                    if i != at {
                        assert(after[i] == before[bi]);
                    }
                    if j != at {
                        assert(after[j] == before[bj]);
                    }
                    if i != at && j != at {
                        assert(comes_before(before[bi].0@, before[bj].0@));
                    }
                }
                assert forall|k: Seq<char>| #[trigger] found(after, k) == (if k == key {
                    Some(value)
                } else {
                    found(before, k)
                }) by {
                    if k == key {
                        lemma_found(after, at as int);
                    } else if found(before, k) is Some {
                        let i = lemma_place(before, k);
                        lemma_found(before, i);
                        if i < at {
                            lemma_found(after, i);
                        } else {
                            lemma_found(after, i + 1);
                        }
                    } else {
                        assert forall|i: int| 0 <= i < after.len() implies (
                        #[trigger] after[i]).0@ != k by {
                            if i < at {
                                lemma_found(before, i);
                            } else if i > at {
                                lemma_found(before, i - 1);
                            }
                        }
                        lemma_absent(after, k);
                    }
                }
            }
        }
        proof {
            assert(self@ =~= old(self)@.insert(key, value));
        }
    }
}

/// Two collections with the same contents list them alike: the order is that of
/// the names.
pub proof fn lemma_order_is_determined<T>(a: NameMap<T>, b: NameMap<T>)
    requires
        a.well_formed(),
        b.well_formed(),
        a@ == b@,
    ensures
        a.entries@.len() == b.entries@.len(),
        forall|i: int|
            0 <= i < a.entries@.len() ==> (#[trigger] a.entries@[i]).0@ == b.entries@[i].0@
                && a.entries@[i].1 == b.entries@[i].1,
    decreases a.entries@.len(),
{
    assert forall|k: Seq<char>| #[trigger] found(a.entries@, k) == found(b.entries@, k) by {
        assert(a@.contains_key(k) == (found(a.entries@, k) is Some));
        assert(b@.contains_key(k) == (found(b.entries@, k) is Some));
        if a@.contains_key(k) {
            assert(a@[k] == found(a.entries@, k)->Some_0);
            assert(b@[k] == found(b.entries@, k)->Some_0);
        }
    }
    lemma_same_order(a.entries@, b.entries@);
}

proof fn lemma_tail_ascends<T>(entries: Seq<(String, T)>)
    requires
        ascending(entries),
        entries.len() > 0,
    ensures
        ascending(entries.drop_first()),
        found(entries.drop_first(), entries[0].0@) is None,
{
    let tail = entries.drop_first();
    assert forall|i: int, j: int| 0 <= i < j < tail.len() implies comes_before(
        (#[trigger] tail[i]).0@,
        (#[trigger] tail[j]).0@,
    ) by {
        assert(comes_before(entries[i + 1].0@, entries[j + 1].0@));
    }
    assert forall|i: int| 0 <= i < tail.len() implies (#[trigger] tail[i]).0@ != entries[0].0@ by {
        assert(comes_before(entries[0].0@, entries[i + 1].0@));
        lemma_texts_are_ordered(entries[0].0@, entries[0].0@, entries[0].0@);
    }
    lemma_absent(tail, entries[0].0@);
}

proof fn lemma_same_order<T>(a: Seq<(String, T)>, b: Seq<(String, T)>)
    requires
        ascending(a),
        ascending(b),
        forall|k: Seq<char>| #[trigger] found(a, k) == found(b, k),
    ensures
        a.len() == b.len(),
        forall|i: int|
            0 <= i < a.len() ==> (#[trigger] a[i]).0@ == b[i].0@ && a[i].1 == b[i].1,
    decreases a.len(),
{
    if a.len() == 0 {
        if b.len() > 0 {
            assert(found(b, b[0].0@) is Some);
            assert(found(a, b[0].0@) is None);
        }
    } else {
        assert(found(a, a[0].0@) is Some);
        let i = lemma_place(b, a[0].0@);
        assert(found(b, b[0].0@) is Some);
        let j = lemma_place(a, b[0].0@);
        lemma_texts_are_ordered(a[0].0@, b[0].0@, a[0].0@);
        if i > 0 {
            assert(comes_before(b[0].0@, b[i].0@));
        }
        if j > 0 {
            assert(comes_before(a[0].0@, a[j].0@));
        }
        assert(a[0].0@ == b[0].0@);
        lemma_tail_ascends(a);
        lemma_tail_ascends(b);
        assert forall|k: Seq<char>| #[trigger]
            found(a.drop_first(), k) == found(b.drop_first(), k) by {
            assert(found(a, k) == found(b, k));
        }
        lemma_same_order(a.drop_first(), b.drop_first());
        assert forall|n: int| 0 <= n < a.len() implies (#[trigger] a[n]).0@ == b[n].0@ && a[n].1
            == b[n].1 by {
            if n > 0 {
                assert(a.drop_first()[n - 1] == a[n]);
                assert(b.drop_first()[n - 1] == b[n]);
            }
        }
    }
}

/// Texts are ordered by their first characters, then by what follows, and what ends
/// first comes first.
pub proof fn lemma_texts_are_ordered_by_their_characters(
    c: char,
    d: char,
    a: Seq<char>,
    b: Seq<char>,
)
    ensures
        comes_before(seq![c] + a, seq![d] + b) <==> c < d || (c == d && comes_before(a, b)),
        comes_before(Seq::empty(), seq![d] + b),
        !comes_before(a, Seq::empty()),
{
    let x = seq![c] + a;
    let y = seq![d] + b;
    if c == d {
        lemma_less_without_the_first(c, a, b, 0);
        reveal_with_fuel(less_from, 2);
        assert(x[0] == y[0]);
    }
}

proof fn lemma_less_without_the_first(c: char, a: Seq<char>, b: Seq<char>, i: int)
    requires
        0 <= i <= a.len() || 0 <= i <= b.len(),
    ensures
        less_from(seq![c] + a, seq![c] + b, i + 1) == less_from(a, b, i),
    decreases a.len() - i,
{
    let x = seq![c] + a;
    let y = seq![c] + b;
    if i < b.len() && i < a.len() {
        assert(x[i + 1] == a[i] && y[i + 1] == b[i]);
        lemma_less_without_the_first(c, a, b, i + 1);
    }
}

/// A map of names holds what its entries hold, each under its name, and nothing else.
pub proof fn lemma_maps_hold_their_entries<T>(map: NameMap<T>, i: int, name: Seq<char>)
    requires
        map.well_formed(),
        0 <= i < map.entries@.len(),
    ensures
        map@.contains_key(map.entries@[i].0@),
        map@[map.entries@[i].0@] == map.entries@[i].1,
        map@.contains_key(name) <==> exists|k: int|
            0 <= k < map.entries@.len() && (#[trigger] map.entries@[k]).0@ == name,
{
    lemma_found(map.entries@, i);
    if map@.contains_key(name) {
        let k = lemma_place(map.entries@, name);
        assert(map.entries@[k].0@ == name);
    }
    if exists|k: int| 0 <= k < map.entries@.len() && (#[trigger] map.entries@[k]).0@ == name {
        let k = choose|k: int|
            0 <= k < map.entries@.len() && (#[trigger] map.entries@[k]).0@ == name;
        lemma_found(map.entries@, k);
    }
}

} // verus!
