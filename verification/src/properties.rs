//! Named text values, such as the properties of a block state.

use crate::text::same_text;
use vstd::prelude::*;

verus! {

/// The value of the first entry with a name.
pub open spec fn value_of(entries: Seq<(String, String)>, name: Seq<char>) -> Option<Seq<char>>
    decreases entries.len(),
{
    if entries.len() == 0 {
        None
    } else if entries[0].0@ == name {
        Some(entries[0].1@)
    } else {
        value_of(entries.drop_first(), name)
    }
}

/// The values by name.
pub open spec fn table(entries: Seq<(String, String)>) -> Map<Seq<char>, Seq<char>> {
    Map::new(
        |name: Seq<char>| value_of(entries, name) is Some,
        |name: Seq<char>| value_of(entries, name)->0,
    )
}

/// The names and values of entries.
pub open spec fn pair_views(entries: Seq<(String, String)>) -> Seq<(Seq<char>, Seq<char>)> {
    entries.map_values(|entry: (String, String)| (entry.0@, entry.1@))
}

/// The value of the first pair with a name.
pub open spec fn paired_value(pairs: Seq<(Seq<char>, Seq<char>)>, name: Seq<char>) -> Option<Seq<char>>
    decreases pairs.len(),
{
    if pairs.len() == 0 {
        None
    } else if pairs[0].0 == name {
        Some(pairs[0].1)
    } else {
        paired_value(pairs.drop_first(), name)
    }
}

/// The values of pairs by name.
pub open spec fn paired_table(pairs: Seq<(Seq<char>, Seq<char>)>) -> Map<Seq<char>, Seq<char>> {
    Map::new(
        |name: Seq<char>| paired_value(pairs, name) is Some,
        |name: Seq<char>| paired_value(pairs, name)->0,
    )
}

/// No name occurs twice.
pub open spec fn distinct_names(entries: Seq<(String, String)>) -> bool {
    forall|i: int, j: int|
        0 <= i < j < entries.len() ==> (#[trigger] entries[i]).0@ != (#[trigger] entries[j]).0@
}

proof fn lemma_pairs_have_the_values(entries: Seq<(String, String)>, name: Seq<char>)
    ensures
        paired_value(pair_views(entries), name) == value_of(entries, name),
    decreases entries.len(),
{
    if entries.len() > 0 {
        lemma_pairs_have_the_values(entries.drop_first(), name);
        assert(pair_views(entries).drop_first() =~= pair_views(entries.drop_first()));
    }
}

/// The entries and the pairs of their texts give the same values.
pub proof fn lemma_paired_table(entries: Seq<(String, String)>)
    ensures
        paired_table(pair_views(entries)) == table(entries),
{
    assert forall|name: Seq<char>| #[trigger]
        paired_value(pair_views(entries), name) == value_of(entries, name) by {
        lemma_pairs_have_the_values(entries, name);
    }
    assert(paired_table(pair_views(entries)) =~= table(entries));
}

pub fn lookup<'a>(entries: &'a Vec<(String, String)>, name: &str) -> (value: Option<&'a str>)
    ensures
        match value {
            Some(found) => value_of(entries@, name@) == Some(found@),
            None => value_of(entries@, name@) is None,
        },
{
    let mut i: usize = 0;
    assert(entries@.subrange(0, entries@.len() as int) =~= entries@);
    while i < entries.len()
        invariant
            i <= entries@.len(),
            value_of(entries@, name@) == value_of(
                entries@.subrange(i as int, entries@.len() as int),
                name@,
            ),
        decreases entries@.len() - i,
    {
        let ghost tail = entries@.subrange(i as int, entries@.len() as int);
        assert(tail[0] == entries@[i as int]);
        if same_text(entries[i].0.as_str(), name) {
            return Some(entries[i].1.as_str());
        }
        assert(tail.drop_first() =~= entries@.subrange(i + 1, entries@.len() as int));
        i += 1;
    }
    None
}

/// One more entry gives a value to its name, unless the name has one already.
pub proof fn lemma_value_of_push(
    entries: Seq<(String, String)>,
    entry: (String, String),
    name: Seq<char>,
)
    ensures
        value_of(entries.push(entry), name) == (match value_of(entries, name) {
            Some(value) => Some(value),
            None => if entry.0@ == name {
                Some(entry.1@)
            } else {
                None
            },
        }),
    decreases entries.len(),
{
    if entries.len() == 0 {
        assert(entries.push(entry)[0] == entry);
        assert(entries.push(entry).drop_first() =~= entries);
    } else {
        assert(entries.push(entry)[0] == entries[0]);
        assert(entries.push(entry).drop_first() =~= entries.drop_first().push(entry));
        lemma_value_of_push(entries.drop_first(), entry, name);
    }
}

proof fn lemma_value_of_update(
    entries: Seq<(String, String)>,
    at: int,
    entry: (String, String),
    name: Seq<char>,
)
    requires
        0 <= at < entries.len(),
        entries[at].0@ == entry.0@,
        forall|k: int| 0 <= k < at ==> (#[trigger] entries[k]).0@ != entry.0@,
    ensures
        value_of(entries.update(at, entry), name) == (if name == entry.0@ {
            Some(entry.1@)
        } else {
            value_of(entries, name)
        }),
    decreases entries.len(),
{
    let changed = entries.update(at, entry);
    if at == 0 {
        assert(changed.drop_first() =~= entries.drop_first());
    } else {
        assert(changed[0] == entries[0]);
        assert(changed.drop_first() =~= entries.drop_first().update(at - 1, entry));
        assert forall|k: int| 0 <= k < at - 1 implies (#[trigger] entries.drop_first()[k]).0@
            != entry.0@ by {
            assert(entries.drop_first()[k] == entries[k + 1]);
        }
        lemma_value_of_update(entries.drop_first(), at - 1, entry, name);
    }
}

/// Gives a name a value, in place of the one it has.
pub fn set_value(entries: &mut Vec<(String, String)>, name: String, value: String)
    ensures
        table(final(entries)@) =~= table(old(entries)@).insert(name@, value@),
        distinct_names(old(entries)@) ==> distinct_names(final(entries)@),
        forall|key: Seq<char>| #[trigger]
            value_of(final(entries)@, key) == (if key == name@ {
                Some(value@)
            } else {
                value_of(old(entries)@, key)
            }),
{
    let ghost before = entries@;
    let ghost entry = (name, value);
    let mut i: usize = 0;
    while i < entries.len()
        invariant
            i <= entries@.len(),
            entries@ == before,
            before == old(entries)@,
            forall|k: int| 0 <= k < i ==> (#[trigger] entries@[k]).0@ != name@,
        decreases entries@.len() - i,
    {
        if same_text(entries[i].0.as_str(), name.as_str()) {
            entries.set(i, (name, value));
            proof {
                assert forall|key: Seq<char>| #[trigger]
                    value_of(entries@, key) == (if key == name@ {
                        Some(value@)
                    } else {
                        value_of(before, key)
                    }) by {
                    lemma_value_of_update(before, i as int, (name, value), key);
                }
            }
            return;
        }
        i += 1;
    }
    entries.push((name, value));
    proof {
        lemma_absent(before, name@);
        assert forall|key: Seq<char>| #[trigger]
            value_of(entries@, key) == (if key == name@ {
                Some(value@)
            } else {
                value_of(before, key)
            }) by {
            lemma_value_of_push(before, (name, value), key);
        }
    }
}

/// A name that no entry has has no value.
pub proof fn lemma_absent(entries: Seq<(String, String)>, name: Seq<char>)
    requires
        forall|k: int| 0 <= k < entries.len() ==> (#[trigger] entries[k]).0@ != name,
    ensures
        value_of(entries, name) is None,
    decreases entries.len(),
{
    if entries.len() > 0 {
        assert forall|k: int| 0 <= k < entries.drop_first().len() implies (
        #[trigger] entries.drop_first()[k]).0@ != name by {
            assert(entries.drop_first()[k] == entries[k + 1]);
        }
        lemma_absent(entries.drop_first(), name);
    }
}

/// The entries that do not have a name.
pub open spec fn without(entries: Seq<(String, String)>, name: Seq<char>) -> Seq<(String, String)>
    decreases entries.len(),
{
    if entries.len() == 0 {
        Seq::empty()
    } else {
        let before = without(entries.drop_last(), name);
        if entries.last().0@ == name {
            before
        } else {
            before.push(entries.last())
        }
    }
}

proof fn lemma_value_of_without(entries: Seq<(String, String)>, name: Seq<char>, key: Seq<char>)
    ensures
        value_of(without(entries, name), key) == (if key == name {
            None
        } else {
            value_of(entries, key)
        }),
    decreases entries.len(),
{
    if entries.len() > 0 {
        let before = entries.drop_last();
        lemma_value_of_without(before, name, key);
        lemma_value_of_push(before, entries.last(), key);
        lemma_value_of_push(without(before, name), entries.last(), key);
        assert(before.push(entries.last()) =~= entries);
    }
}

proof fn lemma_without_distinct(entries: Seq<(String, String)>, name: Seq<char>)
    requires
        distinct_names(entries),
    ensures
        distinct_names(without(entries, name)),
        forall|k: int|
            0 <= k < without(entries, name).len() ==> exists|i: int|
                0 <= i < entries.len() && entries[i] == #[trigger] without(entries, name)[k],
    decreases entries.len(),
{
    if entries.len() > 0 {
        let before = entries.drop_last();
        assert(distinct_names(before)) by {
            assert forall|i: int, j: int| 0 <= i < j < before.len() implies (
            #[trigger] before[i]).0@ != (#[trigger] before[j]).0@ by {
                assert(entries[i].0@ != entries[j].0@);
            }
        }
        lemma_without_distinct(before, name);
        let kept = without(before, name);
        let all = without(entries, name);
        assert forall|k: int| 0 <= k < all.len() implies exists|i: int|
            0 <= i < entries.len() && entries[i] == #[trigger] all[k] by {
            if k < kept.len() {
                let i = choose|i: int| 0 <= i < before.len() && before[i] == kept[k];
                assert(entries[i] == all[k]);
            } else {
                assert(entries[entries.len() - 1] == all[k]);
            }
        }
        assert forall|i: int, j: int| 0 <= i < j < all.len() implies (#[trigger] all[i]).0@ != (
        #[trigger] all[j]).0@ by {
            if j < kept.len() {
                assert(kept[i].0@ != kept[j].0@);
            } else {
                let m = choose|m: int| 0 <= m < before.len() && before[m] == kept[i];
                assert(entries[m].0@ != entries[entries.len() - 1].0@);
            }
        }
    }
}

/// Takes a name away, and returns the value that it had.
pub fn remove_value(entries: &mut Vec<(String, String)>, name: &str) -> (value: Option<String>)
    ensures
        table(final(entries)@) =~= table(old(entries)@).remove(name@),
        distinct_names(old(entries)@) ==> distinct_names(final(entries)@),
        forall|key: Seq<char>| #[trigger]
            value_of(final(entries)@, key) == (if key == name@ {
                None
            } else {
                value_of(old(entries)@, key)
            }),
        match value {
            Some(found) => value_of(old(entries)@, name@) == Some(found@),
            None => value_of(old(entries)@, name@) is None,
        },
{
    let ghost before = entries@;
    let value: Option<String> = match lookup(entries, name) {
        Some(found) => Some(found.to_owned()),
        None => None,
    };
    let mut kept: Vec<(String, String)> = Vec::new();
    let mut i: usize = 0;
    assert(before.take(0) =~= Seq::<(String, String)>::empty());
    while i < entries.len()
        invariant
            i <= entries@.len(),
            entries@ == before,
            before == old(entries)@,
            kept@ == without(before.take(i as int), name@),
        decreases entries@.len() - i,
    {
        proof {
            assert(before.take(i + 1).drop_last() =~= before.take(i as int));
            assert(before.take(i + 1).last() == before[i as int]);
        }
        if !same_text(entries[i].0.as_str(), name) {
            kept.push((entries[i].0.clone(), entries[i].1.clone()));
        }
        i += 1;
    }
    *entries = kept;
    proof {
        assert(before.take(before.len() as int) =~= before);
        assert forall|key: Seq<char>| #[trigger]
            value_of(entries@, key) == (if key == name@ {
                None
            } else {
                value_of(before, key)
            }) by {
            lemma_value_of_without(before, name@, key);
        }
        if distinct_names(before) {
            lemma_without_distinct(before, name@);
        }
    }
    value
}

/// A property has the value that stands first under its name.
pub proof fn lemma_first_value_counts(entries: Seq<(String, String)>, name: Seq<char>)
    ensures
        match value_of(entries, name) {
            Some(value) => exists|i: int|
                {
                    &&& 0 <= i < entries.len()
                    &&& (#[trigger] entries[i]).0@ == name && entries[i].1@ == value
                    &&& forall|j: int| 0 <= j < i ==> (#[trigger] entries[j]).0@ != name
                },
            None => forall|i: int| 0 <= i < entries.len() ==> (#[trigger] entries[i]).0@ != name,
        },
    decreases entries.len(),
{
    if entries.len() > 0 && entries[0].0@ != name {
        let rest = entries.drop_first();
        lemma_first_value_counts(rest, name);
        match value_of(rest, name) {
            Some(value) => {
                let i = choose|i: int|
                    {
                        &&& 0 <= i < rest.len()
                        &&& (#[trigger] rest[i]).0@ == name && rest[i].1@ == value
                        &&& forall|j: int| 0 <= j < i ==> (#[trigger] rest[j]).0@ != name
                    };
                assert(entries[i + 1] == rest[i]);
                assert forall|j: int| 0 <= j < i + 1 implies (#[trigger] entries[j]).0@ != name by {
                    if j > 0 {
                        assert(entries[j] == rest[j - 1]);
                    }
                }
            },
            None => {
                assert forall|i: int| 0 <= i < entries.len() implies (#[trigger] entries[i]).0@
                    != name by {
                    if i > 0 {
                        assert(entries[i] == rest[i - 1]);
                    }
                }
            },
        }
    } else if entries.len() > 0 {
        assert(entries[0].1@ == value_of(entries, name)->Some_0);
    }
}

/// Without a name all other properties are left, in their order.
pub proof fn lemma_other_properties_are_left(entries: Seq<(String, String)>, name: Seq<char>)
    ensures
        without(entries, name) == entries.filter(|entry: (String, String)| entry.0@ != name),
    decreases entries.len(),
{
    reveal(Seq::filter);
    let other = |entry: (String, String)| entry.0@ != name;
    if entries.len() > 0 {
        lemma_other_properties_are_left(entries.drop_last(), name);
    } else {
        assert(entries.filter(other) =~= Seq::empty());
    }
}

} // verus!
