//! Interface texts: renamed keys and the selection that the interface needs.

use crate::error::{malformation, malformed, BlockResourceError, Failure};
use crate::json::bytes_view;
use crate::properties::{
    distinct_names, lemma_absent, lemma_paired_table, lemma_value_of_push, pair_views, paired_table,
    remove_value, set_value, table, value_of,
};
use crate::text::{has_prefix, same_text, starts_with};
use vstd::prelude::*;
use vstd::utf8::encode_utf8;

verus! {

/// What `serde_json::from_slice` makes of bytes when it reads a map from texts
/// to texts: the entries in the order of their keys, or the message of its
/// error.
pub uninterp spec fn parsed_texts(bytes: Seq<u8>) -> Result<Seq<(Seq<char>, Seq<char>)>, Seq<char>>;

/// Reads a map from texts to texts with `serde_json::from_slice`. The result
/// depends on the bytes alone: the entries in the order of their keys, of which
/// none occurs twice, or the message of the error.
#[verifier::external_body]
fn parse_texts(bytes: &[u8]) -> (result: Result<Vec<(String, String)>, String>)
    ensures
        match result {
            Ok(entries) => parsed_texts(bytes@) == Ok::<
                Seq<(Seq<char>, Seq<char>)>,
                Seq<char>,
            >(pair_views(entries@)) && distinct_names(entries@),
            Err(message) => parsed_texts(bytes@) == Err::<
                Seq<(Seq<char>, Seq<char>)>,
                Seq<char>,
            >(message@),
        },
{
    match serde_json::from_slice::<std::collections::BTreeMap<String, String>>(bytes) {
        Ok(entries) => Ok(entries.into_iter().collect()),
        Err(error) => Err(error.to_string()),
    }
}

/// Keys that are gone, and keys that have a new name.
#[derive(Debug)]
pub struct DeprecatedTranslations {
    pub removed: Vec<String>,
    pub renamed: Vec<(String, String)>,
}

/// The texts without the first `n` of the removed keys.
pub open spec fn after_removals(
    texts: Map<Seq<char>, Seq<char>>,
    removed: Seq<String>,
    n: int,
) -> Map<Seq<char>, Seq<char>>
    decreases n,
{
    if n <= 0 {
        texts
    } else {
        after_removals(texts, removed, n - 1).remove(removed[n - 1]@)
    }
}

/// The texts with a key renamed. Where the old key has no text, the new one
/// keeps none either.
pub open spec fn renamed_key(
    texts: Map<Seq<char>, Seq<char>>,
    from: Seq<char>,
    to: Seq<char>,
) -> Map<Seq<char>, Seq<char>> {
    if texts.contains_key(from) {
        texts.remove(from).insert(to, texts[from])
    } else {
        texts.remove(from).remove(to)
    }
}

pub open spec fn after_renames(
    texts: Map<Seq<char>, Seq<char>>,
    renamed: Seq<(String, String)>,
    n: int,
) -> Map<Seq<char>, Seq<char>>
    decreases n,
{
    if n <= 0 {
        texts
    } else {
        renamed_key(after_renames(texts, renamed, n - 1), renamed[n - 1].0@, renamed[n - 1].1@)
    }
}

/// The texts after the deprecated keys are gone or renamed.
pub open spec fn without_deprecated(
    texts: Map<Seq<char>, Seq<char>>,
    deprecated: DeprecatedTranslations,
) -> Map<Seq<char>, Seq<char>> {
    after_renames(
        after_removals(texts, deprecated.removed@, deprecated.removed@.len() as int),
        deprecated.renamed@,
        deprecated.renamed@.len() as int,
    )
}

pub fn apply_deprecated_translations(
    translations: &mut Vec<(String, String)>,
    deprecated: &DeprecatedTranslations,
)
    ensures
        table(final(translations)@) == without_deprecated(table(old(translations)@), *deprecated),
        distinct_names(old(translations)@) ==> distinct_names(final(translations)@),
{
    let mut i: usize = 0;
    while i < deprecated.removed.len()
        invariant
            i <= deprecated.removed@.len(),
            table(translations@) == after_removals(
                table(old(translations)@),
                deprecated.removed@,
                i as int,
            ),
            distinct_names(old(translations)@) ==> distinct_names(translations@),
        decreases deprecated.removed@.len() - i,
    {
        let _ = remove_value(translations, deprecated.removed[i].as_str());
        i += 1;
    }
    let ghost middle = table(translations@);
    let mut j: usize = 0;
    while j < deprecated.renamed.len()
        invariant
            j <= deprecated.renamed@.len(),
            table(translations@) == after_renames(middle, deprecated.renamed@, j as int),
            distinct_names(old(translations)@) ==> distinct_names(translations@),
        decreases deprecated.renamed@.len() - j,
    {
        let ghost before = table(translations@);
        match remove_value(translations, deprecated.renamed[j].0.as_str()) {
            Some(value) => {
                set_value(translations, deprecated.renamed[j].1.clone(), value);
            },
            None => {
                let _ = remove_value(translations, deprecated.renamed[j].1.as_str());
            },
        }
        assert(table(translations@) =~= renamed_key(
            before,
            deprecated.renamed@[j as int].0@,
            deprecated.renamed@[j as int].1@,
        ));
        j += 1;
    }
}

/// The keys that the interface needs: five container titles, and every item,
/// block and item group.
pub open spec fn is_wanted(key: Seq<char>) -> bool {
    ||| key == "container.inventory"@
    ||| key == "container.crafting"@
    ||| key == "container.chest"@
    ||| key == "container.chestDouble"@
    ||| key == "container.furnace"@
    ||| has_prefix(key, "itemGroup."@)
    ||| has_prefix(key, "item."@)
    ||| has_prefix(key, "block."@)
}

/// A text that the interface shows: of a wanted key, and at most 256 bytes long.
pub open spec fn is_shown(key: Seq<char>, text: Seq<char>) -> bool {
    is_wanted(key) && encode_utf8(text).len() <= 256
}

/// The texts that the interface shows.
pub open spec fn shown_texts(texts: Map<Seq<char>, Seq<char>>) -> Map<Seq<char>, Seq<char>> {
    Map::new(
        |key: Seq<char>| texts.contains_key(key) && is_shown(key, texts[key]),
        |key: Seq<char>| texts[key],
    )
}

fn wanted(key: &str) -> (yes: bool)
    ensures
        yes == is_wanted(key@),
{
    same_text(key, "container.inventory") || same_text(key, "container.crafting") || same_text(
        key,
        "container.chest",
    ) || same_text(key, "container.chestDouble") || same_text(key, "container.furnace")
        || starts_with(key, "itemGroup.") || starts_with(key, "item.") || starts_with(
        key,
        "block.",
    )
}

/// Selects the texts that the interface shows.
pub fn select_translations(all: &Vec<(String, String)>) -> (selected: Vec<(String, String)>)
    requires
        distinct_names(all@),
    ensures
        table(selected@) == shown_texts(table(all@)),
        distinct_names(selected@),
{
    let mut selected: Vec<(String, String)> = Vec::new();
    let mut i: usize = 0;
    proof {
        assert(all@.take(0) =~= Seq::<(String, String)>::empty());
        assert(table(selected@) =~= shown_texts(table(all@.take(0))));
    }
    while i < all.len()
        invariant
            i <= all@.len(),
            distinct_names(all@),
            table(selected@) == shown_texts(table(all@.take(i as int))),
            forall|k: int|
                0 <= k < selected@.len() ==> exists|m: int|
                    0 <= m < i && (#[trigger] selected@[k]).0@ == all@[m].0@,
            distinct_names(selected@),
        decreases all@.len() - i,
    {
        let ghost before = selected@;
        let ghost prefix = all@.take(i as int);
        let ghost entry = all@[i as int];
        proof {
            assert(all@.take(i + 1) =~= prefix.push(entry));
            assert forall|k: int| 0 <= k < prefix.len() implies (#[trigger] prefix[k]).0@
                != entry.0@ by {
                assert(prefix[k] == all@[k]);
            }
            lemma_absent(prefix, entry.0@);
            assert forall|name: Seq<char>| #[trigger]
                value_of(prefix.push(entry), name) == (if name == entry.0@ {
                    Some(entry.1@)
                } else {
                    value_of(prefix, name)
                }) by {
                lemma_value_of_push(prefix, entry, name);
            }
            assert(table(prefix.push(entry)) =~= table(prefix).insert(entry.0@, entry.1@));
            assert(!table(prefix).contains_key(entry.0@));
            assert(!table(before).contains_key(entry.0@));
            assert(value_of(before, entry.0@) is None);
        }
        let key: &str = all[i].0.as_str();
        let value: &str = all[i].1.as_str();
        let bytes: &[u8] = value.as_bytes();
        if wanted(key) && bytes.len() <= 256 {
            selected.push((all[i].0.clone(), all[i].1.clone()));
            proof {
                assert forall|name: Seq<char>| #[trigger]
                    value_of(selected@, name) == (if name == entry.0@ {
                        Some(entry.1@)
                    } else {
                        value_of(before, name)
                    }) by {
                    lemma_value_of_push(before, entry, name);
                }
                assert(table(selected@) =~= table(before).insert(entry.0@, entry.1@));
                assert(table(selected@) =~= shown_texts(table(prefix.push(entry))));
                assert forall|a: int, b: int| 0 <= a < b < selected@.len() implies (
                #[trigger] selected@[a]).0@ != (#[trigger] selected@[b]).0@ by {
                    if b < before.len() {
                        assert(before[a].0@ != before[b].0@);
                    } else {
                        assert(before[a] == selected@[a]);
                        let m = choose|m: int| 0 <= m < i && before[a].0@ == all@[m].0@;
                        assert(all@[m].0@ != all@[i as int].0@);
                    }
                }
                assert forall|k: int| 0 <= k < selected@.len() implies exists|m: int|
                    0 <= m < i + 1 && (#[trigger] selected@[k]).0@ == all@[m].0@ by {
                    if k < before.len() {
                        assert(before[k] == selected@[k]);
                        let m = choose|m: int| 0 <= m < i && before[k].0@ == all@[m].0@;
                        assert(selected@[k].0@ == all@[m].0@);
                    } else {
                        assert(selected@[k].0@ == all@[i as int].0@);
                    }
                }
            }
        } else {
            assert(table(selected@) =~= shown_texts(table(prefix.push(entry))));
        }
        i += 1;
    }
    assert(all@.take(all@.len() as int) =~= all@);
    selected
}

/// What is shown of the texts of the interface. The language resource has to be
/// there and to be read, and so has the list of deprecated keys, where there is one.
pub open spec fn shown_or_failed(
    bytes: Option<Seq<u8>>,
    deprecated: Option<Result<DeprecatedTranslations, String>>,
) -> Result<Map<Seq<char>, Seq<char>>, Failure> {
    match bytes {
        None => Err(malformation("language"@, "minecraft:en_us"@, "resource is missing"@)),
        Some(bytes) => match parsed_texts(bytes) {
            Err(message) => Err(malformation("language"@, "minecraft:en_us"@, message)),
            Ok(pairs) => match deprecated {
                None => Ok(shown_texts(paired_table(pairs))),
                Some(Ok(list)) => Ok(shown_texts(without_deprecated(paired_table(pairs), list))),
                Some(Err(message)) => Err(
                    malformation("language"@, "minecraft:deprecated"@, message@),
                ),
            },
        },
    }
}

/// The texts of the interface, from the bytes of the language resource and from
/// what was read of the deprecated keys.
pub fn load_inventory_translations(
    bytes: Option<&[u8]>,
    deprecated: Option<Result<DeprecatedTranslations, String>>,
) -> (result: Result<Vec<(String, String)>, BlockResourceError>)
    ensures
        match (result, shown_or_failed(bytes_view(bytes), deprecated)) {
            (Ok(selected), Ok(texts)) => distinct_names(selected@) && table(selected@) == texts,
            (Err(error), Err(failure)) => error@ == failure,
            _ => false,
        },
{
    let bytes: &[u8] = match bytes {
        Some(bytes) => bytes,
        None => return Err(malformed("language", "minecraft:en_us", "resource is missing")),
    };
    let mut all: Vec<(String, String)> = match parse_texts(bytes) {
        Ok(entries) => entries,
        Err(message) => return Err(malformed("language", "minecraft:en_us", message.as_str())),
    };
    proof {
        lemma_paired_table(all@);
    }
    match deprecated {
        None => {},
        Some(Ok(list)) => apply_deprecated_translations(&mut all, &list),
        Some(Err(message)) => return Err(
            malformed("language", "minecraft:deprecated", message.as_str()),
        ),
    }
    Ok(select_translations(&all))
}

/// A key that is removed has no text afterwards, unless another is renamed to
/// it.
pub proof fn lemma_removed_keys_are_gone(
    texts: Map<Seq<char>, Seq<char>>,
    removed: Seq<String>,
    n: int,
    i: int,
)
    requires
        0 <= i < n <= removed.len(),
    ensures
        !after_removals(texts, removed, n).contains_key(removed[i]@),
    decreases n,
{
    if i < n - 1 {
        lemma_removed_keys_are_gone(texts, removed, n - 1, i);
    }
}

/// After a key is renamed to another, the old key has no text, and the new one
/// has the text that the old one had, if any.
pub proof fn lemma_renaming_moves_the_text(
    texts: Map<Seq<char>, Seq<char>>,
    from: Seq<char>,
    to: Seq<char>,
)
    requires
        from != to,
    ensures
        !renamed_key(texts, from, to).contains_key(from),
        renamed_key(texts, from, to).contains_key(to) <==> texts.contains_key(from),
        texts.contains_key(from) ==> renamed_key(texts, from, to)[to] == texts[from],
{
}

/// What is not removed stays as it is.
pub proof fn lemma_other_keys_stay(
    texts: Map<Seq<char>, Seq<char>>,
    removed: Seq<String>,
    n: int,
    key: Seq<char>,
)
    requires
        0 <= n <= removed.len(),
        forall|i: int| 0 <= i < n ==> (#[trigger] removed[i])@ != key,
    ensures
        after_removals(texts, removed, n).contains_key(key) == texts.contains_key(key),
        after_removals(texts, removed, n)[key] == texts[key],
    decreases n,
{
    if n > 0 {
        assert(removed[n - 1]@ != key);
        lemma_other_keys_stay(texts, removed, n - 1, key);
    }
}

/// Renaming touches the two names alone.
pub proof fn lemma_renaming_touches_two_names(
    texts: Map<Seq<char>, Seq<char>>,
    from: Seq<char>,
    to: Seq<char>,
    key: Seq<char>,
)
    requires
        key != from,
        key != to,
    ensures
        renamed_key(texts, from, to).contains_key(key) == texts.contains_key(key),
        renamed_key(texts, from, to)[key] == texts[key],
{
}

/// Names are removed first, and renamed then in their order.
pub proof fn lemma_removals_come_before_renames(
    texts: Map<Seq<char>, Seq<char>>,
    deprecated: DeprecatedTranslations,
    renamed: Seq<(String, String)>,
    n: int,
)
    requires
        0 <= n < renamed.len(),
    ensures
        deprecated.renamed@.len() == 0 ==> without_deprecated(texts, deprecated) == after_removals(
            texts,
            deprecated.removed@,
            deprecated.removed@.len() as int,
        ),
        deprecated.removed@.len() == 0 ==> without_deprecated(texts, deprecated) == after_renames(
            texts,
            deprecated.renamed@,
            deprecated.renamed@.len() as int,
        ),
        after_renames(texts, renamed, 0) == texts,
        after_renames(texts, renamed, n + 1) == renamed_key(
            after_renames(texts, renamed, n),
            renamed[n].0@,
            renamed[n].1@,
        ),
{
}

/// The texts that are shown are those of items, of blocks, of the groups of items, and of
/// the five windows, with at most 256 bytes each, and they are shown as they are.
pub proof fn lemma_texts_of_items_are_shown(
    texts: Map<Seq<char>, Seq<char>>,
    name: Seq<char>,
    key: Seq<char>,
)
    ensures
        is_wanted("item."@ + name),
        is_wanted("block."@ + name),
        is_wanted("itemGroup."@ + name),
        is_wanted("container.inventory"@),
        is_wanted("container.crafting"@),
        is_wanted("container.chest"@),
        is_wanted("container.chestDouble"@),
        is_wanted("container.furnace"@),
        is_wanted(key) ==> {
            ||| key == "container.inventory"@ || key == "container.crafting"@ || key
                == "container.chest"@ || key == "container.chestDouble"@ || key
                == "container.furnace"@
            ||| exists|rest: Seq<char>|
                key == #[trigger] ("item."@ + rest) || key == "block."@ + rest || key
                    == "itemGroup."@ + rest
        },
        shown_texts(texts).contains_key(key) <==> texts.contains_key(key) && is_wanted(key)
            && encode_utf8(texts[key]).len() <= 256,
        shown_texts(texts).contains_key(key) ==> shown_texts(texts)[key] == texts[key],
{
    crate::text::lemma_texts_begin_and_end(name, "item."@);
    crate::text::lemma_texts_begin_and_end(name, "block."@);
    crate::text::lemma_texts_begin_and_end(name, "itemGroup."@);
    crate::text::lemma_texts_begin_and_end(key, "item."@);
    crate::text::lemma_texts_begin_and_end(key, "block."@);
    crate::text::lemma_texts_begin_and_end(key, "itemGroup."@);
    if has_prefix(key, "item."@) {
        let rest = key.skip("item."@.len() as int);
        assert(key == "item."@ + rest);
    } else if has_prefix(key, "block."@) {
        let rest = key.skip("block."@.len() as int);
        assert(key == "block."@ + rest);
        let shown = "item."@ + rest;
    } else if has_prefix(key, "itemGroup."@) {
        let rest = key.skip("itemGroup."@.len() as int);
        assert(key == "itemGroup."@ + rest);
        let shown = "item."@ + rest;
    }
}

/// Without the texts nothing is shown, and what is wrong with them or with the list of
/// old names is passed on.
pub proof fn lemma_missing_texts_fail(
    bytes: Seq<u8>,
    deprecated: Option<Result<DeprecatedTranslations, String>>,
)
    ensures
        shown_or_failed(None, deprecated) is Err,
        parsed_texts(bytes) is Err ==> shown_or_failed(Some(bytes), deprecated) is Err,
        parsed_texts(bytes) matches Ok(pairs) ==> {
            &&& deprecated is None ==> shown_or_failed(Some(bytes), deprecated) == Ok::<
                Map<Seq<char>, Seq<char>>,
                Failure,
            >(shown_texts(paired_table(pairs)))
            &&& deprecated matches Some(Err(_)) ==> shown_or_failed(Some(bytes), deprecated) is Err
            &&& deprecated matches Some(Ok(list)) ==> shown_or_failed(Some(bytes), deprecated)
                == Ok::<Map<Seq<char>, Seq<char>>, Failure>(
                shown_texts(without_deprecated(paired_table(pairs), list)),
            )
        },
{
}

} // verus!
