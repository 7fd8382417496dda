//! The models that an item shows in the interface.

use crate::error::{malformed, BlockResourceError, Failure};
use crate::icons::{default_item_tint, default_tint};
use crate::items::graph_failure;
use crate::json::{trees, Json, JsonTree};
use crate::models::MAX_MODEL_DEPTH;
use crate::properties::{lookup, value_of};
use crate::special::{special_of, SpecialItemModel, SpecialModel};
use crate::text::same_text;
use vstd::prelude::*;

verus! {

pub const MAX_GUI_MODELS: usize = 32;

/// A model that an item shows. `transformations` tells which of the collected
/// transformations apply to it, from the outermost on.
#[derive(Debug)]
pub struct StaticItemModel {
    pub model: String,
    pub tints: Vec<u32>,
    /// How the model was chosen, where it stands for a changing one.
    pub fallback_kind: Option<&'static str>,
    pub special: Option<SpecialItemModel>,
    pub transformations: Vec<usize>,
}

pub struct ShownModel {
    pub model: Seq<char>,
    pub tints: Seq<u32>,
    pub fallback_kind: Option<Seq<char>>,
    pub special: Option<SpecialModel>,
    pub transformations: Seq<usize>,
}

impl View for StaticItemModel {
    type V = ShownModel;

    open spec fn view(&self) -> ShownModel {
        ShownModel {
            model: self.model@,
            tints: self.tints@,
            fallback_kind: match self.fallback_kind {
                Some(kind) => Some(kind@),
                None => None,
            },
            special: match self.special {
                Some(special) => Some(special@),
                None => None,
            },
            transformations: self.transformations@,
        }
    }
}

/// The models of an item so far, with the transformations on the way to them.
#[derive(Debug)]
pub struct Collected<'a> {
    pub models: Vec<StaticItemModel>,
    pub transformations: Vec<&'a Json>,
}

/// What is collected of an item, and why it is refused, where it is.
pub struct Collection {
    pub models: Seq<ShownModel>,
    pub transformations: Seq<JsonTree>,
    pub failure: Option<Failure>,
}

pub open spec fn shown_views(models: Seq<StaticItemModel>) -> Seq<ShownModel> {
    models.map_values(|model: StaticItemModel| model@)
}

pub open spec fn tree_views(documents: Seq<&Json>) -> Seq<JsonTree> {
    documents.map_values(|document: &Json| document@)
}

impl<'a> Collected<'a> {
    pub open spec fn collection(self, failure: Option<Failure>) -> Collection {
        Collection {
            models: shown_views(self.models@),
            transformations: tree_views(self.transformations@),
            failure,
        }
    }
}

pub open spec fn refused(before: Collection, kind: Seq<char>, reason: Seq<char>) -> Collection {
    Collection { failure: Some(graph_failure(kind, reason)), ..before }
}

/// The tints that a model gives.
pub open spec fn tints_of(tree: JsonTree) -> Seq<u32> {
    match tree.member_items("tints"@) {
        Some(items) => Seq::new(items.len(), |i: int| default_tint(items[i])),
        None => Seq::empty(),
    }
}

/// The value of the block state that a choice depends on.
pub open spec fn selected_value(tree: JsonTree, block_state: Seq<(String, String)>) -> Option<
    Seq<char>,
> {
    match tree.member_text("property"@) {
        Some(property) => if property == "minecraft:block_state"@ {
            match tree.member_text("block_state_property"@) {
                Some(name) => value_of(block_state, name),
                None => None,
            }
        } else {
            None
        },
        None => None,
    }
}

/// Whether a text is the one that is looked for: the selected value, or the
/// interface where none is selected.
pub open spec fn is_wanted(text: Seq<char>, selected: Option<Seq<char>>) -> bool {
    match selected {
        Some(value) => text == value,
        None => text == "gui"@,
    }
}

pub open spec fn lists_wanted(items: Seq<JsonTree>, selected: Option<Seq<char>>) -> bool {
    exists|i: int|
        0 <= i < items.len() && #[trigger] items[i].text() is Some && is_wanted(
            items[i].text()->Some_0,
            selected,
        )
}

/// Whether a case of a choice holds.
pub open spec fn case_holds(case: JsonTree, selected: Option<Seq<char>>) -> bool {
    match case.member("when"@) {
        Some(JsonTree::Text(text)) => is_wanted(text, selected),
        Some(JsonTree::Array(items)) => lists_wanted(items, selected),
        _ => false,
    }
}

/// The model of the first case that holds, from a case on.
pub open spec fn first_case(cases: Seq<JsonTree>, selected: Option<Seq<char>>, from: int) -> Option<
    JsonTree,
>
    decreases cases.len() - from,
{
    if from < 0 || from >= cases.len() {
        None
    } else if case_holds(cases[from], selected) {
        cases[from].member("model"@)
    } else {
        first_case(cases, selected, from + 1)
    }
}

pub open spec fn selected_case(tree: JsonTree, selected: Option<Seq<char>>) -> Option<JsonTree> {
    match tree.member_items("cases"@) {
        Some(cases) => first_case(cases, selected, 0),
        None => None,
    }
}

/// Whether the binary64 number with a bit pattern is at most zero.
pub open spec fn at_most_zero(bits: u64) -> bool {
    bits == 0 || 0x8000_0000_0000_0000 <= bits <= 0xfff0_0000_0000_0000
}

/// The place of a binary64 number in their order, by its bit pattern: a negative
/// number comes before another where its magnitude is larger.
pub open spec fn order_of(bits: u64) -> int {
    if bits < 0x8000_0000_0000_0000 {
        bits as int
    } else {
        0x7fff_ffff_ffff_ffff - bits
    }
}

/// The bit pattern of the threshold of an entry.
pub open spec fn threshold_of(entry: JsonTree) -> Option<u64> {
    match entry.member("threshold"@) {
        Some(JsonTree::Number(number)) => number.bits,
        _ => None,
    }
}

/// The threshold and the model of an entry that an ordinary item reaches.
pub open spec fn reached(entry: JsonTree) -> Option<(u64, JsonTree)> {
    match (threshold_of(entry), entry.member("model"@)) {
        (Some(bits), Some(model)) => if at_most_zero(bits) {
            Some((bits, model))
        } else {
            None
        },
        _ => None,
    }
}

/// The entry with the greatest threshold that an ordinary item reaches, among the
/// first `n`; the last of equal ones.
pub open spec fn best_entry(entries: Seq<JsonTree>, n: int) -> Option<(u64, JsonTree)>
    decreases n,
{
    if n <= 0 {
        None
    } else {
        match (best_entry(entries, n - 1), reached(entries[n - 1])) {
            (None, entry) => entry,
            (best, None) => best,
            (Some(best), Some(entry)) => if order_of(entry.0) >= order_of(best.0) {
                Some(entry)
            } else {
                Some(best)
            },
        }
    }
}

pub open spec fn dispatched(tree: JsonTree) -> Option<JsonTree> {
    match tree.member_items("entries"@) {
        Some(entries) => match best_entry(entries, entries.len() as int) {
            Some((bits, model)) => Some(model),
            None => tree.member("fallback"@),
        },
        None => tree.member("fallback"@),
    }
}

/// The models from `start` on stand for changing ones.
pub open spec fn marked(models: Seq<ShownModel>, start: int, kind: Seq<char>) -> Seq<ShownModel> {
    Seq::new(
        models.len(),
        |i: int|
            if i >= start {
                ShownModel { fallback_kind: Some(kind), ..models[i] }
            } else {
                models[i]
            },
    )
}

pub open spec fn marked_collection(after: Collection, start: int, kind: Seq<char>) -> Collection {
    if after.failure is Some {
        after
    } else {
        Collection { models: marked(after.models, start, kind), ..after }
    }
}

/// The collection with the transformation of a node.
pub open spec fn with_transformation(before: Collection, tree: JsonTree) -> Collection {
    match tree.member("transformation"@) {
        Some(transformation) => Collection {
            transformations: before.transformations.push(transformation),
            ..before
        },
        None => before,
    }
}

/// The transformations on the way to what is under a node.
pub open spec fn path_through(before: Collection, tree: JsonTree, path: Seq<usize>) -> Seq<usize> {
    match tree.member("transformation"@) {
        Some(_) => path.push(before.transformations.len() as usize),
        None => path,
    }
}

/// What is collected of a model that is made of faces.
pub open spec fn collected_model(before: Collection, tree: JsonTree, path: Seq<usize>) -> Collection {
    match tree.member_text("model"@) {
        None => refused(before, "minecraft:model"@, "model identity is missing"@),
        Some(model) => Collection {
            models: before.models.push(
                ShownModel {
                    model,
                    tints: tints_of(tree),
                    fallback_kind: None,
                    special: None,
                    transformations: path,
                },
            ),
            ..before
        },
    }
}

/// What is collected of a model with a renderer of its own.
pub open spec fn collected_special(
    before: Collection,
    tree: JsonTree,
    path: Seq<usize>,
) -> Collection {
    match tree.member_text("base"@) {
        None => refused(before, "minecraft:special"@, "special model base is missing"@),
        Some(base) => match tree.member("model"@) {
            None => refused(before, "minecraft:special"@, "special renderer is missing"@),
            Some(renderer) => match special_of(renderer) {
                Err(failure) => Collection { failure: Some(failure), ..before },
                Ok(special) => Collection {
                    models: before.models.push(
                        ShownModel {
                            model: base,
                            tints: Seq::empty(),
                            fallback_kind: None,
                            special: Some(special),
                            transformations: path,
                        },
                    ),
                    ..before
                },
            },
        },
    }
}

/// What is collected from a node of an item's graph on.
pub open spec fn collection_of(
    tree: JsonTree,
    depth: int,
    block_state: Seq<(String, String)>,
    path: Seq<usize>,
    before: Collection,
) -> Collection
    decreases MAX_MODEL_DEPTH - depth, 1int,
{
    if depth >= MAX_MODEL_DEPTH || before.models.len() >= MAX_GUI_MODELS {
        refused(before, "graph"@, "model graph limit exceeded"@)
    } else if !(tree is Object) {
        refused(before, "graph"@, "node is not an object"@)
    } else {
        match tree.member_text("type"@) {
            None => refused(before, "graph"@, "node type is missing"@),
            Some(kind) => {
                let here = with_transformation(before, tree);
                let inner = path_through(before, tree, path);
                let start = here.models.len() as int;
                if kind == "minecraft:model"@ {
                    collected_model(here, tree, inner)
                } else if kind == "minecraft:composite"@ {
                    match tree.member_items("models"@) {
                        None => refused(here, kind, "composite models are missing"@),
                        Some(items) => collection_of_items(
                            items,
                            depth + 1,
                            block_state,
                            inner,
                            here,
                            items.len() as int,
                        ),
                    }
                } else if kind == "minecraft:condition"@ {
                    match tree.member("on_false"@) {
                        None => refused(here, kind, "false branch is missing"@),
                        Some(child) => marked_collection(
                            collection_of(child, depth + 1, block_state, inner, here),
                            start,
                            "item condition used its bounded inactive fallback"@,
                        ),
                    }
                } else if kind == "minecraft:select"@ {
                    match selected_case(tree, selected_value(tree, block_state)) {
                        Some(child) => collection_of(child, depth + 1, block_state, inner, here),
                        None => match tree.member("fallback"@) {
                            None => refused(here, kind, "select has no GUI case or fallback"@),
                            Some(child) => marked_collection(
                                collection_of(child, depth + 1, block_state, inner, here),
                                start,
                                "item select used its bounded fallback"@,
                            ),
                        },
                    }
                } else if kind == "minecraft:range_dispatch"@ {
                    match dispatched(tree) {
                        None => refused(
                            here,
                            kind,
                            "range dispatch has no value-zero entry or fallback"@,
                        ),
                        Some(child) => collection_of(child, depth + 1, block_state, inner, here),
                    }
                } else if kind == "minecraft:special"@ {
                    collected_special(here, tree, inner)
                } else if kind == "minecraft:empty"@ {
                    here
                } else {
                    refused(here, kind, "unsupported dynamic GUI model form"@)
                }
            },
        }
    }
}

/// What is collected from the first `n` items of a list.
pub open spec fn collection_of_items(
    items: Seq<JsonTree>,
    depth: int,
    block_state: Seq<(String, String)>,
    path: Seq<usize>,
    before: Collection,
    n: int,
) -> Collection
    decreases
        MAX_MODEL_DEPTH - depth,
        (if n > 0 {
            n + 2
        } else {
            2
        }),
{
    if n <= 0 {
        before
    } else {
        let earlier = collection_of_items(items, depth, block_state, path, before, n - 1);
        if earlier.failure is Some {
            earlier
        } else {
            collection_of(items[n - 1], depth, block_state, path, earlier)
        }
    }
}

fn read_tints(value: &Json) -> (tints: Vec<u32>)
    ensures
        tints@ == tints_of(value@),
{
    let mut tints: Vec<u32> = Vec::new();
    match value.get_items("tints") {
        Some(items) => {
            let ghost all = trees(items@);
            let mut i: usize = 0;
            while i < items.len()
                invariant
                    i <= items@.len(),
                    all == trees(items@),
                    tints@.len() == i,
                    forall|k: int| 0 <= k < i ==> #[trigger] tints@[k] == default_tint(all[k]),
                decreases items@.len() - i,
            {
                assert(all[i as int] == items@[i as int]@);
                tints.push(default_item_tint(&items[i]));
                i += 1;
            }
            assert(tints@ =~= tints_of(value@));
        },
        None => {
            assert(tints@ =~= tints_of(value@));
        },
    }
    tints
}

fn read_selected<'a>(value: &Json, block_state: &'a Vec<(String, String)>) -> (selected: Option<
    &'a str,
>)
    ensures
        option_view(selected) == selected_value(value@, block_state@),
{
    match value.get_text("property") {
        Some(property) => if same_text(property, "minecraft:block_state") {
            match value.get_text("block_state_property") {
                Some(name) => lookup(block_state, name),
                None => None,
            }
        } else {
            None
        },
        None => None,
    }
}

pub open spec fn option_view(text: Option<&str>) -> Option<Seq<char>> {
    match text {
        Some(text) => Some(text@),
        None => None,
    }
}

fn wanted(text: &str, selected: Option<&str>) -> (yes: bool)
    ensures
        yes == is_wanted(text@, option_view(selected)),
{
    match selected {
        Some(value) => same_text(text, value),
        None => same_text(text, "gui"),
    }
}

fn wanted_listed(items: &Vec<Json>, selected: Option<&str>) -> (yes: bool)
    ensures
        yes == lists_wanted(trees(items@), option_view(selected)),
{
    let ghost all = trees(items@);
    let mut i: usize = 0;
    while i < items.len()
        invariant
            i <= items@.len(),
            all == trees(items@),
            forall|k: int|
                0 <= k < i ==> !(#[trigger] all[k].text() is Some && is_wanted(
                    all[k].text()->Some_0,
                    option_view(selected),
                )),
        decreases items@.len() - i,
    {
        assert(all[i as int] == items@[i as int]@);
        match items[i].as_text() {
            Some(text) => {
                if wanted(text, selected) {
                    assert(all[i as int].text() is Some);
                    return true;
                }
            },
            None => {},
        }
        i += 1;
    }
    false
}

fn case_applies(case: &Json, selected: Option<&str>) -> (yes: bool)
    ensures
        yes == case_holds(case@, option_view(selected)),
{
    match case.get("when") {
        Some(when) => match when.as_text() {
            Some(text) => wanted(text, selected),
            None => match when.as_items() {
                Some(items) => wanted_listed(items, selected),
                None => false,
            },
        },
        None => false,
    }
}

pub open spec fn document_view(document: Option<&Json>) -> Option<JsonTree> {
    match document {
        Some(document) => Some(document@),
        None => None,
    }
}

fn find_case<'a>(value: &'a Json, selected: Option<&str>) -> (child: Option<&'a Json>)
    ensures
        document_view(child) == selected_case(value@, option_view(selected)),
{
    match value.get_items("cases") {
        Some(cases) => {
            let ghost all = trees(cases@);
            let mut i: usize = 0;
            while i < cases.len()
                invariant
                    i <= cases@.len(),
                    all == trees(cases@),
                    selected_case(value@, option_view(selected)) == first_case(
                        all,
                        option_view(selected),
                        i as int,
                    ),
                decreases cases@.len() - i,
            {
                assert(all[i as int] == cases@[i as int]@);
                if case_applies(&cases[i], selected) {
                    return cases[i].get("model");
                }
                i += 1;
            }
            None
        },
        None => None,
    }
}

fn read_bits(entry: &Json) -> (bits: Option<u64>)
    ensures
        bits == threshold_of(entry@),
{
    match entry.get("threshold") {
        Some(threshold) => match threshold {
            Json::Number(number) => number.bits,
            _ => None,
        },
        None => None,
    }
}

fn later(a: u64, b: u64) -> (yes: bool)
    ensures
        yes == (order_of(a) >= order_of(b)),
{
    if a < 0x8000_0000_0000_0000 {
        b >= 0x8000_0000_0000_0000 || a >= b
    } else {
        b >= 0x8000_0000_0000_0000 && a <= b
    }
}

fn find_entry<'a>(value: &'a Json) -> (child: Option<&'a Json>)
    ensures
        document_view(child) == dispatched(value@),
{
    match value.get_items("entries") {
        Some(entries) => {
            let ghost all = trees(entries@);
            let mut best: Option<(u64, &'a Json)> = None;
            let mut i: usize = 0;
            while i < entries.len()
                invariant
                    i <= entries@.len(),
                    all == trees(entries@),
                    match best {
                        Some((bits, model)) => best_entry(all, i as int) == Some((bits, model@)),
                        None => best_entry(all, i as int) is None,
                    },
                decreases entries@.len() - i,
            {
                assert(all[i as int] == entries@[i as int]@);
                match (read_bits(&entries[i]), entries[i].get("model")) {
                    (Some(bits), Some(model)) => {
                        if bits == 0 || (0x8000_0000_0000_0000 <= bits && bits
                            <= 0xfff0_0000_0000_0000) {
                            match best {
                                Some((best_bits, _)) => {
                                    if later(bits, best_bits) {
                                        best = Some((bits, model));
                                    }
                                },
                                None => {
                                    best = Some((bits, model));
                                },
                            }
                        }
                    },
                    _ => {},
                }
                i += 1;
            }
            match best {
                Some((_, model)) => Some(model),
                None => value.get("fallback"),
            }
        },
        None => value.get("fallback"),
    }
}

fn mark_models(models: &mut Vec<StaticItemModel>, start: usize, kind: &'static str)
    ensures
        shown_views(final(models)@) == marked(shown_views(old(models)@), start as int, kind@),
{
    let ghost before = models@;
    let mut i: usize = start;
    while i < models.len()
        invariant
            models@.len() == before.len(),
            start <= i,
            i <= models@.len() || start > models@.len(),
            forall|k: int|
                0 <= k < models@.len() && (k < start || k >= i) ==> #[trigger] models@[k]
                    == before[k],
            forall|k: int|
                start <= k < i && k < models@.len() ==> (#[trigger] models@[k])@ == (ShownModel {
                    fallback_kind: Some(kind@),
                    ..before[k]@
                }),
        decreases models@.len() - i,
    {
        models[i].fallback_kind = Some(kind);
        i += 1;
    }
    assert(shown_views(models@) =~= marked(shown_views(before), start as int, kind@));
}

pub open spec fn failure_of(result: Result<(), BlockResourceError>) -> Option<Failure> {
    match result {
        Ok(_) => None,
        Err(error) => Some(error@),
    }
}

fn copy_path(path: &Vec<usize>) -> (copy: Vec<usize>)
    ensures
        copy@ == path@,
{
    let copy: Vec<usize> = path.clone();
    assert(copy@ =~= path@);
    copy
}

fn collect_model<'a>(value: &'a Json, path: &Vec<usize>, output: &mut Collected<'a>) -> (result:
    Result<(), BlockResourceError>)
    ensures
        final(output).collection(failure_of(result)) == collected_model(
            old(output).collection(None),
            value@,
            path@,
        ),
{
    match value.get_text("model") {
        Some(model) => {
            let shown: StaticItemModel = StaticItemModel {
                model: model.to_owned(),
                tints: read_tints(value),
                fallback_kind: None,
                special: None,
                transformations: copy_path(path),
            };
            output.models.push(shown);
            assert(shown_views(output.models@) =~= shown_views(old(output).models@).push(
                shown@,
            ));
            Ok(())
        },
        None => Err(malformed("item model", "minecraft:model", "model identity is missing")),
    }
}

fn collect_special<'a>(value: &'a Json, path: &Vec<usize>, output: &mut Collected<'a>) -> (result:
    Result<(), BlockResourceError>)
    ensures
        final(output).collection(failure_of(result)) == collected_special(
            old(output).collection(None),
            value@,
            path@,
        ),
{
    let base: &str = match value.get_text("base") {
        Some(base) => base,
        None => {
            return Err(
                malformed("item model", "minecraft:special", "special model base is missing"),
            );
        },
    };
    let renderer: &Json = match value.get("model") {
        Some(renderer) => renderer,
        None => {
            return Err(
                malformed("item model", "minecraft:special", "special renderer is missing"),
            );
        },
    };
    match SpecialItemModel::from_value(renderer) {
        Ok(special) => {
            let shown: StaticItemModel = StaticItemModel {
                model: base.to_owned(),
                tints: Vec::new(),
                fallback_kind: None,
                special: Some(special),
                transformations: copy_path(path),
            };
            assert(shown.tints@ =~= Seq::<u32>::empty());
            output.models.push(shown);
            assert(shown_views(output.models@) =~= shown_views(old(output).models@).push(
                shown@,
            ));
            Ok(())
        },
        Err(error) => Err(error),
    }
}

proof fn lemma_refusal_persists(
    items: Seq<JsonTree>,
    depth: int,
    block_state: Seq<(String, String)>,
    path: Seq<usize>,
    before: Collection,
    k: int,
    n: int,
)
    requires
        0 <= k <= n,
        collection_of_items(items, depth, block_state, path, before, k).failure is Some,
    ensures
        collection_of_items(items, depth, block_state, path, before, n) == collection_of_items(
            items,
            depth,
            block_state,
            path,
            before,
            k,
        ),
    decreases n - k,
{
    if k < n {
        lemma_refusal_persists(items, depth, block_state, path, before, k, n - 1);
    }
}

fn collect_items<'a>(
    items: &'a Vec<Json>,
    depth: usize,
    block_state: &Vec<(String, String)>,
    path: &Vec<usize>,
    output: &mut Collected<'a>,
) -> (result: Result<(), BlockResourceError>)
    requires
        depth <= MAX_MODEL_DEPTH,
    ensures
        final(output).collection(failure_of(result)) == collection_of_items(
            trees(items@),
            depth as int,
            block_state@,
            path@,
            old(output).collection(None),
            items@.len() as int,
        ),
    decreases MAX_MODEL_DEPTH - depth, 2int,
{
    let ghost start = output.collection(None);
    let ghost all = trees(items@);
    let mut i: usize = 0;
    while i < items.len()
        invariant
            i <= items@.len(),
            depth <= MAX_MODEL_DEPTH,
            start == old(output).collection(None),
            all == trees(items@),
            collection_of_items(all, depth as int, block_state@, path@, start, i as int)
                == output.collection(None),
        decreases items@.len() - i,
    {
        assert(all[i as int] == items@[i as int]@);
        match collect_gui_item_models_transformed(&items[i], depth, block_state, path, output) {
            Ok(_) => {},
            Err(error) => {
                proof {
                    lemma_refusal_persists(
                        all,
                        depth as int,
                        block_state@,
                        path@,
                        start,
                        i + 1,
                        items@.len() as int,
                    );
                }
                return Err(error);
            },
        }
        i += 1;
    }
    Ok(())
}

#[verifier::rlimit(60)]
fn collect_gui_item_models_transformed<'a>(
    value: &'a Json,
    depth: usize,
    block_state: &Vec<(String, String)>,
    path: &Vec<usize>,
    output: &mut Collected<'a>,
) -> (result: Result<(), BlockResourceError>)
    requires
        depth <= MAX_MODEL_DEPTH,
    ensures
        final(output).collection(failure_of(result)) == collection_of(
            value@,
            depth as int,
            block_state@,
            path@,
            old(output).collection(None),
        ),
    decreases MAX_MODEL_DEPTH - depth, 1int,
{
    let ghost before = output.collection(None);
    if depth >= MAX_MODEL_DEPTH || output.models.len() >= MAX_GUI_MODELS {
        return Err(malformed("item model", "graph", "model graph limit exceeded"));
    }
    if !value.is_object() {
        return Err(malformed("item model", "graph", "node is not an object"));
    }
    let kind: &str = match value.get_text("type") {
        Some(kind) => kind,
        None => return Err(malformed("item model", "graph", "node type is missing")),
    };
    let mut inner: Vec<usize> = copy_path(path);
    match value.get("transformation") {
        Some(transformation) => {
            inner.push(output.transformations.len());
            output.transformations.push(transformation);
            assert(tree_views(output.transformations@) =~= before.transformations.push(
                transformation@,
            ));
        },
        None => {},
    }
    let start: usize = output.models.len();
    let ghost here = output.collection(None);
    assert(here == with_transformation(before, value@));
    assert(inner@ == path_through(before, value@, path@));
    assert(start == here.models.len());
    if same_text(kind, "minecraft:model") {
        collect_model(value, &inner, output)
    } else if same_text(kind, "minecraft:composite") {
        match value.get_items("models") {
            Some(items) => collect_items(items, depth + 1, block_state, &inner, output),
            None => Err(malformed("item model", kind, "composite models are missing")),
        }
    } else if same_text(kind, "minecraft:condition") {
        match value.get("on_false") {
            Some(child) => match collect_gui_item_models_transformed(child, depth + 1, block_state, &inner, output) {
                Ok(_) => {
                    mark_models(
                        &mut output.models,
                        start,
                        "item condition used its bounded inactive fallback",
                    );
                    Ok(())
                },
                Err(error) => Err(error),
            },
            None => Err(malformed("item model", kind, "false branch is missing")),
        }
    } else if same_text(kind, "minecraft:select") {
        let selected: Option<&str> = read_selected(value, block_state);
        match find_case(value, selected) {
            Some(child) => collect_gui_item_models_transformed(child, depth + 1, block_state, &inner, output),
            None => match value.get("fallback") {
                Some(child) => match collect_gui_item_models_transformed(child, depth + 1, block_state, &inner, output) {
                    Ok(_) => {
                        mark_models(
                            &mut output.models,
                            start,
                            "item select used its bounded fallback",
                        );
                        Ok(())
                    },
                    Err(error) => Err(error),
                },
                None => Err(
                    malformed("item model", kind, "select has no GUI case or fallback"),
                ),
            },
        }
    } else if same_text(kind, "minecraft:range_dispatch") {
        match find_entry(value) {
            Some(child) => collect_gui_item_models_transformed(child, depth + 1, block_state, &inner, output),
            None => Err(
                malformed(
                    "item model",
                    kind,
                    "range dispatch has no value-zero entry or fallback",
                ),
            ),
        }
    } else if same_text(kind, "minecraft:special") {
        collect_special(value, &inner, output)
    } else if same_text(kind, "minecraft:empty") {
        Ok(())
    } else {
        Err(malformed("item model", kind, "unsupported dynamic GUI model form"))
    }
}

/// Collects the models that an item shows in the interface, with the
/// transformations on the way. The transformations are those that come before the
/// refusal, where there is one: each of them has to be understood, and the first
/// that cannot be comes before the refusal.
pub fn collect_gui_item_models_with_block_state<'a>(value: &'a Json, block_state: &Vec<(String, String)>) -> (outcome: (
    Collected<'a>,
    Result<(), BlockResourceError>,
))
    ensures
        outcome.0.collection(failure_of(outcome.1)) == collection_of(
            value@,
            0,
            block_state@,
            Seq::empty(),
            (Collection {
                models: Seq::empty(),
                transformations: Seq::empty(),
                failure: None,
            }),
        ),
{
    let mut output: Collected<'a> = Collected { models: Vec::new(), transformations: Vec::new() };
    let path: Vec<usize> = Vec::new();
    assert(shown_views(output.models@) =~= Seq::<ShownModel>::empty());
    assert(tree_views(output.transformations@) =~= Seq::<JsonTree>::empty());
    assert(path@ =~= Seq::<usize>::empty());
    let result = collect_gui_item_models_transformed(value, 0, block_state, &path, &mut output);
    (output, result)
}

/// A case that is asked for by one text.
pub open spec fn case_for(text: Seq<char>) -> JsonTree {
    JsonTree::Object(seq![("when"@, JsonTree::Text(text))])
}

proof fn lemma_case_for(text: Seq<char>)
    ensures
        case_for(text).member("when"@) == Some(JsonTree::Text(text)),
{
    assert(seq![("when"@, JsonTree::Text(text))][0].0 == "when"@);
}

/// A case for a text holds where that text is selected, and, where none is selected,
/// exactly if the text is that of the interface.
pub proof fn lemma_case_holds_for_its_text(text: Seq<char>, value: Seq<char>)
    ensures
        case_holds(case_for(text), Some(value)) <==> text == value,
        case_holds(case_for(text), None) <==> text == "gui"@,
{
    lemma_case_for(text);
}

/// A case that lists texts holds exactly where a case for one of them alone would, and a
/// case that is asked for by neither a text nor a list never holds.
pub proof fn lemma_listed_texts_are_alternatives(case: JsonTree, selected: Option<Seq<char>>)
    ensures
        match case.member("when"@) {
            Some(JsonTree::Text(text)) => case_holds(case, selected) == case_holds(
                case_for(text),
                selected,
            ),
            Some(JsonTree::Array(items)) => case_holds(case, selected) <==> exists|text: Seq<char>|
                items.contains(JsonTree::Text(text)) && #[trigger] case_holds(
                    case_for(text),
                    selected,
                ),
            _ => !case_holds(case, selected),
        },
{
    match case.member("when"@) {
        Some(JsonTree::Text(text)) => {
            lemma_case_for(text);
        },
        Some(JsonTree::Array(items)) => {
            if case_holds(case, selected) {
                let i = choose|i: int|
                    0 <= i < items.len() && #[trigger] items[i].text() is Some && is_wanted(
                        items[i].text()->Some_0,
                        selected,
                    );
                let text = items[i].text()->Some_0;
                assert(items[i] == JsonTree::Text(text));
                lemma_case_for(text);
                assert(items.contains(JsonTree::Text(text)) && case_holds(
                    case_for(text),
                    selected,
                ));
            }
            if exists|text: Seq<char>|
                items.contains(JsonTree::Text(text)) && #[trigger] case_holds(
                    case_for(text),
                    selected,
                ) {
                let text = choose|text: Seq<char>|
                    items.contains(JsonTree::Text(text)) && #[trigger] case_holds(
                        case_for(text),
                        selected,
                    );
                lemma_case_for(text);
                let i = choose|i: int| 0 <= i < items.len() && items[i] == JsonTree::Text(text);
                assert(items[i].text() is Some);
            }
        },
        _ => {},
    }
}

proof fn lemma_first_case(cases: Seq<JsonTree>, selected: Option<Seq<char>>, from: int, i: int)
    requires
        0 <= from <= i <= cases.len(),
        forall|k: int| from <= k < i ==> !case_holds(#[trigger] cases[k], selected),
        i < cases.len() ==> case_holds(cases[i], selected),
    ensures
        first_case(cases, selected, from) == (if i < cases.len() {
            cases[i].member("model"@)
        } else {
            None
        }),
    decreases i - from,
{
    if from < i {
        lemma_first_case(cases, selected, from + 1, i);
    }
}

/// A node of an item's graph without a transformation of its own, which is looked into.
pub open spec fn is_plain_node(
    tree: JsonTree,
    kind: Seq<char>,
    depth: int,
    before: Collection,
) -> bool {
    &&& tree.member_text("type"@) == Some(kind)
    &&& tree.member("transformation"@) is None
    &&& depth < MAX_MODEL_DEPTH
    &&& before.models.len() < MAX_GUI_MODELS
}

/// A choice shows the first of its cases that holds, and nothing else of it.
pub proof fn lemma_choice_shows_its_first_case(
    tree: JsonTree,
    depth: int,
    block_state: Seq<(String, String)>,
    path: Seq<usize>,
    before: Collection,
    cases: Seq<JsonTree>,
    i: int,
    child: JsonTree,
)
    requires
        is_plain_node(tree, "minecraft:select"@, depth, before),
        tree.member_items("cases"@) == Some(cases),
        0 <= i < cases.len(),
        case_holds(cases[i], selected_value(tree, block_state)),
        forall|k: int|
            0 <= k < i ==> !case_holds(#[trigger] cases[k], selected_value(tree, block_state)),
        cases[i].member("model"@) == Some(child),
    ensures
        collection_of(tree, depth, block_state, path, before) == collection_of(
            child,
            depth + 1,
            block_state,
            path,
            before,
        ),
{
    lemma_first_case(cases, selected_value(tree, block_state), 0, i);
    lemma_kinds_differ();
}

/// A choice of which no case holds shows what it falls back on, and tells so of every
/// model that it shows.
pub proof fn lemma_choice_without_a_case_falls_back(
    tree: JsonTree,
    depth: int,
    block_state: Seq<(String, String)>,
    path: Seq<usize>,
    before: Collection,
    cases: Seq<JsonTree>,
    child: JsonTree,
)
    requires
        is_plain_node(tree, "minecraft:select"@, depth, before),
        tree.member_items("cases"@) == Some(cases),
        forall|k: int|
            0 <= k < cases.len() ==> !case_holds(
                #[trigger] cases[k],
                selected_value(tree, block_state),
            ),
        tree.member("fallback"@) == Some(child),
    ensures
        ({
            let shown = collection_of(tree, depth, block_state, path, before);
            let inner = collection_of(child, depth + 1, block_state, path, before);
            &&& shown.failure == inner.failure
            &&& shown.transformations == inner.transformations
            &&& shown.models.len() == inner.models.len()
            &&& inner.failure is None ==> forall|k: int|
                before.models.len() <= k < shown.models.len() ==> #[trigger] shown.models[k]
                    == (ShownModel {
                    fallback_kind: Some("item select used its bounded fallback"@),
                    ..inner.models[k]
                })
        }),
{
    lemma_first_case(cases, selected_value(tree, block_state), 0, cases.len() as int);
    lemma_kinds_differ();
}

/// A condition shows what it has where it does not hold, and tells so of every model.
pub proof fn lemma_condition_shows_its_false_branch(
    tree: JsonTree,
    depth: int,
    block_state: Seq<(String, String)>,
    path: Seq<usize>,
    before: Collection,
    child: JsonTree,
)
    requires
        is_plain_node(tree, "minecraft:condition"@, depth, before),
        tree.member("on_false"@) == Some(child),
    ensures
        ({
            let shown = collection_of(tree, depth, block_state, path, before);
            let inner = collection_of(child, depth + 1, block_state, path, before);
            &&& shown.failure == inner.failure
            &&& shown.models.len() == inner.models.len()
            &&& inner.failure is None ==> forall|k: int|
                before.models.len() <= k < shown.models.len() ==> #[trigger] shown.models[k]
                    == (ShownModel {
                    fallback_kind: Some("item condition used its bounded inactive fallback"@),
                    ..inner.models[k]
                })
        }),
{
    lemma_kinds_differ();
}

/// A model of its own is shown as it stands: its name, its tints and the transformations
/// on the way to it, after all that was collected before.
pub proof fn lemma_model_is_shown_as_it_stands(
    tree: JsonTree,
    depth: int,
    block_state: Seq<(String, String)>,
    path: Seq<usize>,
    before: Collection,
    name: Seq<char>,
)
    requires
        is_plain_node(tree, "minecraft:model"@, depth, before),
        tree.member_text("model"@) == Some(name),
    ensures
        ({
            let shown = collection_of(tree, depth, block_state, path, before);
            &&& shown.failure == before.failure
            &&& shown.transformations == before.transformations
            &&& shown.models.len() == before.models.len() + 1
            &&& shown.models.drop_last() == before.models
            &&& shown.models.last().model == name
            &&& shown.models.last().tints.len() == (match tree.member_items("tints"@) {
                Some(items) => items.len(),
                None => 0,
            })
            &&& shown.models.last().fallback_kind is None
            &&& shown.models.last().special is None
            &&& shown.models.last().transformations == path
        }),
{
    let shown = collection_of(tree, depth, block_state, path, before);
    assert(shown.models.drop_last() =~= before.models);
}

proof fn lemma_kinds_differ()
    ensures
        "minecraft:select"@ != "minecraft:model"@,
        "minecraft:select"@ != "minecraft:composite"@,
        "minecraft:select"@ != "minecraft:condition"@,
        "minecraft:condition"@ != "minecraft:model"@,
        "minecraft:condition"@ != "minecraft:composite"@,
        "minecraft:composite"@ != "minecraft:model"@,
        "minecraft:range_dispatch"@ != "minecraft:model"@,
        "minecraft:range_dispatch"@ != "minecraft:composite"@,
        "minecraft:range_dispatch"@ != "minecraft:condition"@,
        "minecraft:range_dispatch"@ != "minecraft:select"@,
{
    reveal_strlit("minecraft:model");
    reveal_strlit("minecraft:select");
    reveal_strlit("minecraft:composite");
    reveal_strlit("minecraft:condition");
    reveal_strlit("minecraft:range_dispatch");
    assert("minecraft:select"@.len() == 16);
    assert("minecraft:model"@.len() == 15);
    assert("minecraft:composite"@.len() == 19);
    assert("minecraft:condition"@.len() == 19);
    assert("minecraft:range_dispatch"@.len() == 24);
    assert("minecraft:composite"@[12] == 'm');
    assert("minecraft:condition"@[12] == 'n');
}

/// A composite shows all that it is made of, one after another: with one more, it shows
/// that last, after all that it showed without it.
pub proof fn lemma_composite_shows_its_parts_in_order(
    tree: JsonTree,
    shorter: JsonTree,
    depth: int,
    block_state: Seq<(String, String)>,
    path: Seq<usize>,
    before: Collection,
    items: Seq<JsonTree>,
    last: JsonTree,
)
    requires
        is_plain_node(tree, "minecraft:composite"@, depth, before),
        is_plain_node(shorter, "minecraft:composite"@, depth, before),
        tree.member_items("models"@) == Some(items.push(last)),
        shorter.member_items("models"@) == Some(items),
        before.failure is None,
    ensures
        ({
            let earlier = collection_of(shorter, depth, block_state, path, before);
            let shown = collection_of(tree, depth, block_state, path, before);
            &&& items.len() == 0 ==> earlier == before
            &&& earlier.failure is Some ==> shown == earlier
            &&& earlier.failure is None ==> shown == collection_of(
                last,
                depth + 1,
                block_state,
                path,
                earlier,
            )
        }),
{
    lemma_kinds_differ();
    let n = items.len() as int;
    lemma_earlier_items(items, last, depth + 1, block_state, path, before, n);
    assert(items.push(last)[n] == last);
    assert(collection_of(shorter, depth, block_state, path, before) == collection_of_items(
        items,
        depth + 1,
        block_state,
        path,
        before,
        n,
    ));
    assert(collection_of(tree, depth, block_state, path, before) == collection_of_items(
        items.push(last),
        depth + 1,
        block_state,
        path,
        before,
        n + 1,
    ));
}

proof fn lemma_earlier_items(
    items: Seq<JsonTree>,
    last: JsonTree,
    depth: int,
    block_state: Seq<(String, String)>,
    path: Seq<usize>,
    before: Collection,
    n: int,
)
    requires
        0 <= n <= items.len(),
    ensures
        collection_of_items(items.push(last), depth, block_state, path, before, n)
            == collection_of_items(items, depth, block_state, path, before, n),
    decreases n,
{
    if n > 0 {
        lemma_earlier_items(items, last, depth, block_state, path, before, n - 1);
        assert(items.push(last)[n - 1] == items[n - 1]);
    }
}

/// What was collected before stays in front, whatever is looked into.
pub proof fn lemma_collected_models_stay(
    tree: JsonTree,
    depth: int,
    block_state: Seq<(String, String)>,
    path: Seq<usize>,
    before: Collection,
)
    ensures
        ({
            let after = collection_of(tree, depth, block_state, path, before);
            &&& before.models.is_prefix_of(after.models)
            &&& before.transformations.is_prefix_of(after.transformations)
        }),
    decreases MAX_MODEL_DEPTH - depth, 1int,
{
    if depth < MAX_MODEL_DEPTH && before.models.len() < MAX_GUI_MODELS && tree is Object {
        if let Some(kind) = tree.member_text("type"@) {
            let here = with_transformation(before, tree);
            let inner = path_through(before, tree, path);
            assert(before.transformations.is_prefix_of(here.transformations));
            if let Some(items) = tree.member_items("models"@) {
                lemma_collected_items_stay(
                    items,
                    depth + 1,
                    block_state,
                    inner,
                    here,
                    items.len() as int,
                );
            }
            if let Some(child) = tree.member("on_false"@) {
                lemma_collected_models_stay(child, depth + 1, block_state, inner, here);
            }
            if let Some(child) = selected_case(tree, selected_value(tree, block_state)) {
                lemma_collected_models_stay(child, depth + 1, block_state, inner, here);
            }
            if let Some(child) = tree.member("fallback"@) {
                lemma_collected_models_stay(child, depth + 1, block_state, inner, here);
            }
            if let Some(child) = dispatched(tree) {
                lemma_collected_models_stay(child, depth + 1, block_state, inner, here);
            }
        }
    }
}

proof fn lemma_collected_items_stay(
    items: Seq<JsonTree>,
    depth: int,
    block_state: Seq<(String, String)>,
    path: Seq<usize>,
    before: Collection,
    n: int,
)
    ensures
        ({
            let after = collection_of_items(items, depth, block_state, path, before, n);
            &&& before.models.is_prefix_of(after.models)
            &&& before.transformations.is_prefix_of(after.transformations)
        }),
    decreases
        MAX_MODEL_DEPTH - depth,
        (if n > 0 {
            n + 2
        } else {
            2
        }),
{
    if n > 0 {
        lemma_collected_items_stay(items, depth, block_state, path, before, n - 1);
        let earlier = collection_of_items(items, depth, block_state, path, before, n - 1);
        if earlier.failure is None {
            lemma_collected_models_stay(items[n - 1], depth, block_state, path, earlier);
        }
    }
}

/// The transformation of a node applies to all that is under it: it comes last in the
/// list, and its place in the list comes last on the way.
pub proof fn lemma_transformations_apply_below(
    before: Collection,
    tree: JsonTree,
    path: Seq<usize>,
    transformation: JsonTree,
)
    requires
        tree.member("transformation"@) == Some(transformation),
        before.transformations.len() <= usize::MAX,
    ensures
        ({
            let here = with_transformation(before, tree);
            let inner = path_through(before, tree, path);
            &&& here.models == before.models
            &&& inner.drop_last() == path
            &&& here.transformations[inner.last() as int] == transformation
            &&& here.transformations.drop_last() == before.transformations
        }),
{
    let here = with_transformation(before, tree);
    let inner = path_through(before, tree, path);
    assert(inner.drop_last() =~= path);
    assert(here.transformations.drop_last() =~= before.transformations);
}

/// A dispatch by a number shows the entry with the greatest threshold that is not above
/// zero, the last of equal ones; what it falls back on exactly where no entry with a
/// model has such a threshold.
pub proof fn lemma_dispatch_takes_the_greatest_threshold(entries: Seq<JsonTree>, n: int)
    requires
        0 <= n <= entries.len(),
    ensures
        match best_entry(entries, n) {
            Some((bits, model)) => exists|i: int|
                {
                    &&& 0 <= i < n
                    &&& #[trigger] reached(entries[i]) == Some((bits, model))
                    &&& forall|j: int|
                        0 <= j < n ==> (#[trigger] reached(entries[j]) matches Some((other, _))
                            ==> order_of(other) <= order_of(bits))
                    &&& forall|j: int|
                        i < j < n ==> (#[trigger] reached(entries[j]) matches Some((other, _))
                            ==> order_of(other) < order_of(bits))
                },
            None => forall|j: int| 0 <= j < n ==> #[trigger] reached(entries[j]) is None,
        },
    decreases n,
{
    if n > 0 {
        lemma_dispatch_takes_the_greatest_threshold(entries, n - 1);
        match (best_entry(entries, n - 1), reached(entries[n - 1])) {
            (Some(best), None) => {
                let i = choose|i: int|
                    {
                        &&& 0 <= i < n - 1
                        &&& #[trigger] reached(entries[i]) == Some(best)
                        &&& forall|j: int|
                            0 <= j < n - 1 ==> (#[trigger] reached(entries[j]) matches Some(
                                (other, _),
                            ) ==> order_of(other) <= order_of(best.0))
                        &&& forall|j: int|
                            i < j < n - 1 ==> (#[trigger] reached(entries[j]) matches Some(
                                (other, _),
                            ) ==> order_of(other) < order_of(best.0))
                    };
                assert(reached(entries[i]) == Some(best));
            },
            (Some(best), Some(entry)) => {
                let i = choose|i: int|
                    {
                        &&& 0 <= i < n - 1
                        &&& #[trigger] reached(entries[i]) == Some(best)
                        &&& forall|j: int|
                            0 <= j < n - 1 ==> (#[trigger] reached(entries[j]) matches Some(
                                (other, _),
                            ) ==> order_of(other) <= order_of(best.0))
                        &&& forall|j: int|
                            i < j < n - 1 ==> (#[trigger] reached(entries[j]) matches Some(
                                (other, _),
                            ) ==> order_of(other) < order_of(best.0))
                    };
                assert(reached(entries[i]) == Some(best));
                assert(reached(entries[n - 1]) == Some(entry));
            },
            (None, Some(entry)) => {
                assert(reached(entries[n - 1]) == Some(entry));
            },
            (None, None) => {},
        }
    }
}

/// An entry is reached where it has a model and a threshold that is not above zero: of
/// the numbers without a sign only zero is, and of those with one all but the ones that
/// are no numbers. Among these the order is that of the numbers: the greater the bit
/// pattern of a number with a sign, the less it is, and all are less than those without.
pub proof fn lemma_thresholds_are_ordered_as_numbers(a: u64, b: u64, entry: JsonTree)
    ensures
        a <= 0x7fff_ffff_ffff_ffff ==> (at_most_zero(a) <==> a == 0),
        0x8000_0000_0000_0000 <= a <= 0xfff0_0000_0000_0000 ==> at_most_zero(a),
        a > 0xfff0_0000_0000_0000 ==> !at_most_zero(a),
        a < b && b <= 0x7fff_ffff_ffff_ffff ==> order_of(a) < order_of(b),
        0x8000_0000_0000_0000 <= a < b ==> order_of(b) < order_of(a),
        a <= 0x7fff_ffff_ffff_ffff && b >= 0x8000_0000_0000_0000 ==> order_of(b) < order_of(a),
        reached(entry) matches Some((bits, model)) ==> entry.member("model"@) == Some(model)
            && at_most_zero(bits) && (entry.member("threshold"@) matches Some(
            JsonTree::Number(number),
        ) && number.bits == Some(bits)),
        (entry.member("model"@) is Some && (entry.member("threshold"@) matches Some(
            JsonTree::Number(number),
        ) && number.bits matches Some(bits) && at_most_zero(bits))) ==> reached(entry) is Some,
{
}

/// A choice by a block state looks at the value of the property that it names; any
/// other choice is made for the interface.
pub proof fn lemma_choice_looks_at_the_named_property(
    tree: JsonTree,
    block_state: Seq<(String, String)>,
    name: Seq<char>,
)
    ensures
        tree.member_text("property"@) == Some("minecraft:block_state"@) && tree.member_text(
            "block_state_property"@,
        ) == Some(name) ==> selected_value(tree, block_state) == value_of(block_state, name),
        tree.member_text("property"@) != Some("minecraft:block_state"@) || tree.member_text(
            "block_state_property"@,
        ) is None ==> selected_value(tree, block_state) is None,
{
}

/// A dispatch shows the model of the entry that is reached with the greatest threshold,
/// and its fallback where no entry is reached or there are none.
pub proof fn lemma_dispatch_falls_back(tree: JsonTree)
    ensures
        tree.member_items("entries"@) is None ==> dispatched(tree) == tree.member("fallback"@),
        tree.member_items("entries"@) matches Some(entries) ==> {
            &&& best_entry(entries, entries.len() as int) is None ==> dispatched(tree)
                == tree.member("fallback"@)
            &&& best_entry(entries, entries.len() as int) matches Some(best) ==> dispatched(tree)
                == Some(best.1)
        },
{
}

} // verus!
