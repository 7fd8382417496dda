//! Models of items: their graphs, and what they show of an ordinary item.

use crate::error::{malformation, malformed, BlockResourceError, Failure};
use crate::identifiers::{identified, parse_identifier};
use crate::json::{trees, Json, JsonTree};
use crate::models::MAX_MODEL_DEPTH;
use crate::semantics::{among, is_among};
use crate::text::same_text;
use vstd::prelude::*;

verus! {

pub open spec fn graph_failure(kind: Seq<char>, reason: Seq<char>) -> Failure {
    malformation("item model"@, kind, reason)
}

fn graph_error(kind: &str, reason: &str) -> (error: BlockResourceError)
    ensures
        error@ == graph_failure(kind@, reason@),
{
    malformed("item model", kind, reason)
}

/// The renderers of models that are not made of faces.
pub const SPECIAL_RENDERERS: [&'static str; 11] = [
    "minecraft:banner",
    "minecraft:bed",
    "minecraft:chest",
    "minecraft:conduit",
    "minecraft:copper_golem_statue",
    "minecraft:decorated_pot",
    "minecraft:head",
    "minecraft:player_head",
    "minecraft:shield",
    "minecraft:shulker_box",
    "minecraft:trident",
];

/// The models that a graph names so far, and why it is refused, where it is.
pub struct GraphModel {
    pub models: Seq<Seq<char>>,
    pub failure: Option<Failure>,
}

pub open spec fn graph_refused(models: Seq<Seq<char>>, kind: Seq<char>, reason: Seq<char>) -> GraphModel {
    GraphModel { models, failure: Some(graph_failure(kind, reason)) }
}

pub open spec fn graph_accepted(models: Seq<Seq<char>>) -> GraphModel {
    GraphModel { models, failure: None }
}

/// A model that is named by a graph.
pub open spec fn graph_with(models: Seq<Seq<char>>, name: Seq<char>) -> GraphModel {
    match identified(name) {
        Ok(identifier) => graph_accepted(models.push(identifier)),
        Err(failure) => GraphModel { models, failure: Some(failure) },
    }
}

/// The graph from one of its nodes on.
pub open spec fn graph_of(tree: JsonTree, depth: int, models: Seq<Seq<char>>) -> GraphModel
    decreases MAX_MODEL_DEPTH - depth, 1int,
{
    if depth >= MAX_MODEL_DEPTH {
        graph_refused(models, "graph"@, "model graph depth exceeded"@)
    } else if !(tree is Object) {
        graph_refused(models, "graph"@, "node is not an object"@)
    } else {
        match tree.member_text("type"@) {
            None => graph_refused(models, "graph"@, "node type is missing"@),
            Some(kind) => if kind == "minecraft:model"@ {
                match tree.member_text("model"@) {
                    None => graph_refused(models, kind, "model identity is missing"@),
                    Some(name) => graph_with(models, name),
                }
            } else if kind == "minecraft:composite"@ {
                match tree.member_items("models"@) {
                    None => graph_refused(models, kind, "models are missing"@),
                    Some(items) => graph_of_items(
                        items,
                        None,
                        kind,
                        depth + 1,
                        models,
                        items.len() as int,
                    ),
                }
            } else if kind == "minecraft:condition"@ {
                match tree.member("on_true"@) {
                    None => graph_refused(models, kind, "true branch is missing"@),
                    Some(on_true) => {
                        let first = graph_of(on_true, depth + 1, models);
                        if first.failure is Some {
                            first
                        } else {
                            match tree.member("on_false"@) {
                                None => graph_refused(
                                    first.models,
                                    kind,
                                    "false branch is missing"@,
                                ),
                                Some(on_false) => graph_of(on_false, depth + 1, first.models),
                            }
                        }
                    },
                }
            } else if kind == "minecraft:select"@ {
                match tree.member_items("cases"@) {
                    None => graph_refused(models, kind, "cases are missing"@),
                    Some(items) => graph_with_fallback(
                        tree,
                        items,
                        "case model is missing"@,
                        kind,
                        depth,
                        models,
                    ),
                }
            } else if kind == "minecraft:range_dispatch"@ {
                match tree.member_items("entries"@) {
                    None => graph_refused(models, kind, "entries are missing"@),
                    Some(items) => graph_with_fallback(
                        tree,
                        items,
                        "entry model is missing"@,
                        kind,
                        depth,
                        models,
                    ),
                }
            } else if kind == "minecraft:special"@ {
                graph_of_special(tree, kind, models)
            } else if kind == "minecraft:empty"@ || kind == "minecraft:bundle/selected_item"@ {
                graph_accepted(models)
            } else {
                graph_refused(models, kind, "unsupported GUI model form"@)
            },
        }
    }
}

/// The graph of a model with a renderer of its own.
pub open spec fn graph_of_special(
    tree: JsonTree,
    kind: Seq<char>,
    models: Seq<Seq<char>>,
) -> GraphModel {
    match tree.member_text("base"@) {
        None => graph_refused(models, kind, "special base is missing"@),
        Some(base) => {
            let first = graph_with(models, base);
            if first.failure is Some {
                first
            } else {
                match renderer_type(tree) {
                    None => graph_refused(first.models, kind, "special renderer is missing"@),
                    Some(renderer) => if is_among(renderer, SPECIAL_RENDERERS@) {
                        first
                    } else {
                        graph_refused(
                            first.models,
                            renderer,
                            "unsupported special renderer type"@,
                        )
                    },
                }
            }
        },
    }
}

pub open spec fn renderer_type(tree: JsonTree) -> Option<Seq<char>> {
    match tree.member("model"@) {
        Some(model) => model.member_text("type"@),
        None => None,
    }
}

/// The graph of the first `n` items of a list; where `missing` is given, of the
/// model of each, and that is why the graph is refused where an item has none.
pub open spec fn graph_of_items(
    items: Seq<JsonTree>,
    missing: Option<Seq<char>>,
    kind: Seq<char>,
    depth: int,
    models: Seq<Seq<char>>,
    n: int,
) -> GraphModel
    decreases
        MAX_MODEL_DEPTH - depth,
        (if n > 0 {
            n + 2
        } else {
            2
        }),
{
    if n <= 0 {
        graph_accepted(models)
    } else {
        let before = graph_of_items(items, missing, kind, depth, models, n - 1);
        if before.failure is Some {
            before
        } else {
            match missing {
                None => graph_of(items[n - 1], depth, before.models),
                Some(reason) => match items[n - 1].member("model"@) {
                    None => graph_refused(before.models, kind, reason),
                    Some(model) => graph_of(model, depth, before.models),
                },
            }
        }
    }
}

/// The graph of a list of cases, and of the model that is taken where none of them
/// holds.
pub open spec fn graph_with_fallback(
    tree: JsonTree,
    items: Seq<JsonTree>,
    missing: Seq<char>,
    kind: Seq<char>,
    depth: int,
    models: Seq<Seq<char>>,
) -> GraphModel
    decreases MAX_MODEL_DEPTH - depth, 0int,
    when depth < MAX_MODEL_DEPTH
{
    let first = graph_of_items(
        items,
        Some(missing),
        kind,
        depth + 1,
        models,
        items.len() as int,
    );
    if first.failure is Some {
        first
    } else {
        match tree.member("fallback"@) {
            None => first,
            Some(fallback) => graph_of(fallback, depth + 1, first.models),
        }
    }
}

pub open spec fn name_views(names: Seq<String>) -> Seq<Seq<char>> {
    names.map_values(|name: String| name@)
}

/// What a check found: the graph goes on, or is refused.
pub open spec fn is_graph(
    result: Result<(), BlockResourceError>,
    models: Seq<String>,
    graph: GraphModel,
) -> bool {
    &&& name_views(models) == graph.models
    &&& match (result, graph.failure) {
        (Ok(_), None) => true,
        (Err(error), Some(failure)) => error@ == failure,
        _ => false,
    }
}

fn add_model(name: &str, models: &mut Vec<String>) -> (result: Result<(), BlockResourceError>)
    ensures
        is_graph(result, final(models)@, graph_with(name_views(old(models)@), name@)),
{
    match parse_identifier(name) {
        Ok(identifier) => {
            models.push(identifier);
            assert(name_views(models@) =~= name_views(old(models)@).push(identifier@));
            Ok(())
        },
        Err(error) => Err(error),
    }
}

fn check_special(value: &Json, kind: &str, models: &mut Vec<String>) -> (result: Result<
    (),
    BlockResourceError,
>)
    ensures
        is_graph(
            result,
            final(models)@,
            graph_of_special(value@, kind@, name_views(old(models)@)),
        ),
{
    let base: &str = match value.get_text("base") {
        Some(base) => base,
        None => return Err(graph_error(kind, "special base is missing")),
    };
    match add_model(base, models) {
        Ok(_) => {},
        Err(error) => return Err(error),
    }
    let renderer: Option<&str> = match value.get("model") {
        Some(model) => model.get_text("type"),
        None => None,
    };
    match renderer {
        Some(renderer) => if among(renderer, &SPECIAL_RENDERERS) {
            Ok(())
        } else {
            Err(graph_error(renderer, "unsupported special renderer type"))
        },
        None => Err(graph_error(kind, "special renderer is missing")),
    }
}

fn check_items(
    items: &Vec<Json>,
    missing: Option<&str>,
    kind: &str,
    depth: usize,
    models: &mut Vec<String>,
) -> (result: Result<(), BlockResourceError>)
    requires
        depth <= MAX_MODEL_DEPTH,
    ensures
        is_graph(
            result,
            final(models)@,
            graph_of_items(
                trees(items@),
                text_view(missing),
                kind@,
                depth as int,
                name_views(old(models)@),
                items@.len() as int,
            ),
        ),
    decreases MAX_MODEL_DEPTH - depth, 2int,
{
    let ghost start = name_views(models@);
    let ghost all = trees(items@);
    let mut i: usize = 0;
    while i < items.len()
        invariant
            i <= items@.len(),
            depth <= MAX_MODEL_DEPTH,
            start == name_views(old(models)@),
            all == trees(items@),
            graph_of_items(all, text_view(missing), kind@, depth as int, start, i as int)
                == graph_accepted(name_views(models@)),
        decreases items@.len() - i,
    {
        let child: Option<&Json> = match missing {
            None => Some(&items[i]),
            Some(_) => items[i].get("model"),
        };
        assert(all[i as int] == items@[i as int]@);
        match child {
            Some(child) => match check_node(child, depth, models) {
                Ok(_) => {},
                Err(error) => {
                    proof {
                        lemma_refused_items_persist(
                            all,
                            text_view(missing),
                            kind@,
                            depth as int,
                            start,
                            i + 1,
                            items@.len() as int,
                        );
                    }
                    return Err(error);
                },
            },
            None => match missing {
                Some(reason) => {
                    proof {
                        lemma_refused_items_persist(
                            all,
                            text_view(missing),
                            kind@,
                            depth as int,
                            start,
                            i + 1,
                            items@.len() as int,
                        );
                    }
                    return Err(graph_error(kind, reason));
                },
                None => {},
            },
        }
        i += 1;
    }
    Ok(())
}

proof fn lemma_refused_items_persist(
    items: Seq<JsonTree>,
    missing: Option<Seq<char>>,
    kind: Seq<char>,
    depth: int,
    models: Seq<Seq<char>>,
    k: int,
    n: int,
)
    requires
        0 <= k <= n,
        graph_of_items(items, missing, kind, depth, models, k).failure is Some,
    ensures
        graph_of_items(items, missing, kind, depth, models, n) == graph_of_items(
            items,
            missing,
            kind,
            depth,
            models,
            k,
        ),
    decreases n - k,
{
    if k < n {
        lemma_refused_items_persist(items, missing, kind, depth, models, k, n - 1);
    }
}

pub open spec fn text_view(text: Option<&str>) -> Option<Seq<char>> {
    match text {
        Some(text) => Some(text@),
        None => None,
    }
}

fn check_with_fallback(
    value: &Json,
    items: &Vec<Json>,
    missing: &str,
    kind: &str,
    depth: usize,
    models: &mut Vec<String>,
) -> (result: Result<(), BlockResourceError>)
    requires
        depth < MAX_MODEL_DEPTH,
    ensures
        is_graph(
            result,
            final(models)@,
            graph_with_fallback(
                value@,
                trees(items@),
                missing@,
                kind@,
                depth as int,
                name_views(old(models)@),
            ),
        ),
    decreases MAX_MODEL_DEPTH - depth, 0int,
{
    match check_items(items, Some(missing), kind, depth + 1, models) {
        Ok(_) => {},
        Err(error) => return Err(error),
    }
    match value.get("fallback") {
        Some(fallback) => check_node(fallback, depth + 1, models),
        None => Ok(()),
    }
}

#[verifier::rlimit(40)]
fn check_node(value: &Json, depth: usize, models: &mut Vec<String>) -> (result: Result<
    (),
    BlockResourceError,
>)
    requires
        depth <= MAX_MODEL_DEPTH,
    ensures
        is_graph(
            result,
            final(models)@,
            graph_of(value@, depth as int, name_views(old(models)@)),
        ),
    decreases MAX_MODEL_DEPTH - depth, 1int,
{
    if depth >= MAX_MODEL_DEPTH {
        return Err(graph_error("graph", "model graph depth exceeded"));
    }
    if !value.is_object() {
        return Err(graph_error("graph", "node is not an object"));
    }
    let kind: &str = match value.get_text("type") {
        Some(kind) => kind,
        None => return Err(graph_error("graph", "node type is missing")),
    };
    if same_text(kind, "minecraft:model") {
        match value.get_text("model") {
            Some(name) => add_model(name, models),
            None => Err(graph_error(kind, "model identity is missing")),
        }
    } else if same_text(kind, "minecraft:composite") {
        match value.get_items("models") {
            Some(items) => check_items(items, None, kind, depth + 1, models),
            None => Err(graph_error(kind, "models are missing")),
        }
    } else if same_text(kind, "minecraft:condition") {
        match value.get("on_true") {
            Some(on_true) => match check_node(on_true, depth + 1, models) {
                Ok(_) => match value.get("on_false") {
                    Some(on_false) => check_node(on_false, depth + 1, models),
                    None => Err(graph_error(kind, "false branch is missing")),
                },
                Err(error) => Err(error),
            },
            None => Err(graph_error(kind, "true branch is missing")),
        }
    } else if same_text(kind, "minecraft:select") {
        match value.get_items("cases") {
            Some(items) => check_with_fallback(
                value,
                items,
                "case model is missing",
                kind,
                depth,
                models,
            ),
            None => Err(graph_error(kind, "cases are missing")),
        }
    } else if same_text(kind, "minecraft:range_dispatch") {
        match value.get_items("entries") {
            Some(items) => check_with_fallback(
                value,
                items,
                "entry model is missing",
                kind,
                depth,
                models,
            ),
            None => Err(graph_error(kind, "entries are missing")),
        }
    } else if same_text(kind, "minecraft:special") {
        check_special(value, kind, models)
    } else if same_text(kind, "minecraft:empty") || same_text(
        kind,
        "minecraft:bundle/selected_item",
    ) {
        Ok(())
    } else {
        Err(graph_error(kind, "unsupported GUI model form"))
    }
}

/// Checks the graph of an item's model. It gives the models that the graph names,
/// in order, up to where it is refused. Each of them has to be resolved; the first
/// that cannot be comes before the refusal.
pub fn validate_item_model_graph(value: &Json) -> (outcome: (
    Vec<String>,
    Result<(), BlockResourceError>,
))
    ensures
        is_graph(outcome.1, outcome.0@, graph_of(value@, 0, Seq::empty())),
{
    let mut models: Vec<String> = Vec::new();
    assert(name_views(models@) =~= Seq::<Seq<char>>::empty());
    let result = check_node(value, 0, &mut models);
    (models, result)
}

/// The kinds of nodes that are told apart by name.
proof fn lemma_kinds_differ()
    ensures
        "minecraft:model"@ != "minecraft:composite"@,
        "minecraft:model"@ != "minecraft:condition"@,
        "minecraft:model"@ != "minecraft:select"@,
        "minecraft:model"@ != "minecraft:range_dispatch"@,
        "minecraft:model"@ != "minecraft:special"@,
        "minecraft:model"@ != "minecraft:empty"@,
        "minecraft:composite"@ != "minecraft:condition"@,
        "minecraft:composite"@ != "minecraft:select"@,
        "minecraft:composite"@ != "minecraft:range_dispatch"@,
        "minecraft:composite"@ != "minecraft:special"@,
        "minecraft:composite"@ != "minecraft:empty"@,
        "minecraft:condition"@ != "minecraft:select"@,
        "minecraft:condition"@ != "minecraft:range_dispatch"@,
        "minecraft:condition"@ != "minecraft:special"@,
        "minecraft:condition"@ != "minecraft:empty"@,
        "minecraft:select"@ != "minecraft:range_dispatch"@,
        "minecraft:select"@ != "minecraft:special"@,
        "minecraft:select"@ != "minecraft:empty"@,
        "minecraft:range_dispatch"@ != "minecraft:special"@,
        "minecraft:range_dispatch"@ != "minecraft:empty"@,
        "minecraft:special"@ != "minecraft:empty"@,
{
    reveal_strlit("minecraft:model");
    reveal_strlit("minecraft:composite");
    reveal_strlit("minecraft:condition");
    reveal_strlit("minecraft:select");
    reveal_strlit("minecraft:range_dispatch");
    reveal_strlit("minecraft:special");
    reveal_strlit("minecraft:empty");
    assert("minecraft:model"@.len() == 15 && "minecraft:composite"@.len() == 19
        && "minecraft:condition"@.len() == 19 && "minecraft:select"@.len() == 16
        && "minecraft:range_dispatch"@.len() == 24 && "minecraft:special"@.len() == 17
        && "minecraft:empty"@.len() == 15);
    assert("minecraft:model"@[10] == 'm' && "minecraft:empty"@[10] == 'e');
    assert("minecraft:composite"@[12] == 'm' && "minecraft:condition"@[12] == 'n');
}

/// A node that names a model adds that model, a composite adds the models of its parts in
/// their order, a condition those of both its branches, and an empty node adds none.
pub proof fn lemma_nodes_add_their_models(tree: JsonTree, depth: int, models: Seq<Seq<char>>)
    requires
        0 <= depth < 32,
        tree is Object,
    ensures
        tree.member_text("type"@) == Some("minecraft:model"@) ==> (match tree.member_text(
            "model"@,
        ) {
            Some(name) => match identified(name) {
                Ok(identifier) => graph_of(tree, depth, models) == (GraphModel {
                    models: models.push(identifier),
                    failure: None,
                }),
                Err(failure) => graph_of(tree, depth, models) == (GraphModel {
                    models,
                    failure: Some(failure),
                }),
            },
            None => graph_of(tree, depth, models).failure is Some,
        }),
        tree.member_text("type"@) == Some("minecraft:composite"@) ==> (tree.member_items(
            "models"@,
        ) matches Some(items) ==> graph_of(tree, depth, models) == graph_of_items(
            items,
            None,
            "minecraft:composite"@,
            depth + 1,
            models,
            items.len() as int,
        )),
        tree.member_text("type"@) == Some("minecraft:condition"@) ==> (tree.member(
            "on_true"@,
        ) matches Some(on_true) ==> (tree.member("on_false"@) matches Some(on_false) ==> {
            let first = graph_of(on_true, depth + 1, models);
            graph_of(tree, depth, models) == (if first.failure is None {
                graph_of(on_false, depth + 1, first.models)
            } else {
                first
            })
        })),
        tree.member_text("type"@) == Some("minecraft:empty"@) ==> graph_of(tree, depth, models) == (
        GraphModel { models, failure: None }),
        tree.member_text("type"@) is None ==> graph_of(tree, depth, models).failure is Some,
{
    lemma_kinds_differ();
}

/// A choice adds the models of all its cases and then that of its fallback, where it has
/// one, and so does a dispatch with its entries.
pub proof fn lemma_choices_add_all_their_models(
    tree: JsonTree,
    depth: int,
    models: Seq<Seq<char>>,
)
    requires
        0 <= depth < 32,
        tree is Object,
    ensures
        tree.member_text("type"@) == Some("minecraft:select"@) ==> (tree.member_items(
            "cases"@,
        ) matches Some(items) ==> {
            let first = graph_of_items(
                items,
                Some("case model is missing"@),
                "minecraft:select"@,
                depth + 1,
                models,
                items.len() as int,
            );
            graph_of(tree, depth, models) == (if first.failure is None && tree.member("fallback"@)
                is Some {
                graph_of(tree.member("fallback"@)->Some_0, depth + 1, first.models)
            } else {
                first
            })
        }),
        tree.member_text("type"@) == Some("minecraft:range_dispatch"@) ==> (tree.member_items(
            "entries"@,
        ) matches Some(items) ==> {
            let first = graph_of_items(
                items,
                Some("entry model is missing"@),
                "minecraft:range_dispatch"@,
                depth + 1,
                models,
                items.len() as int,
            );
            graph_of(tree, depth, models) == (if first.failure is None && tree.member("fallback"@)
                is Some {
                graph_of(tree.member("fallback"@)->Some_0, depth + 1, first.models)
            } else {
                first
            })
        }),
{
    reveal_with_fuel(graph_with_fallback, 3);
    reveal_with_fuel(graph_of, 3);
    reveal_with_fuel(graph_of_items, 3);
    lemma_kinds_differ();
}

/// The items of a list add their models one after the other, up to the first that is
/// refused.
pub proof fn lemma_items_add_their_models_in_order(
    items: Seq<JsonTree>,
    kind: Seq<char>,
    depth: int,
    models: Seq<Seq<char>>,
    n: int,
)
    requires
        0 <= n < items.len(),
    ensures
        graph_of_items(items, None, kind, depth, models, 0) == (GraphModel {
            models,
            failure: None,
        }),
        ({
            let before = graph_of_items(items, None, kind, depth, models, n);
            let after = graph_of_items(items, None, kind, depth, models, n + 1);
            &&& before.failure is Some ==> after == before
            &&& before.failure is None ==> after == graph_of(items[n], depth, before.models)
        }),
        forall|reason: Seq<char>|
            ({
                let before = #[trigger] graph_of_items(items, Some(reason), kind, depth, models, n);
                let after = graph_of_items(items, Some(reason), kind, depth, models, n + 1);
                &&& before.failure is Some ==> after == before
                &&& before.failure is None ==> (match items[n].member("model"@) {
                    Some(model) => after == graph_of(model, depth, before.models),
                    None => after == (GraphModel {
                        models: before.models,
                        failure: Some(malformation("item model"@, kind, reason)),
                    }),
                })
            }),
{
}

/// A special model adds its base, and is refused where nothing draws it.
pub proof fn lemma_special_models_add_their_base(
    tree: JsonTree,
    depth: int,
    models: Seq<Seq<char>>,
)
    requires
        0 <= depth < 32,
        tree is Object,
        tree.member_text("type"@) == Some("minecraft:special"@),
    ensures
        tree.member_text("base"@) matches Some(base) ==> (identified(base) matches Ok(name) ==> {
            &&& graph_of(tree, depth, models).models == models.push(name)
            &&& graph_of(tree, depth, models).failure is None <==> (tree.member(
                "model"@,
            ) matches Some(model) && model.member_text("type"@) matches Some(renderer)
                && is_among(renderer, SPECIAL_RENDERERS@))
        }),
{
    lemma_kinds_differ();
}

/// Models that are collected stay: those that were there come first, whatever a node adds.
pub proof fn lemma_added_models_come_last(tree: JsonTree, depth: int, models: Seq<Seq<char>>)
    requires
        0 <= depth,
    ensures
        models.is_prefix_of(graph_of(tree, depth, models).models),
    decreases MAX_MODEL_DEPTH - depth, 1int,
{
    lemma_kinds_differ();
    if 0 <= depth < 32 && tree is Object {
        lemma_choices_add_all_their_models(tree, depth, models);
    }
    let all = graph_of(tree, depth, models).models;
    if depth < MAX_MODEL_DEPTH && tree is Object {
        if let Some(kind) = tree.member_text("type"@) {
            if kind == "minecraft:condition"@ {
                if let Some(on_true) = tree.member("on_true"@) {
                    lemma_added_models_come_last(on_true, depth + 1, models);
                    let first = graph_of(on_true, depth + 1, models);
                    if let Some(on_false) = tree.member("on_false"@) {
                        lemma_added_models_come_last(on_false, depth + 1, first.models);
                        let second = graph_of(on_false, depth + 1, first.models);
                        lemma_first_stay_first(models, first.models, second.models);
                    }
                    assert(models.is_prefix_of(all));
                }
            } else if kind == "minecraft:composite"@ {
                if let Some(items) = tree.member_items("models"@) {
                    lemma_added_items_come_last(
                        items,
                        None,
                        kind,
                        depth + 1,
                        models,
                        items.len() as int,
                    );
                    assert(models.is_prefix_of(all));
                }
            } else if kind == "minecraft:select"@ {
                if let Some(items) = tree.member_items("cases"@) {
                    lemma_added_items_come_last(
                        items,
                        Some("case model is missing"@),
                        kind,
                        depth + 1,
                        models,
                        items.len() as int,
                    );
                    let first = graph_of_items(
                        items,
                        Some("case model is missing"@),
                        kind,
                        depth + 1,
                        models,
                        items.len() as int,
                    );
                    if let Some(fallback) = tree.member("fallback"@) {
                        lemma_added_models_come_last(fallback, depth + 1, first.models);
                        let second = graph_of(fallback, depth + 1, first.models);
                        lemma_first_stay_first(models, first.models, second.models);
                    }
                    assert(models.is_prefix_of(all));
                }
            } else if kind == "minecraft:range_dispatch"@ {
                if let Some(items) = tree.member_items("entries"@) {
                    lemma_added_items_come_last(
                        items,
                        Some("entry model is missing"@),
                        kind,
                        depth + 1,
                        models,
                        items.len() as int,
                    );
                    let first = graph_of_items(
                        items,
                        Some("entry model is missing"@),
                        kind,
                        depth + 1,
                        models,
                        items.len() as int,
                    );
                    if let Some(fallback) = tree.member("fallback"@) {
                        lemma_added_models_come_last(fallback, depth + 1, first.models);
                        let second = graph_of(fallback, depth + 1, first.models);
                        lemma_first_stay_first(models, first.models, second.models);
                    }
                    assert(models.is_prefix_of(all));
                }
            } else {
                assert(all == models || exists|name: Seq<char>| all == #[trigger] models.push(name));
                assert(models =~= all.subrange(0, models.len() as int));
                assert(models.is_prefix_of(all));
            }
        }
    }
    if all == models {
        assert(models =~= all.subrange(0, models.len() as int));
    }
}

proof fn lemma_first_stay_first(a: Seq<Seq<char>>, b: Seq<Seq<char>>, c: Seq<Seq<char>>)
    requires
        a.is_prefix_of(b),
        b.is_prefix_of(c),
    ensures
        a.is_prefix_of(c),
{
    assert forall|i: int| 0 <= i < a.len() implies a[i] == c[i] by {
        assert(a[i] == b.subrange(0, a.len() as int)[i]);
        assert(b[i] == c.subrange(0, b.len() as int)[i]);
    }
    assert(a =~= c.subrange(0, a.len() as int));
}

proof fn lemma_added_items_come_last(
    items: Seq<JsonTree>,
    missing: Option<Seq<char>>,
    kind: Seq<char>,
    depth: int,
    models: Seq<Seq<char>>,
    n: int,
)
    requires
        0 <= depth,
        0 <= n <= items.len(),
    ensures
        models.is_prefix_of(graph_of_items(items, missing, kind, depth, models, n).models),
    decreases MAX_MODEL_DEPTH - depth, n + 2,
{
    if n > 0 {
        lemma_added_items_come_last(items, missing, kind, depth, models, n - 1);
        let before = graph_of_items(items, missing, kind, depth, models, n - 1);
        match missing {
            None => {
                lemma_added_models_come_last(items[n - 1], depth, before.models);
                let after = graph_of(items[n - 1], depth, before.models);
                lemma_first_stay_first(models, before.models, after.models);
            },
            Some(_) => {
                if let Some(model) = items[n - 1].member("model"@) {
                    lemma_added_models_come_last(model, depth, before.models);
                    let after = graph_of(model, depth, before.models);
                    lemma_first_stay_first(models, before.models, after.models);
                }
            },
        }
    }
}

/// The special models that can be drawn.
pub proof fn lemma_special_renderers(name: Seq<char>)
    ensures
        is_among(name, SPECIAL_RENDERERS@) <==> name == "minecraft:banner"@ || name == "minecraft:bed"@ || name == "minecraft:chest"@ || name == "minecraft:conduit"@ || name == "minecraft:copper_golem_statue"@ || name == "minecraft:decorated_pot"@ || name == "minecraft:head"@ || name == "minecraft:player_head"@ || name == "minecraft:shield"@ || name == "minecraft:shulker_box"@ || name == "minecraft:trident"@,
{
    let names = SPECIAL_RENDERERS@;
    assert(names[0]@ == "minecraft:banner"@ && names[1]@ == "minecraft:bed"@ && names[2]@ == "minecraft:chest"@ && names[3]@ == "minecraft:conduit"@ && names[4]@ == "minecraft:copper_golem_statue"@ && names[5]@ == "minecraft:decorated_pot"@ && names[6]@ == "minecraft:head"@ && names[7]@ == "minecraft:player_head"@ && names[8]@ == "minecraft:shield"@ && names[9]@ == "minecraft:shulker_box"@ && names[10]@ == "minecraft:trident"@);
    if is_among(name, names) {
        let i = choose|i: int| 0 <= i < names.len() && (#[trigger] names[i])@ == name;
        assert(i == 0 || i == 1 || i == 2 || i == 3 || i == 4 || i == 5 || i == 6 || i == 7 || i == 8 || i == 9 || i == 10);
    }
}

} // verus!
