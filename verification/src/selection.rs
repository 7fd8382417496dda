//! Choice of one model out of weighted alternatives.

use crate::direction::Direction;
use crate::resources::{ModelApplication, ModelFace, RenderLayer, WeightedApplications};
use crate::variant_random::{next_int_result, ModelVariantRandom};
use vstd::prelude::*;

verus! {

/// The alternative on which `choice` falls, counting weights from `from` on;
/// what lies beyond all weights falls on the last.
pub open spec fn chosen(entries: Seq<(u32, ModelApplication)>, choice: int, from: int) -> Option<int>
    decreases entries.len() - from,
{
    if from < 0 || from >= entries.len() {
        if entries.len() == 0 {
            None
        } else {
            Some(entries.len() - 1)
        }
    } else if choice < entries[from].0 {
        Some(from)
    } else {
        chosen(entries, choice - entries[from].0, from + 1)
    }
}

/// The alternative that a generator state selects, and the state after it.
pub open spec fn selected(part: WeightedApplications, seed: int) -> (Option<int>, int) {
    if part.total_weight == 0 {
        (None, seed)
    } else {
        let (drawn, state) = next_int_result(seed, part.total_weight as int);
        match drawn {
            None => (None, state),
            Some(choice) => (chosen(part.entries@, choice, 0), state),
        }
    }
}

fn choose_entry(entries: &Vec<(u32, ModelApplication)>, drawn: u32) -> (entry: Option<usize>)
    ensures
        match entry {
            Some(found) => chosen(entries@, drawn as int, 0) == Some(found as int) && found
                < entries@.len(),
            None => chosen(entries@, drawn as int, 0) is None,
        },
{
    let mut choice: u32 = drawn;
    let mut i: usize = 0;
    while i < entries.len()
        invariant
            i <= entries@.len(),
            chosen(entries@, drawn as int, 0) == chosen(entries@, choice as int, i as int),
        decreases entries@.len() - i,
    {
        let weight: u32 = entries[i].0;
        if choice < weight {
            return Some(i);
        }
        choice = choice - weight;
        i += 1;
    }
    if entries.len() == 0 {
        None
    } else {
        Some(entries.len() - 1)
    }
}

/// Draws one alternative; `None` where the weights are zero or too large, or
/// where there is no alternative.
pub fn select_model(part: &WeightedApplications, random: &mut ModelVariantRandom) -> (entry: Option<
    usize,
>)
    requires
        old(random).well_formed(),
    ensures
        final(random).well_formed(),
        ({
            let (index, state) = selected(*part, old(random).seed as int);
            &&& final(random).seed == state
            &&& match entry {
                Some(found) => index == Some(found as int) && found < part.entries@.len(),
                None => index is None,
            }
        }),
{
    if part.total_weight == 0 {
        return None;
    }
    let drawn: u32 = match random.next_int(part.total_weight) {
        Some(drawn) => drawn,
        None => return None,
    };
    choose_entry(&part.entries, drawn)
}

/// The alternatives that the parts from `from` on select, part by part from one
/// generator; a part that selects none is left out.
pub open spec fn selected_from(
    parts: Seq<WeightedApplications>,
    seed: int,
    from: int,
) -> Seq<ModelApplication>
    decreases parts.len() - from,
{
    if from < 0 || from >= parts.len() {
        Seq::empty()
    } else {
        let (index, state) = selected(parts[from], seed);
        let rest = selected_from(parts, state, from + 1);
        match index {
            Some(entry) => seq![parts[from].entries@[entry].1] + rest,
            None => rest,
        }
    }
}

/// The state of the generator once the parts from `from` on have drawn from it.
pub open spec fn state_after(parts: Seq<WeightedApplications>, seed: int, from: int) -> int
    decreases parts.len() - from,
{
    if from < 0 || from >= parts.len() {
        seed
    } else {
        state_after(parts, selected(parts[from], seed).1, from + 1)
    }
}

/// The selected models of a block's parts.
pub fn select_models<'a>(parts: &'a Vec<WeightedApplications>, random: &mut ModelVariantRandom) -> (models:
    Vec<&'a ModelApplication>)
    requires
        old(random).well_formed(),
    ensures
        final(random).well_formed(),
        final(random).seed == state_after(parts@, old(random).seed as int, 0),
        models@.len() == selected_from(parts@, old(random).seed as int, 0).len(),
        forall|i: int|
            0 <= i < models@.len() ==> *(#[trigger] models@[i]) == selected_from(
                parts@,
                old(random).seed as int,
                0,
            )[i],
{
    let mut models: Vec<&'a ModelApplication> = Vec::new();
    let mut i: usize = 0;
    let ghost all = selected_from(parts@, random.seed as int, 0);
    while i < parts.len()
        invariant
            i <= parts@.len(),
            random.well_formed(),
            state_after(parts@, random.seed as int, i as int) == state_after(
                parts@,
                old(random).seed as int,
                0,
            ),
            all == selected_from(parts@, old(random).seed as int, 0),
            all.len() == models@.len() + selected_from(
                parts@,
                random.seed as int,
                i as int,
            ).len(),
            all.subrange(models@.len() as int, all.len() as int) == selected_from(
                parts@,
                random.seed as int,
                i as int,
            ),
            forall|k: int| 0 <= k < models@.len() ==> *(#[trigger] models@[k]) == all[k],
        decreases parts@.len() - i,
    {
        let ghost tail = selected_from(parts@, random.seed as int, i as int);
        let ghost before = models@;
        match select_model(&parts[i], random) {
            Some(entry) => {
                models.push(&parts[i].entries[entry].1);
                proof {
                    assert(tail[0] == parts@[i as int].entries@[entry as int].1);
                    assert(all.subrange(before.len() as int, all.len() as int)[0] == tail[0]);
                    let rest = selected_from(parts@, random.seed as int, i + 1);
                    assert(all.subrange(models@.len() as int, all.len() as int)
                        =~= tail.subrange(1, tail.len() as int));
                    assert(tail.subrange(1, tail.len() as int) =~= rest);
                }
            },
            None => {},
        }
        i += 1;
    }
    models
}

/// Whether a model has an opaque face in a direction.
pub open spec fn has_opaque_face(faces: Seq<ModelFace>, direction: Direction) -> bool {
    exists|i: int|
        0 <= i < faces.len() && (#[trigger] faces[i]).direction == direction
            && faces[i].render_layer == RenderLayer::Opaque
}

pub fn shows_opaque_face(model: &ModelApplication, direction: Direction) -> (yes: bool)
    ensures
        yes == has_opaque_face(model.faces@, direction),
{
    let mut i: usize = 0;
    while i < model.faces.len()
        invariant
            i <= model.faces@.len(),
            forall|k: int|
                0 <= k < i ==> !((#[trigger] model.faces@[k]).direction == direction
                    && model.faces@[k].render_layer == RenderLayer::Opaque),
        decreases model.faces@.len() - i,
    {
        if model.faces[i].direction == direction && model.faces[i].render_layer
            == RenderLayer::Opaque {
            return true;
        }
        i += 1;
    }
    false
}

/// The sum of the weights of the first `count` alternatives.
pub open spec fn weight_sum(entries: Seq<(u32, ModelApplication)>, count: int) -> int
    decreases count,
{
    if count <= 0 {
        0
    } else {
        weight_sum(entries, count - 1) + entries[count - 1].0
    }
}

/// A draw below the total weight falls on the alternative in whose run of
/// weights it lies, so no alternative of weight zero is ever chosen.
pub proof fn lemma_choice_is_proportional(entries: Seq<(u32, ModelApplication)>, choice: int)
    requires
        0 <= choice < weight_sum(entries, entries.len() as int),
    ensures
        ({
            &&& chosen(entries, choice, 0) matches Some(index)
            &&& 0 <= index < entries.len()
            &&& weight_sum(entries, index) <= choice < weight_sum(entries, index + 1)
        }),
{
    lemma_choice_from(entries, choice, 0);
}

proof fn lemma_choice_from(entries: Seq<(u32, ModelApplication)>, choice: int, from: int)
    requires
        0 <= from <= entries.len(),
        weight_sum(entries, from) <= choice < weight_sum(entries, entries.len() as int),
    ensures
        ({
            &&& chosen(entries, choice - weight_sum(entries, from), from) matches Some(index)
            &&& from <= index < entries.len()
            &&& weight_sum(entries, index) <= choice < weight_sum(entries, index + 1)
        }),
    decreases entries.len() - from,
{
    if from < entries.len() {
        assert(weight_sum(entries, from + 1) == weight_sum(entries, from) + entries[from].0);
        if choice >= weight_sum(entries, from + 1) {
            lemma_choice_from(entries, choice, from + 1);
        }
    }
}

/// What is drawn beyond all weights is the last, and of nothing nothing is drawn.
pub proof fn lemma_last_is_drawn_beyond_all_weights(
    entries: Seq<(u32, ModelApplication)>,
    choice: int,
)
    requires
        choice >= weight_sum(entries, entries.len() as int),
    ensures
        entries.len() == 0 ==> chosen(entries, choice, 0) is None,
        entries.len() > 0 ==> chosen(entries, choice, 0) == Some(entries.len() - 1),
{
    lemma_chosen_beyond(entries, choice, 0);
}

proof fn lemma_chosen_beyond(entries: Seq<(u32, ModelApplication)>, choice: int, from: int)
    requires
        0 <= from <= entries.len(),
        choice >= weight_sum(entries, entries.len() as int) - weight_sum(entries, from),
    ensures
        entries.len() == 0 ==> chosen(entries, choice, from) is None,
        entries.len() > 0 ==> chosen(entries, choice, from) == Some(entries.len() - 1),
    decreases entries.len() - from,
{
    if from < entries.len() {
        lemma_sums_grow(entries, from + 1, entries.len() as int);
        lemma_chosen_beyond(entries, choice - entries[from].0, from + 1);
    }
}

proof fn lemma_sums_grow(entries: Seq<(u32, ModelApplication)>, m: int, n: int)
    requires
        0 <= m <= n <= entries.len(),
    ensures
        weight_sum(entries, m) <= weight_sum(entries, n),
    decreases n - m,
{
    if m < n {
        lemma_sums_grow(entries, m, n - 1);
    }
}

/// Weights are summed one by one.
pub proof fn lemma_each_weight_counts(entries: Seq<(u32, ModelApplication)>, n: int)
    requires
        0 <= n < entries.len(),
    ensures
        weight_sum(entries, 0) == 0,
        weight_sum(entries, n + 1) - weight_sum(entries, n) == entries[n].0,
{
}

/// Each part is drawn from on its own, one after the other, with what the draws before it
/// left of the random numbers. A part without weight takes none of them and gives no
/// model.
pub proof fn lemma_parts_are_drawn_in_turn(
    parts: Seq<WeightedApplications>,
    seed: int,
    from: int,
)
    requires
        0 <= from < parts.len(),
    ensures
        selected_from(parts, seed, parts.len() as int) == Seq::<ModelApplication>::empty(),
        parts[from].total_weight == 0 ==> selected_from(parts, seed, from) == selected_from(
            parts,
            seed,
            from + 1,
        ) && state_after(parts, seed, from) == state_after(parts, seed, from + 1),
        ({
            let (index, state) = selected(parts[from], seed);
            let rest = selected_from(parts, state, from + 1);
            &&& state_after(parts, seed, from) == state_after(parts, state, from + 1)
            &&& index is None ==> selected_from(parts, seed, from) == rest
            &&& index matches Some(entry) ==> {
                &&& selected_from(parts, seed, from).first() == parts[from].entries@[entry].1
                &&& selected_from(parts, seed, from).drop_first() == rest
            }
        }),
{
    let (index, state) = selected(parts[from], seed);
    let rest = selected_from(parts, state, from + 1);
    if index is Some {
        assert(selected_from(parts, seed, from).drop_first() =~= rest);
    }
}

/// A model is drawn by a number below the weight of its part.
pub proof fn lemma_models_are_drawn_by_weight(part: WeightedApplications, seed: int)
    ensures
        part.total_weight == 0 ==> selected(part, seed) == (None::<int>, seed),
        part.total_weight > 0 ==> ({
            let (drawn, state) = next_int_result(seed, part.total_weight as int);
            &&& selected(part, seed).1 == state
            &&& drawn is None ==> selected(part, seed).0 is None
            &&& drawn matches Some(choice) ==> selected(part, seed).0 == chosen(
                part.entries@,
                choice,
                0,
            )
        }),
{
}

/// A model shows an opaque face in a direction where one of its faces lies that way and is
/// not seen through.
pub proof fn lemma_opaque_faces_are_seen(faces: Seq<ModelFace>, face: ModelFace)
    ensures
        has_opaque_face(faces.push(face), face.direction) <==> face.render_layer
            == RenderLayer::Opaque || has_opaque_face(faces, face.direction),
        forall|direction: Direction|
            direction != face.direction ==> (has_opaque_face(faces.push(face), direction)
                <==> #[trigger] has_opaque_face(faces, direction)),
        forall|direction: Direction| !#[trigger] has_opaque_face(Seq::empty(), direction),
{
    let all = faces.push(face);
    assert forall|direction: Direction| #[trigger]
        has_opaque_face(faces, direction) implies has_opaque_face(all, direction) by {
        let i = choose|i: int|
            0 <= i < faces.len() && (#[trigger] faces[i]).direction == direction
                && faces[i].render_layer == RenderLayer::Opaque;
        assert(all[i] == faces[i]);
    }
    assert forall|direction: Direction|
        has_opaque_face(all, direction) && direction != face.direction implies #[trigger]
    has_opaque_face(faces, direction) by {
        let i = choose|i: int|
            0 <= i < all.len() && (#[trigger] all[i]).direction == direction
                && all[i].render_layer == RenderLayer::Opaque;
        assert(all[i] == faces[i]);
    }
    if has_opaque_face(all, face.direction) && face.render_layer != RenderLayer::Opaque {
        let i = choose|i: int|
            0 <= i < all.len() && (#[trigger] all[i]).direction == face.direction
                && all[i].render_layer == RenderLayer::Opaque;
        assert(all[i] == faces[i]);
    }
    if face.render_layer == RenderLayer::Opaque {
        assert(all[faces.len() as int].direction == face.direction);
    }
}

} // verus!
