//! Prepared resources: what is loaded, counted and kept.

use crate::atlas::{
    animated, clamped, column, cursor, is_packable, line, needed_height, next_power, pack_atlas,
    painted, power_from, region_of, regions_upto, spot, TextureAtlasData, ATLAS_WIDTH,
};
use crate::banner::{
    all_known, append_component_key, are_resolved, component_failure, component_key,
    component_layers, decode_banner_pattern_layers, gui_item_render_key, item_key, layer_views,
    BannerPatternLayer, BannerPatternLayers, BannerPatternRegistry, DeferredBannerPatterns,
};
use crate::error::{failure_message, malformation, malformed, BlockResourceError, Failure};
use crate::grid::RuntimeBlockStateId;
use crate::animation::{decode_texture_metadata, texture_animation};
use crate::identifiers::{
    banner_pattern_texture, banner_sprite, identified, parse_identifier, path_of,
    resource_location, resource_path,
};
use crate::json::bytes_view;
use crate::images::{
    decode_png, decoded_texture, missing_pixels, missing_texture, DecodedImage, GuiSpriteData,
    ImageModel,
};
use crate::names::NameMap;
use crate::prepared::{
    appearance_rule, apply_state_semantics, parts_changed, BlockEnvironment,
};
use crate::semantics::offset_of;
use crate::resources::{
    AtlasRegion, ClimateColors, FluidKind, FluidState, ModelApplication, ModelFace, RenderLayer, StateModels,
    StateTable, WeightedApplications,
};
use crate::text::{contains_text, mentions, same_text};
use vstd::prelude::*;

verus! {

pub const DESTROY_STAGE_COUNT: u8 = 10;

/// The images of the inventory and of the display over the world.
pub const INVENTORY_SPRITES: [&'static str; 51] = [
    "gui/container/inventory",
    "gui/container/generic_54",
    "gui/container/furnace",
    "gui/container/crafting_table",
    "gui/sprites/hud/hotbar",
    "gui/sprites/hud/hotbar_selection",
    "gui/sprites/container/furnace/burn_progress",
    "gui/sprites/container/furnace/lit_progress",
    "gui/sprites/container/slot/helmet",
    "gui/sprites/container/slot/chestplate",
    "gui/sprites/container/slot/leggings",
    "gui/sprites/container/slot/boots",
    "gui/sprites/container/slot/shield",
    "gui/sprites/container/slot_highlight_back",
    "gui/sprites/container/slot_highlight_front",
    "gui/sprites/tooltip/background",
    "gui/sprites/tooltip/frame",
    "gui/container/creative_inventory/tab_items",
    "gui/container/creative_inventory/tab_item_search",
    "gui/container/creative_inventory/tab_inventory",
    "gui/sprites/container/creative_inventory/scroller",
    "gui/sprites/container/creative_inventory/scroller_disabled",
    "gui/sprites/container/creative_inventory/tab_top_selected_1",
    "gui/sprites/container/creative_inventory/tab_top_selected_2",
    "gui/sprites/container/creative_inventory/tab_top_selected_3",
    "gui/sprites/container/creative_inventory/tab_top_selected_4",
    "gui/sprites/container/creative_inventory/tab_top_selected_5",
    "gui/sprites/container/creative_inventory/tab_top_selected_6",
    "gui/sprites/container/creative_inventory/tab_top_selected_7",
    "gui/sprites/container/creative_inventory/tab_top_unselected_1",
    "gui/sprites/container/creative_inventory/tab_top_unselected_2",
    "gui/sprites/container/creative_inventory/tab_top_unselected_3",
    "gui/sprites/container/creative_inventory/tab_top_unselected_4",
    "gui/sprites/container/creative_inventory/tab_top_unselected_5",
    "gui/sprites/container/creative_inventory/tab_top_unselected_6",
    "gui/sprites/container/creative_inventory/tab_top_unselected_7",
    "gui/sprites/container/creative_inventory/tab_bottom_selected_1",
    "gui/sprites/container/creative_inventory/tab_bottom_selected_2",
    "gui/sprites/container/creative_inventory/tab_bottom_selected_3",
    "gui/sprites/container/creative_inventory/tab_bottom_selected_4",
    "gui/sprites/container/creative_inventory/tab_bottom_selected_5",
    "gui/sprites/container/creative_inventory/tab_bottom_selected_6",
    "gui/sprites/container/creative_inventory/tab_bottom_selected_7",
    "gui/sprites/container/creative_inventory/tab_bottom_unselected_1",
    "gui/sprites/container/creative_inventory/tab_bottom_unselected_2",
    "gui/sprites/container/creative_inventory/tab_bottom_unselected_3",
    "gui/sprites/container/creative_inventory/tab_bottom_unselected_4",
    "gui/sprites/container/creative_inventory/tab_bottom_unselected_5",
    "gui/sprites/container/creative_inventory/tab_bottom_unselected_6",
    "gui/sprites/container/creative_inventory/tab_bottom_unselected_7",
    "font/ascii",
];

/// The blocks that are nothing.
pub open spec fn is_air_block(identifier: Seq<char>) -> bool {
    identifier == "minecraft:air"@ || identifier == "minecraft:cave_air"@ || identifier
        == "minecraft:void_air"@
}

pub fn is_air(identifier: &str) -> (yes: bool)
    ensures
        yes == is_air_block(identifier@),
{
    same_text(identifier, "minecraft:air") || same_text(identifier, "minecraft:cave_air")
        || same_text(identifier, "minecraft:void_air")
}

/// `chosen` are the models of a block state, and whether they stand for a state without
/// any.
pub open spec fn is_choice(
    chosen: (StateModels, bool),
    is_air: bool,
    resolved: Option<StateModels>,
    fallback: StateModels,
) -> bool {
    if is_air {
        chosen.0.is_empty() && !chosen.1
    } else {
        match resolved {
            Some(models) => if models.parts@.len() > 0 {
                chosen == (models, false)
            } else {
                chosen == (fallback, true)
            },
            None => chosen == (fallback, true),
        }
    }
}

/// The models of a block state: none for air, those that were resolved, or those
/// that stand for a state without any. The second tells whether the last was
/// taken.
pub fn choose_models(is_air: bool, resolved: Option<StateModels>, fallback: StateModels) -> (chosen: (
    StateModels,
    bool,
))
    ensures
        is_choice(chosen, is_air, resolved, fallback),
        if is_air {
            chosen.0.is_empty() && !chosen.1
        } else {
            match resolved {
                Some(models) => if models.parts@.len() > 0 {
                    chosen == (models, false)
                } else {
                    chosen == (fallback, true)
                },
                None => chosen == (fallback, true),
            }
        },
{
    if is_air {
        return (StateModels::empty(), false);
    }
    match resolved {
        Some(models) => {
            if models.parts.len() > 0 {
                (models, false)
            } else {
                (fallback, true)
            }
        },
        None => (fallback, true),
    }
}

pub open spec fn state_failure() -> Failure {
    malformation("game data"@, "block states"@, "state ID range overflow"@)
}

/// The ids ascend, each once.
pub open spec fn ids_ascend(states: Seq<(u32, StateModels)>) -> bool {
    forall|i: int, j: int|
        0 <= i < j < states.len() ==> (#[trigger] states[i]).0 < (#[trigger] states[j]).0
}

pub open spec fn has_id(states: Seq<(u32, StateModels)>, id: int) -> bool {
    exists|i: int| 0 <= i < states.len() && (#[trigger] states[i]).0 == id
}

/// `table` holds each state under its id, and nothing else.
pub open spec fn is_indexed(
    table: Seq<Option<StateModels>>,
    states: Seq<(u32, StateModels)>,
) -> bool {
    &&& forall|i: int|
        0 <= i < states.len() ==> states[i].0 < table.len() && table[(#[trigger] states[i]).0 as int]
            == Some(states[i].1)
    &&& forall|id: int|
        0 <= id < table.len() && !has_id(states, id) ==> (#[trigger] table[id]) is None
}

fn empty_table(length: usize) -> (table: Vec<Option<StateModels>>)
    ensures
        table@.len() == length,
        forall|i: int| 0 <= i < length ==> (#[trigger] table@[i]) is None,
{
    let mut table: Vec<Option<StateModels>> = Vec::new();
    let mut i: usize = 0;
    while i < length
        invariant
            i <= length,
            table@.len() == i,
            forall|k: int| 0 <= k < i ==> (#[trigger] table@[k]) is None,
        decreases length - i,
    {
        table.push(None);
        i += 1;
    }
    table
}

/// Puts block states under their ids, up to the largest. It fails where there are
/// none, or where no table can reach the largest.
pub fn index_states(states: Vec<(u32, StateModels)>) -> (result: Result<
    Vec<Option<StateModels>>,
    BlockResourceError,
>)
    requires
        ids_ascend(states@),
    ensures
        match result {
            Ok(table) => {
                &&& states@.len() > 0
                &&& states@.last().0 < usize::MAX
                &&& table@.len() == states@.last().0 + 1
                &&& is_indexed(table@, states@)
            },
            Err(error) => (states@.len() == 0 || states@.last().0 >= usize::MAX) && error@
                == state_failure(),
        },
{
    let mut left: Vec<(u32, StateModels)> = states;
    let ghost all = left@;
    if left.len() == 0 {
        return Err(malformed("game data", "block states", "state ID range overflow"));
    }
    let last: usize = left[left.len() - 1].0 as usize;
    if last == usize::MAX {
        return Err(malformed("game data", "block states", "state ID range overflow"));
    }
    let length: usize = last + 1;
    let mut table: Vec<Option<StateModels>> = empty_table(length);
    while left.len() > 0
        invariant
            ids_ascend(all),
            all.len() > 0,
            length == all.last().0 + 1,
            table@.len() == length,
            left@.len() <= all.len(),
            left@ == all.take(left@.len() as int),
            forall|i: int|
                left@.len() <= i < all.len() ==> table@[(#[trigger] all[i]).0 as int] == Some(
                    all[i].1,
                ),
            forall|id: int|
                0 <= id < table@.len() && (forall|i: int|
                    left@.len() <= i < all.len() ==> (#[trigger] all[i]).0 != id) ==> (
                #[trigger] table@[id]) is None,
        decreases left@.len(),
    {
        let ghost n = left@.len() as int;
        match left.pop() {
            Some((id, models)) => {
                proof {
                    assert(all[n - 1] == (id, models));
                    assert(id <= all.last().0);
                    assert(left@ =~= all.take(n - 1));
                }
                let ghost before = table@;
                table.set(id as usize, Some(models));
                proof {
                    assert forall|i: int| n - 1 <= i < all.len() implies table@[(
                    #[trigger] all[i]).0 as int] == Some(all[i].1) by {
                        if i > n - 1 {
                            assert(all[n - 1].0 < all[i].0);
                            assert(before[all[i].0 as int] == Some(all[i].1));
                        }
                    }
                    assert forall|k: int|
                        0 <= k < table@.len() && (forall|i: int|
                            n - 1 <= i < all.len() ==> (#[trigger] all[i]).0 != k) implies (
                    #[trigger] table@[k]) is None by {
                        assert(all[n - 1].0 != k);
                        assert(before[k] is None);
                    }
                }
            },
            None => {},
        }
    }
    proof {
        assert forall|i: int| 0 <= i < all.len() implies all[i].0 < table@.len() && table@[(
        #[trigger] all[i]).0 as int] == Some(all[i].1) by {
            assert(all[i].0 <= all.last().0);
        }
        assert forall|id: int| 0 <= id < table@.len() && !has_id(all, id) implies (
        #[trigger] table@[id]) is None by {
            assert forall|i: int| 0 <= i < all.len() implies (#[trigger] all[i]).0 != id by {}
        }
    }
    Ok(table)
}

/// Whether a model has a face with a texture.
pub open spec fn faces_use(faces: Seq<ModelFace>, name: Seq<char>) -> bool {
    exists|k: int| 0 <= k < faces.len() && (#[trigger] faces[k]).texture@ == name
}

pub open spec fn entries_use(entries: Seq<(u32, ModelApplication)>, name: Seq<char>) -> bool {
    exists|j: int| 0 <= j < entries.len() && faces_use((#[trigger] entries[j]).1.faces@, name)
}

pub open spec fn parts_use(parts: Seq<WeightedApplications>, name: Seq<char>) -> bool {
    exists|i: int| 0 <= i < parts.len() && entries_use((#[trigger] parts[i]).entries@, name)
}

/// The textures of a fluid: at rest and flowing.
pub open spec fn fluid_uses(fluid: Option<FluidState>, name: Seq<char>) -> bool {
    match fluid {
        None => false,
        Some(fluid) => match fluid.kind {
            FluidKind::Water => name == "minecraft:block/water_still"@ || name
                == "minecraft:block/water_flow"@,
            FluidKind::Lava => name == "minecraft:block/lava_still"@ || name
                == "minecraft:block/lava_flow"@,
        },
    }
}

/// Whether a block state is drawn with a texture.
pub open spec fn state_uses(state: StateModels, name: Seq<char>) -> bool {
    fluid_uses(state.fluid, name) || parts_use(state.parts@, name)
}

pub open spec fn states_use(states: Seq<StateModels>, name: Seq<char>) -> bool {
    exists|s: int| 0 <= s < states.len() && state_uses(#[trigger] states[s], name)
}

/// A set of names, in their order.
pub type NameSet = NameMap<()>;

fn add_face_textures(names: &mut NameSet, faces: &Vec<ModelFace>)
    requires
        old(names).well_formed(),
    ensures
        final(names).well_formed(),
        forall|name: Seq<char>| #[trigger]
            final(names)@.contains_key(name) == (old(names)@.contains_key(name) || faces_use(
                faces@,
                name,
            )),
{
    let mut k: usize = 0;
    while k < faces.len()
        invariant
            k <= faces@.len(),
            names.well_formed(),
            forall|name: Seq<char>| #[trigger]
                names@.contains_key(name) == (old(names)@.contains_key(name) || exists|n: int|
                    0 <= n < k && (#[trigger] faces@[n]).texture@ == name),
        decreases faces@.len() - k,
    {
        let ghost before = names@;
        names.insert(faces[k].texture.clone(), ());
        proof {
            assert forall|name: Seq<char>| #[trigger]
                names@.contains_key(name) == (old(names)@.contains_key(name) || exists|n: int|
                    0 <= n < k + 1 && (#[trigger] faces@[n]).texture@ == name) by {
                assert(names@.contains_key(name) == (before.contains_key(name) || name
                    == faces@[k as int].texture@));
                if name == faces@[k as int].texture@ {
                    assert(faces@[k as int].texture@ == name);
                }
            }
        }
        k += 1;
    }
}

fn add_entry_textures(names: &mut NameSet, entries: &Vec<(u32, ModelApplication)>)
    requires
        old(names).well_formed(),
    ensures
        final(names).well_formed(),
        forall|name: Seq<char>| #[trigger]
            final(names)@.contains_key(name) == (old(names)@.contains_key(name) || entries_use(
                entries@,
                name,
            )),
{
    let mut j: usize = 0;
    while j < entries.len()
        invariant
            j <= entries@.len(),
            names.well_formed(),
            forall|name: Seq<char>| #[trigger]
                names@.contains_key(name) == (old(names)@.contains_key(name) || exists|n: int|
                    0 <= n < j && faces_use((#[trigger] entries@[n]).1.faces@, name)),
        decreases entries@.len() - j,
    {
        let ghost before = names@;
        add_face_textures(names, &entries[j].1.faces);
        proof {
            assert forall|name: Seq<char>| #[trigger]
                names@.contains_key(name) == (old(names)@.contains_key(name) || exists|n: int|
                    0 <= n < j + 1 && faces_use((#[trigger] entries@[n]).1.faces@, name)) by {
                if faces_use(entries@[j as int].1.faces@, name) {
                    assert(faces_use(entries@[j as int].1.faces@, name));
                }
                assert(names@.contains_key(name) == (before.contains_key(name) || faces_use(
                    entries@[j as int].1.faces@,
                    name,
                )));
            }
        }
        j += 1;
    }
}

fn add_part_textures(names: &mut NameSet, parts: &Vec<WeightedApplications>)
    requires
        old(names).well_formed(),
    ensures
        final(names).well_formed(),
        forall|name: Seq<char>| #[trigger]
            final(names)@.contains_key(name) == (old(names)@.contains_key(name) || parts_use(
                parts@,
                name,
            )),
{
    let mut i: usize = 0;
    while i < parts.len()
        invariant
            i <= parts@.len(),
            names.well_formed(),
            forall|name: Seq<char>| #[trigger]
                names@.contains_key(name) == (old(names)@.contains_key(name) || exists|n: int|
                    0 <= n < i && entries_use((#[trigger] parts@[n]).entries@, name)),
        decreases parts@.len() - i,
    {
        let ghost before = names@;
        add_entry_textures(names, &parts[i].entries);
        proof {
            assert forall|name: Seq<char>| #[trigger]
                names@.contains_key(name) == (old(names)@.contains_key(name) || exists|n: int|
                    0 <= n < i + 1 && entries_use((#[trigger] parts@[n]).entries@, name)) by {
                if entries_use(parts@[i as int].entries@, name) {
                    assert(entries_use(parts@[i as int].entries@, name));
                }
                assert(names@.contains_key(name) == (before.contains_key(name) || entries_use(
                    parts@[i as int].entries@,
                    name,
                )));
            }
        }
        i += 1;
    }
}

fn add_fluid_textures(names: &mut NameSet, fluid: Option<FluidState>)
    requires
        old(names).well_formed(),
    ensures
        final(names).well_formed(),
        forall|name: Seq<char>| #[trigger]
            final(names)@.contains_key(name) == (old(names)@.contains_key(name) || fluid_uses(
                fluid,
                name,
            )),
{
    match fluid {
        None => {},
        Some(fluid) => match fluid.kind {
            FluidKind::Water => {
                names.insert("minecraft:block/water_still".to_owned(), ());
                names.insert("minecraft:block/water_flow".to_owned(), ());
            },
            FluidKind::Lava => {
                names.insert("minecraft:block/lava_still".to_owned(), ());
                names.insert("minecraft:block/lava_flow".to_owned(), ());
            },
        },
    }
}

/// The textures that block states are drawn with, and the missing texture.
pub fn atlas_textures(states: &Vec<StateModels>, additional: &Vec<String>) -> (names: NameSet)
    ensures
        names.well_formed(),
        forall|name: Seq<char>| #[trigger]
            names@.contains_key(name) == (name == "cubic:missing"@ || lists_name(
                additional@,
                name,
            ) || states_use(states@, name)),
{
    let mut names: NameSet = NameMap::new();
    names.insert("cubic:missing".to_owned(), ());
    let mut i: usize = 0;
    while i < additional.len()
        invariant
            i <= additional@.len(),
            names.well_formed(),
            forall|name: Seq<char>| #[trigger]
                names@.contains_key(name) == (name == "cubic:missing"@ || exists|n: int|
                    0 <= n < i && (#[trigger] additional@[n])@ == name),
        decreases additional@.len() - i,
    {
        let ghost before = names@;
        names.insert(additional[i].clone(), ());
        proof {
            assert forall|name: Seq<char>| #[trigger]
                names@.contains_key(name) == (name == "cubic:missing"@ || exists|n: int|
                    0 <= n < i + 1 && (#[trigger] additional@[n])@ == name) by {
                if name == additional@[i as int]@ {
                    assert(additional@[i as int]@ == name);
                }
                assert(names@.contains_key(name) == (before.contains_key(name) || name
                    == additional@[i as int]@));
            }
        }
        i += 1;
    }
    let ghost fixed = names@;
    let mut s: usize = 0;
    while s < states.len()
        invariant
            s <= states@.len(),
            names.well_formed(),
            forall|name: Seq<char>| #[trigger]
                names@.contains_key(name) == (fixed.contains_key(name) || exists|n: int|
                    0 <= n < s && state_uses(#[trigger] states@[n], name)),
        decreases states@.len() - s,
    {
        let ghost before = names@;
        add_fluid_textures(&mut names, states[s].fluid);
        let ghost between = names@;
        add_part_textures(&mut names, &states[s].parts);
        proof {
            assert forall|name: Seq<char>| #[trigger]
                names@.contains_key(name) == (fixed.contains_key(name) || exists|n: int|
                    0 <= n < s + 1 && state_uses(#[trigger] states@[n], name)) by {
                assert(between.contains_key(name) == (before.contains_key(name) || fluid_uses(
                    states@[s as int].fluid,
                    name,
                )));
                if state_uses(states@[s as int], name) {
                    assert(state_uses(states@[s as int], name));
                }
                assert(names@.contains_key(name) == (before.contains_key(name) || state_uses(
                    states@[s as int],
                    name,
                )));
            }
        }
        s += 1;
    }
    names
}

pub open spec fn lists_name(names: Seq<String>, name: Seq<char>) -> bool {
    exists|n: int| 0 <= n < names.len() && (#[trigger] names[n])@ == name
}

pub open spec fn lists_pattern(assets: Seq<String>, name: Seq<char>) -> bool {
    exists|n: int| 0 <= n < assets.len() && banner_sprite((#[trigger] assets[n])@) == name
}

/// The textures of banners: the base and the sprites of the patterns.
pub fn banner_textures(assets: &Vec<String>) -> (names: NameSet)
    ensures
        names.well_formed(),
        forall|name: Seq<char>| #[trigger]
            names@.contains_key(name) == (name == "minecraft:entity/banner/banner_base"@
                || lists_pattern(assets@, name)),
{
    let mut names: NameSet = NameMap::new();
    names.insert("minecraft:entity/banner/banner_base".to_owned(), ());
    let mut i: usize = 0;
    while i < assets.len()
        invariant
            i <= assets@.len(),
            names.well_formed(),
            forall|name: Seq<char>| #[trigger]
                names@.contains_key(name) == (name == "minecraft:entity/banner/banner_base"@
                    || exists|n: int|
                    0 <= n < i && banner_sprite((#[trigger] assets@[n])@) == name),
        decreases assets@.len() - i,
    {
        let ghost before = names@;
        let sprite: String = banner_pattern_texture(assets[i].as_str());
        names.insert(sprite, ());
        proof {
            assert forall|name: Seq<char>| #[trigger]
                names@.contains_key(name) == (name == "minecraft:entity/banner/banner_base"@
                    || exists|n: int|
                    0 <= n < i + 1 && banner_sprite((#[trigger] assets@[n])@) == name) by {
                if name == banner_sprite(assets@[i as int]@) {
                    assert(banner_sprite(assets@[i as int]@) == name);
                }
                assert(names@.contains_key(name) == (before.contains_key(name) || name
                    == banner_sprite(assets@[i as int]@)));
            }
        }
        i += 1;
    }
    names
}

/// The missing texture as a model.
pub open spec fn missing_model() -> ImageModel {
    ImageModel {
        width: 16,
        height: 16,
        rgba: missing_pixels(),
        cutout: false,
        frames: seq![missing_pixels()],
    }
}

/// A texture, or the missing one where there is none or it cannot be decoded.
pub open spec fn present_or_missing(bytes: Option<Seq<u8>>) -> ImageModel {
    match bytes {
        Some(bytes) => match decoded_texture(bytes) {
            Ok(model) => model,
            Err(_) => missing_model(),
        },
        None => missing_model(),
    }
}

pub fn texture_or_missing(bytes: Option<&[u8]>) -> (image: DecodedImage)
    ensures
        image.animation is None,
        image@ == present_or_missing(bytes_view(bytes)),
{
    match bytes {
        Some(bytes) => match decode_png(bytes) {
            Ok(image) => image,
            Err(_) => missing_texture(),
        },
        None => missing_texture(),
    }
}

/// Whether `image` is a texture with what its metadata says of its animation.
pub open spec fn is_texture(
    result: Result<DecodedImage, BlockResourceError>,
    bytes: Option<Seq<u8>>,
    metadata: Option<Seq<u8>>,
    name: Seq<char>,
) -> bool {
    match identified(name) {
        Err(failure) => result matches Err(error) && error@ == failure,
        Ok(identifier) => {
            let image = present_or_missing(bytes);
            let path = resource_location(identifier, "textures"@, "png.mcmeta"@);
            match (result, texture_animation(metadata, image.frames.len() as int, name, path)) {
                (Ok(texture), Ok(animation)) => texture@ == image && match (
                    texture.animation,
                    animation,
                ) {
                    (Some(shown), Some((steps, interpolate))) => shown.sequence@ == steps
                        && shown.interpolate == interpolate,
                    (None, None) => true,
                    _ => false,
                },
                (Err(error), Err(failure)) => error@ == failure,
                _ => false,
            }
        },
    }
}

/// Reads a texture: an image, or the missing one, with the animation that its
/// metadata describes.
pub fn load_texture(bytes: Option<&[u8]>, metadata: Option<&[u8]>, name: &str) -> (result: Result<
    DecodedImage,
    BlockResourceError,
>)
    ensures
        is_texture(result, bytes_view(bytes), bytes_view(metadata), name@),
{
    let identifier: String = match parse_identifier(name) {
        Ok(identifier) => identifier,
        Err(error) => return Err(error),
    };
    let path: String = match resource_path(identifier.as_str(), "textures", "png.mcmeta") {
        Ok(path) => path,
        Err(error) => return Err(error),
    };
    let mut image: DecodedImage = texture_or_missing(bytes);
    match decode_texture_metadata(metadata, image.frames.len(), name, path.as_str()) {
        Ok(animation) => {
            image.animation = animation;
            Ok(image)
        },
        Err(error) => Err(error),
    }
}

/// A byte of the atlas that shows the missing texture alone: the texture from the
/// second pixel of the second line on, with its edges repeated about it.
pub open spec fn missing_byte(k: int) -> u8 {
    if column(k) < 18 && line(k) < 18 {
        missing_pixels()[(clamped(line(k) - 1, 15) * 16 + clamped(column(k) - 1, 15)) * 4 + k % 4]
    } else {
        0
    }
}

/// An atlas shows the missing texture, and nothing else.
pub open spec fn shows_missing_alone(atlas: TextureAtlasData) -> bool {
    &&& atlas.width == ATLAS_WIDTH
    &&& atlas.height == 32
    &&& atlas.rgba@.len() == ATLAS_WIDTH * 32 * 4
    &&& forall|k: int|
        0 <= k < atlas.rgba@.len() ==> #[trigger] atlas.rgba@[k] == missing_byte(k)
    &&& atlas.regions.well_formed()
    &&& atlas.regions@ == Map::<Seq<char>, AtlasRegion>::empty().insert(
        "cubic:missing"@,
        (AtlasRegion { x: 1, y: 1, width: 16, height: 16, layer: RenderLayer::Opaque }),
    )
    &&& atlas.animations@.len() == 0
}

/// An atlas with the missing texture alone.
pub fn missing_atlas() -> (result: Result<TextureAtlasData, BlockResourceError>)
    ensures
        result matches Ok(atlas) && shows_missing_alone(atlas),
{
    let mut entries: Vec<(String, DecodedImage)> = Vec::new();
    entries.push(("cubic:missing".to_owned(), missing_texture()));
    let images: NameMap<DecodedImage> = NameMap { entries };
    proof {
        let packed = images.entries@;
        assert(packed[0].1@.rgba == missing_pixels());
        assert(is_packable(packed[0].1));
        assert(cursor(packed, 0) == (1int, 1int, 0int));
        assert(cursor(packed, 1) == (19int, 1int, 16int));
        assert(needed_height(packed) == 18);
        assert(spot(packed, 0) == (1int, 1int));
        assert(regions_upto(packed, 0) == Map::<Seq<char>, AtlasRegion>::empty());
        assert(regions_upto(packed, 1) == regions_upto(packed, 0).insert(
            packed[0].0@,
            region_of(packed, 0),
        ));
        assert(next_power(18) == 32) by {
            reveal_with_fuel(power_from, 7);
        }
        reveal_with_fuel(animated, 2);
        assert forall|k: int| 0 <= k implies #[trigger] painted(packed, 1, k) == missing_byte(
            k,
        ) by {
            reveal_with_fuel(painted, 2);
        }
    }
    pack_atlas(&images)
}

/// `outcome` are the models of a block state with all that is known of it, and whether
/// they stand for a state without any.
pub open spec fn is_state_outcome(
    outcome: (StateModels, bool),
    identifier: Seq<char>,
    properties: Seq<(String, String)>,
    resolved: Option<StateModels>,
    fallback: StateModels,
    environment: BlockEnvironment,
    solid_shape: bool,
    special_parts: Option<Vec<WeightedApplications>>,
) -> bool {
    let (models, fell_back) = outcome;
    let source = match resolved {
        Some(own) => if own.parts@.len() > 0 {
            own
        } else {
            fallback
        },
        None => fallback,
    };
    let has_own = match resolved {
        Some(own) => own.parts@.len() > 0,
        None => false,
    };
    &&& fell_back == (!is_air_block(identifier) && !has_own)
    &&& models.fluid == environment.fluid
    &&& models.fluid_surface_solid == (environment.fluid is None && solid_shape)
    &&& models.emissive == environment.emissive
    &&& models.model_offset == offset_of(path_of(identifier))
    &&& match special_parts {
        Some(parts) => models.parts == parts && !models.full_opaque_cube,
        None => if is_air_block(identifier) {
            models.parts@.len() == 0 && !models.full_opaque_cube
        } else {
            &&& parts_changed(
                appearance_rule(path_of(identifier), properties),
                false,
                source.parts@,
                models.parts@,
            )
            &&& models.full_opaque_cube == source.full_opaque_cube
        },
    }
}

/// The models of a block state, in their meaning. The parts of a renderer of the
/// block's own, where it has one, take the place of all others. The second tells
/// whether the models stand for ones that could not be resolved.
pub fn state_models(
    identifier: &str,
    properties: &Vec<(String, String)>,
    resolved: Option<StateModels>,
    fallback: StateModels,
    environment: BlockEnvironment,
    solid_shape: bool,
    special_parts: Option<Vec<WeightedApplications>>,
) -> (outcome: (StateModels, bool))
    ensures
        is_state_outcome(
            outcome,
            identifier@,
            properties@,
            resolved,
            fallback,
            environment,
            solid_shape,
            special_parts,
        ),
        ({
            let (models, fell_back) = outcome;
            let source = match resolved {
                Some(own) => if own.parts@.len() > 0 {
                    own
                } else {
                    fallback
                },
                None => fallback,
            };
            let has_own = match resolved {
                Some(own) => own.parts@.len() > 0,
                None => false,
            };
            &&& fell_back == (!is_air_block(identifier@) && !has_own)
            &&& models.fluid == environment.fluid
            &&& models.fluid_surface_solid == (environment.fluid is None && solid_shape)
            &&& models.emissive == environment.emissive
            &&& models.model_offset == offset_of(path_of(identifier@))
            &&& match special_parts {
                Some(parts) => models.parts == parts && !models.full_opaque_cube,
                None => if is_air_block(identifier@) {
                    models.parts@.len() == 0 && !models.full_opaque_cube
                } else {
                    &&& parts_changed(
                        appearance_rule(path_of(identifier@), properties@),
                        false,
                        source.parts@,
                        models.parts@,
                    )
                    &&& models.full_opaque_cube == source.full_opaque_cube
                },
            }
        }),
{
    let (mut models, fell_back) = choose_models(is_air(identifier), resolved, fallback);
    apply_state_semantics(&mut models, identifier, properties, environment, solid_shape);
    match special_parts {
        Some(parts) => {
            models.parts = parts;
            models.full_opaque_cube = false;
        },
        None => {},
    }
    (models, fell_back)
}

/// An icon of a stack whose components change its looks: the key that it is kept
/// under, and the layers of its banner, or those that have to be looked up later.
#[derive(Debug)]
pub struct IconVariant {
    pub key: String,
    pub layers: Vec<BannerPatternLayer>,
    pub deferred: Option<DeferredBannerPatterns>,
}

/// The key of a stack: of its model, with the block state that it names and the
/// patterns of its banner.
pub open spec fn variant_key(
    model: Seq<char>,
    block_state: Option<Seq<(String, String)>>,
    banner: Option<Seq<u8>>,
) -> Seq<char> {
    let base = match block_state {
        Some(properties) => item_key(model, properties),
        None => model,
    };
    match banner {
        Some(bytes) => base + component_key("banner_patterns"@, bytes),
        None => base,
    }
}

pub open spec fn properties_view(properties: Option<&Vec<(String, String)>>) -> Option<
    Seq<(String, String)>,
> {
    match properties {
        Some(properties) => Some(properties@),
        None => None,
    }
}

/// What the components of a stack make of its icon.
pub fn icon_variant(
    model: &str,
    block_state: Option<&Vec<(String, String)>>,
    banner: Option<&[u8]>,
    registry: Option<&BannerPatternRegistry<'_>>,
) -> (result: Result<IconVariant, BlockResourceError>)
    ensures
        result matches Ok(variant) ==> variant.key@ == variant_key(
            model@,
            properties_view(block_state),
            bytes_view(banner),
        ),
        match banner {
            None => result matches Ok(variant) && variant.layers@.len() == 0
                && variant.deferred is None,
            Some(bytes) => match (component_layers(bytes@), registry) {
                (Err(failure), _) => result matches Err(error) && error@ == failure,
                (Ok(layers), None) => {
                    &&& result matches Ok(variant)
                    &&& variant.layers@.len() == 0
                    &&& variant.deferred matches Some(deferred)
                    &&& layer_views(deferred.layers@) == layers
                },
                (Ok(layers), Some(registry)) => if all_known(*registry, layers) {
                    &&& result matches Ok(variant)
                    &&& are_resolved(*registry, layers, variant.layers@)
                    &&& variant.deferred is None
                } else {
                    result matches Err(error) && error@ == component_failure(
                        "pattern registry ID is invalid"@,
                    )
                },
            },
        },
{
    let mut key: String = match block_state {
        Some(properties) => gui_item_render_key(model, properties),
        None => model.to_owned(),
    };
    match banner {
        None => Ok(IconVariant { key, layers: Vec::new(), deferred: None }),
        Some(bytes) => {
            append_component_key(&mut key, "banner_patterns", bytes);
            match decode_banner_pattern_layers(bytes, registry) {
                Ok(BannerPatternLayers::Resolved(layers)) => Ok(
                    IconVariant { key, layers, deferred: None },
                ),
                Ok(BannerPatternLayers::Deferred(deferred)) => Ok(
                    IconVariant { key, layers: Vec::new(), deferred: Some(deferred) },
                ),
                Err(error) => Err(error),
            }
        },
    }
}

/// How often each thing happened.
#[derive(Debug)]
pub struct Tally {
    pub counts: NameMap<usize>,
    pub total: usize,
}

pub open spec fn count_of(counts: Map<Seq<char>, usize>, name: Seq<char>) -> int {
    if counts.contains_key(name) {
        counts[name] as int
    } else {
        0
    }
}

impl Tally {
    /// Nothing happened more often than all things together.
    pub open spec fn well_formed(self) -> bool {
        &&& self.counts.well_formed()
        &&& forall|name: Seq<char>| #[trigger]
            self.counts@.contains_key(name) ==> self.counts@[name] <= self.total
    }

    pub fn new() -> (tally: Self)
        ensures
            tally.well_formed(),
            tally.counts@ == Map::<Seq<char>, usize>::empty(),
            tally.total == 0,
    {
        Tally { counts: NameMap::new(), total: 0 }
    }

    /// Counts a thing once more.
    pub fn record(&mut self, name: &str)
        requires
            old(self).well_formed(),
            old(self).total < usize::MAX,
        ensures
            final(self).well_formed(),
            final(self).total == old(self).total + 1,
            final(self).counts@ == old(self).counts@.insert(
                name@,
                (count_of(old(self).counts@, name@) + 1) as usize,
            ),
    {
        let count: usize = match self.counts.get(name) {
            Some(count) => *count,
            None => 0,
        };
        self.counts.insert(name.to_owned(), count + 1);
        self.total = self.total + 1;
    }
}

/// Coverage of the icons of items.
#[derive(Debug)]
pub struct ItemIconAudit {
    pub registered: usize,
    pub resolved: usize,
    /// Items that are shown by their name.
    pub fallback: usize,
    /// Icons that show a default state in place of a changing one.
    pub static_simplification: usize,
    pub missing_resource: usize,
    pub unsupported_model: usize,
    /// How often each class of renderer was taken.
    pub renderer_classes: Tally,
}

/// What became of the icon of an item.
#[derive(Clone, Copy, Debug, PartialEq, Eq, Structural)]
pub enum IconOutcome {
    Shown { simplified: bool },
    Transparent,
    MissingResource,
    Unsupported,
}

/// Whether any texel of an image shows.
pub open spec fn shows_anything(rgba: Seq<u8>) -> bool {
    exists|p: int| 0 <= p && p * 4 + 3 < rgba.len() && #[trigger] alpha(rgba, p) != 0
}

pub open spec fn alpha(rgba: Seq<u8>, p: int) -> u8 {
    rgba[p * 4 + 3]
}

fn any_alpha(rgba: &Vec<u8>) -> (yes: bool)
    ensures
        yes == shows_anything(rgba@),
{
    let length: usize = rgba.len();
    let mut at: usize = 0;
    let ghost mut p: int = 0;
    while at < length && 3 < length - at
        invariant
            length == rgba@.len(),
            at <= length,
            at == p * 4,
            0 <= p,
            forall|k: int| 0 <= k < p && k * 4 + 3 < rgba@.len() ==> #[trigger] alpha(rgba@, k) == 0,
        decreases length - at,
    {
        if rgba[at + 3] != 0 {
            assert(alpha(rgba@, p) != 0);
            return true;
        }
        at += 4;
        proof {
            p = p + 1;
        }
    }
    false
}

pub open spec fn outcome_of(
    icon: Result<GuiSpriteData, BlockResourceError>,
    simplified: bool,
) -> IconOutcome {
    match icon {
        Ok(sprite) => if shows_anything(sprite.rgba@) {
            IconOutcome::Shown { simplified }
        } else {
            IconOutcome::Transparent
        },
        Err(error) => if contains_text(failure_message(error@), "resource is missing"@) {
            IconOutcome::MissingResource
        } else {
            IconOutcome::Unsupported
        },
    }
}

/// What became of the icon of an item. `simplified` tells whether anything was
/// shown in a default state.
pub fn icon_outcome(icon: &Result<GuiSpriteData, BlockResourceError>, simplified: bool) -> (outcome:
    IconOutcome)
    ensures
        outcome == outcome_of(*icon, simplified),
{
    match icon {
        Ok(sprite) => if any_alpha(&sprite.rgba) {
            IconOutcome::Shown { simplified }
        } else {
            IconOutcome::Transparent
        },
        Err(error) => if mentions(error.message().as_str(), "resource is missing") {
            IconOutcome::MissingResource
        } else {
            IconOutcome::Unsupported
        },
    }
}

impl ItemIconAudit {
    /// Every item that was looked at was resolved or fell back, and every fallback
    /// has its reason.
    pub open spec fn well_formed(self) -> bool {
        &&& self.resolved + self.fallback <= self.registered
        &&& self.fallback == self.missing_resource + self.unsupported_model
        &&& self.static_simplification <= self.resolved
        &&& self.renderer_classes.well_formed()
    }

    pub fn new(registered: usize) -> (audit: Self)
        ensures
            audit.well_formed(),
            audit.registered == registered,
            audit.resolved == 0,
            audit.fallback == 0,
            audit.renderer_classes.counts@ == Map::<Seq<char>, usize>::empty(),
            audit.renderer_classes.total == 0,
    {
        ItemIconAudit {
            registered,
            resolved: 0,
            fallback: 0,
            static_simplification: 0,
            missing_resource: 0,
            unsupported_model: 0,
            renderer_classes: Tally::new(),
        }
    }

    /// Counts one of the registered items.
    pub fn record(&mut self, outcome: IconOutcome)
        requires
            old(self).well_formed(),
            old(self).resolved + old(self).fallback < old(self).registered,
        ensures
            final(self).well_formed(),
            final(self).registered == old(self).registered,
            final(self).renderer_classes == old(self).renderer_classes,
            final(self).resolved == old(self).resolved + (if outcome is Shown {
                1int
            } else {
                0
            }),
            final(self).static_simplification == old(self).static_simplification + (if outcome
                == (IconOutcome::Shown { simplified: true }) {
                1int
            } else {
                0
            }),
            final(self).missing_resource == old(self).missing_resource + (if outcome
                == IconOutcome::MissingResource {
                1int
            } else {
                0
            }),
            final(self).unsupported_model == old(self).unsupported_model + (if outcome
                == IconOutcome::Transparent || outcome == IconOutcome::Unsupported {
                1int
            } else {
                0
            }),
    {
        match outcome {
            IconOutcome::Shown { simplified } => {
                self.resolved = self.resolved + 1;
                if simplified {
                    self.static_simplification = self.static_simplification + 1;
                }
            },
            IconOutcome::Transparent => {
                self.fallback = self.fallback + 1;
                self.unsupported_model = self.unsupported_model + 1;
            },
            IconOutcome::MissingResource => {
                self.fallback = self.fallback + 1;
                self.missing_resource = self.missing_resource + 1;
            },
            IconOutcome::Unsupported => {
                self.fallback = self.fallback + 1;
                self.unsupported_model = self.unsupported_model + 1;
            },
        }
    }
}

/// How many of the first `n` outcomes are a given one.
pub open spec fn outcomes_like(outcomes: Seq<IconOutcome>, n: int, outcome: IconOutcome) -> int
    decreases n,
{
    if n <= 0 {
        0
    } else if outcomes[n - 1] == outcome {
        outcomes_like(outcomes, n - 1, outcome) + 1
    } else {
        outcomes_like(outcomes, n - 1, outcome)
    }
}

/// The audit counts the first `n` outcomes.
pub open spec fn counts_outcomes(audit: ItemIconAudit, outcomes: Seq<IconOutcome>, n: int) -> bool {
    &&& audit.resolved == outcomes_like(outcomes, n, IconOutcome::Shown { simplified: true })
        + outcomes_like(outcomes, n, IconOutcome::Shown { simplified: false })
    &&& audit.static_simplification == outcomes_like(
        outcomes,
        n,
        IconOutcome::Shown { simplified: true },
    )
    &&& audit.missing_resource == outcomes_like(outcomes, n, IconOutcome::MissingResource)
    &&& audit.unsupported_model == outcomes_like(outcomes, n, IconOutcome::Transparent)
        + outcomes_like(outcomes, n, IconOutcome::Unsupported)
}

/// Counts what became of the icons of all items. Every item was resolved or fell
/// back. No renderer is counted yet.
pub fn audit_of(outcomes: &Vec<IconOutcome>) -> (audit: ItemIconAudit)
    ensures
        audit.well_formed(),
        audit.registered == outcomes@.len(),
        audit.resolved + audit.fallback == audit.registered,
        counts_outcomes(audit, outcomes@, outcomes@.len() as int),
        audit.renderer_classes.counts@ == Map::<Seq<char>, usize>::empty(),
        audit.renderer_classes.total == 0,
{
    let mut audit: ItemIconAudit = ItemIconAudit::new(outcomes.len());
    let mut i: usize = 0;
    while i < outcomes.len()
        invariant
            i <= outcomes@.len(),
            audit.well_formed(),
            audit.registered == outcomes@.len(),
            audit.resolved + audit.fallback == i,
            counts_outcomes(audit, outcomes@, i as int),
            audit.renderer_classes.counts@ == Map::<Seq<char>, usize>::empty(),
            audit.renderer_classes.total == 0,
        decreases outcomes@.len() - i,
    {
        audit.record(outcomes[i]);
        i += 1;
    }
    audit
}

/// The prepared resources of a version.
#[derive(Debug)]
pub struct BlockResources {
    pub states: StateTable,
    pub atlas: TextureAtlasData,
    /// The atlas from which banners are drawn.
    pub banner_atlas: TextureAtlasData,
    pub blockstate_count: usize,
    pub model_count: usize,
    pub texture_count: usize,
    pub fallback_count: usize,
    pub crosshair: GuiSpriteData,
    pub destroy_stages: Vec<GuiSpriteData>,
    /// The images of the inventory and of the display, by their paths.
    pub inventory_sprites: NameMap<GuiSpriteData>,
    pub inventory_translations: Vec<(String, String)>,
    /// The icons of items for each scale of the interface, from one on.
    pub item_icons_by_scale: Vec<NameMap<GuiSpriteData>>,
    pub item_icon_audit: ItemIconAudit,
    /// Banner components whose patterns could not be looked up yet.
    pub deferred_banner_patterns: NameMap<DeferredBannerPatterns>,
    pub climate: ClimateColors,
}

impl BlockResources {
    /// Whether any banner component still has to be looked up.
    pub fn has_deferred_banner_patterns(&self) -> (yes: bool)
        ensures
            yes == (self.deferred_banner_patterns.entries@.len() > 0),
    {
        self.deferred_banner_patterns.entries.len() > 0
    }

    /// The models of a block state.
    pub fn state(&self, state: RuntimeBlockStateId) -> (models: &StateModels)
        ensures
            *models == self.states.models(state.0 as int),
    {
        self.states.state(state)
    }
}

/// The three kinds of air are air, and nothing else is.
pub proof fn lemma_air_is_of_three_kinds(identifier: Seq<char>)
    ensures
        is_air_block("minecraft:air"@),
        is_air_block("minecraft:cave_air"@),
        is_air_block("minecraft:void_air"@),
        is_air_block(identifier) ==> identifier == "minecraft:air"@ || identifier
            == "minecraft:cave_air"@ || identifier == "minecraft:void_air"@,
{
}

/// A block uses the texture of each face of each of its models, and the two textures of
/// the fluid in it.
pub proof fn lemma_blocks_use_the_textures_of_their_faces(
    states: Seq<StateModels>,
    s: int,
    i: int,
    j: int,
    k: int,
)
    requires
        0 <= s < states.len(),
        0 <= i < states[s].parts@.len(),
        0 <= j < states[s].parts@[i].entries@.len(),
        0 <= k < states[s].parts@[i].entries@[j].1.faces@.len(),
    ensures
        states_use(states, states[s].parts@[i].entries@[j].1.faces@[k].texture@),
{
    let name = states[s].parts@[i].entries@[j].1.faces@[k].texture@;
    assert(faces_use(states[s].parts@[i].entries@[j].1.faces@, name));
    assert(entries_use(states[s].parts@[i].entries@, name));
    assert(parts_use(states[s].parts@, name));
    assert(state_uses(states[s], name));
}

/// A block without models and fluid uses no texture. Water and lava use one for what is
/// still and one for what flows.
pub proof fn lemma_fluids_have_two_textures(fluid: FluidState, name: Seq<char>, state: StateModels)
    ensures
        fluid.kind is Water ==> (fluid_uses(Some(fluid), name) <==> name
            == "minecraft:block/water_still"@ || name == "minecraft:block/water_flow"@),
        fluid.kind is Lava ==> (fluid_uses(Some(fluid), name) <==> name
            == "minecraft:block/lava_still"@ || name == "minecraft:block/lava_flow"@),
        state.is_nothing() ==> !state_uses(state, name),
        state.fluid == Some(fluid) && fluid_uses(Some(fluid), name) ==> state_uses(state, name),
{
}

/// A texture that cannot be had is shown as missing, in one frame of sixteen by sixteen
/// pixels.
pub proof fn lemma_lost_textures_are_shown_as_missing(bytes: Seq<u8>)
    ensures
        present_or_missing(None).rgba == missing_pixels(),
        present_or_missing(None).width == 16 && present_or_missing(None).height == 16,
        present_or_missing(None).frames.len() == 1 && present_or_missing(None).frames[0]
            == missing_pixels(),
        !present_or_missing(None).cutout,
        decoded_texture(bytes) is Err ==> present_or_missing(Some(bytes)) == present_or_missing(
            None,
        ),
        decoded_texture(bytes) matches Ok(image) ==> present_or_missing(Some(bytes)) == image,
{
}

/// In an atlas of the missing texture alone this texture stands one pixel from the corner,
/// with its edge repeated around it, and nothing is beyond.
pub proof fn lemma_missing_texture_stands_in_the_corner(x: int, y: int, channel: int)
    requires
        0 <= x < 2048,
        0 <= y,
        0 <= channel < 4,
    ensures
        ({
            let shown = missing_byte((y * 2048 + x) * 4 + channel);
            &&& 1 <= x <= 16 && 1 <= y <= 16 ==> shown == missing_pixels()[((y - 1) * 16 + x - 1) * 4
                + channel]
            &&& x >= 18 || y >= 18 ==> shown == 0
            &&& x == 0 && 1 <= y <= 16 ==> shown == missing_pixels()[(y - 1) * 64 + channel]
            &&& y == 0 && 1 <= x <= 16 ==> shown == missing_pixels()[(x - 1) * 4 + channel]
            &&& x == 17 && 1 <= y <= 16 ==> shown == missing_pixels()[((y - 1) * 16 + 15) * 4
                + channel]
            &&& y == 17 && 1 <= x <= 16 ==> shown == missing_pixels()[(15 * 16 + x - 1) * 4
                + channel]
        }),
{
    let k = (y * 2048 + x) * 4 + channel;
    assert(k / 4 == y * 2048 + x);
    assert(k % 4 == channel);
    assert((y * 2048 + x) % 2048 == x);
    assert((y * 2048 + x) / 2048 == y);
}

/// An icon is known by its model, the properties that it names and the patterns of its
/// banner, the last as bytes in hexadecimal digits.
pub proof fn lemma_icons_are_known_by_what_they_show(
    model: Seq<char>,
    properties: Seq<(String, String)>,
    bytes: Seq<u8>,
)
    ensures
        variant_key(model, None, None) == model,
        variant_key(model, Some(properties), None) == item_key(model, properties),
        variant_key(model, None, Some(bytes)) == model + component_key("banner_patterns"@, bytes),
        variant_key(model, Some(properties), Some(bytes)) == item_key(model, properties)
            + component_key("banner_patterns"@, bytes),
{
}

/// An icon is shown where one of its pixels can be seen. One that cannot be drawn lacks a
/// resource where its failure says so, and is unsupported otherwise.
pub proof fn lemma_icons_are_shown_where_they_can_be_seen(
    icon: Result<GuiSpriteData, BlockResourceError>,
    simplified: bool,
)
    ensures
        icon matches Ok(sprite) ==> {
            let seen = exists|p: int|
                0 <= p && 4 * p + 3 < sprite.rgba@.len() && #[trigger] alpha(sprite.rgba@, p) != 0;
            &&& seen ==> outcome_of(icon, simplified) == (IconOutcome::Shown { simplified })
            &&& !seen ==> outcome_of(icon, simplified) == IconOutcome::Transparent
        },
        icon matches Err(error) ==> (outcome_of(icon, simplified) == IconOutcome::MissingResource
            <==> contains_text(failure_message(error@), "resource is missing"@)),
        icon is Err ==> outcome_of(icon, simplified) == IconOutcome::MissingResource || outcome_of(
            icon,
            simplified,
        ) == IconOutcome::Unsupported,
        forall|rgba: Seq<u8>, p: int| #[trigger] alpha(rgba, p) == rgba[4 * p + 3],
{
}

/// Outcomes of a kind are counted one by one.
pub proof fn lemma_outcomes_are_counted(outcomes: Seq<IconOutcome>, n: int, outcome: IconOutcome)
    requires
        0 <= n <= outcomes.len(),
    ensures
        outcomes_like(outcomes, n, outcome) == outcomes.take(n).filter(
            |other: IconOutcome| other == outcome,
        ).len(),
    decreases n,
{
    reveal(Seq::filter);
    let like = |other: IconOutcome| other == outcome;
    if n > 0 {
        lemma_outcomes_are_counted(outcomes, n - 1, outcome);
        assert(outcomes.take(n).drop_last() =~= outcomes.take(n - 1));
        assert(outcomes.take(n).last() == outcomes[n - 1]);
    } else {
        assert(outcomes.take(0).filter(like) =~= Seq::empty());
    }
}

/// Every icon is counted once: as resolved, as lacking a resource, or as unsupported.
pub proof fn lemma_every_icon_is_counted_once(
    audit: ItemIconAudit,
    outcomes: Seq<IconOutcome>,
    n: int,
)
    requires
        0 <= n <= outcomes.len(),
        counts_outcomes(audit, outcomes, n),
    ensures
        audit.resolved + audit.missing_resource + audit.unsupported_model == n,
        audit.static_simplification <= audit.resolved,
{
    lemma_outcomes_sum_up(outcomes, n);
}

proof fn lemma_outcomes_sum_up(outcomes: Seq<IconOutcome>, n: int)
    requires
        0 <= n <= outcomes.len(),
    ensures
        outcomes_like(outcomes, n, IconOutcome::Shown { simplified: true }) + outcomes_like(
            outcomes,
            n,
            IconOutcome::Shown { simplified: false },
        ) + outcomes_like(outcomes, n, IconOutcome::MissingResource) + outcomes_like(
            outcomes,
            n,
            IconOutcome::Transparent,
        ) + outcomes_like(outcomes, n, IconOutcome::Unsupported) == n,
        outcomes_like(outcomes, n, IconOutcome::Shown { simplified: false }) >= 0,
    decreases n,
{
    if n > 0 {
        lemma_outcomes_sum_up(outcomes, n - 1);
    }
}

/// A table of states holds each under its number and nothing anywhere else.
pub proof fn lemma_states_stand_under_their_number(
    table: Seq<Option<StateModels>>,
    states: Seq<(u32, StateModels)>,
    id: int,
)
    requires
        ids_ascend(states),
        is_indexed(table, states),
        0 <= id < table.len(),
    ensures
        table[id] is Some <==> exists|i: int| 0 <= i < states.len() && (#[trigger] states[i]).0 == id,
        forall|i: int|
            0 <= i < states.len() && (#[trigger] states[i]).0 == id ==> table[id] == Some(states[i].1),
{
    if has_id(states, id) {
        let i = choose|i: int| 0 <= i < states.len() && (#[trigger] states[i]).0 == id;
        assert(table[states[i].0 as int] == Some(states[i].1));
    }
}

/// A texture that was never counted was counted no time.
pub proof fn lemma_names_are_counted(counts: Map<Seq<char>, usize>, name: Seq<char>)
    ensures
        !counts.contains_key(name) ==> count_of(counts, name) == 0,
        counts.contains_key(name) ==> count_of(counts, name) == counts[name],
{
}

/// Air shows nothing and needs nothing to stand for it. Any other block shows its own
/// models where it has any, and what stands for them exactly where it has none.
pub proof fn lemma_blocks_show_their_own_models(
    chosen: (StateModels, bool),
    is_air: bool,
    resolved: Option<StateModels>,
    fallback: StateModels,
)
    requires
        is_choice(chosen, is_air, resolved, fallback),
    ensures
        is_air ==> chosen.0.parts@.len() == 0 && chosen.0.fluid is None,
        chosen.1 ==> !is_air && chosen.0 == fallback,
        !is_air && !chosen.1 ==> resolved == Some(chosen.0) && chosen.0.parts@.len() > 0,
        chosen.1 <==> !is_air && !(resolved matches Some(models) && models.parts@.len() > 0),
{
}

/// A block state has the fluid and the glow of its surroundings and the offset of its
/// block. Fluids end at it where it is solid and holds none itself. What is drawn by a
/// renderer of its own is drawn by nothing else and hides nothing.
pub proof fn lemma_states_are_what_is_known_of_them(
    outcome: (StateModels, bool),
    identifier: Seq<char>,
    properties: Seq<(String, String)>,
    resolved: Option<StateModels>,
    fallback: StateModels,
    environment: BlockEnvironment,
    solid_shape: bool,
    special_parts: Option<Vec<WeightedApplications>>,
)
    requires
        is_state_outcome(
            outcome,
            identifier,
            properties,
            resolved,
            fallback,
            environment,
            solid_shape,
            special_parts,
        ),
    ensures
        outcome.0.fluid == environment.fluid,
        outcome.0.emissive == environment.emissive,
        outcome.0.model_offset == offset_of(path_of(identifier)),
        outcome.0.fluid_surface_solid <==> solid_shape && environment.fluid is None,
        special_parts matches Some(parts) ==> outcome.0.parts == parts
            && !outcome.0.full_opaque_cube,
        special_parts is None && is_air_block(identifier) ==> outcome.0.parts@.len() == 0
            && !outcome.0.full_opaque_cube && !outcome.1,
        special_parts is None && !is_air_block(identifier) ==> {
            let own = resolved matches Some(models) && models.parts@.len() > 0;
            let shown = if own {
                resolved->Some_0
            } else {
                fallback
            };
            &&& outcome.1 <==> !own
            &&& outcome.0.full_opaque_cube == shown.full_opaque_cube
            &&& outcome.0.parts@.len() == shown.parts@.len()
            &&& parts_changed(
                appearance_rule(path_of(identifier), properties),
                false,
                shown.parts@,
                outcome.0.parts@,
            )
        },
{
}

} // verus!
