//! What the block states of version 26.1.2 look like: their layers, tints and
//! offsets, by block.

use crate::properties::{lookup, value_of};
use crate::resources::{ModelOffset, RenderLayer, TintKind};
use crate::text::{decimal, ends_with, has_suffix, parse_decimal, same_text};
use vstd::prelude::*;

verus! {

pub const TRANSLUCENT_BLOCKS: [&'static str; 6] = [
    "water",
    "glass",
    "glass_pane",
    "ice",
    "frosted_ice",
    "slime_block",
];

pub const TRANSLUCENT_SUFFIXES: [&'static str; 2] = ["_stained_glass", "_stained_glass_pane"];

pub const CUTOUT_SUFFIXES: [&'static str; 7] = [
    "_leaves",
    "_sapling",
    "_door",
    "_trapdoor",
    "_tulip",
    "_coral",
    "_coral_fan",
];

pub const CUTOUT_BLOCKS: [&'static str; 35] = [
    "short_grass",
    "tall_grass",
    "fern",
    "large_fern",
    "dead_bush",
    "dandelion",
    "poppy",
    "blue_orchid",
    "allium",
    "azure_bluet",
    "oxeye_daisy",
    "cornflower",
    "lily_of_the_valley",
    "wither_rose",
    "sugar_cane",
    "vine",
    "ladder",
    "fire",
    "soul_fire",
    "cobweb",
    "wheat",
    "carrots",
    "potatoes",
    "beetroots",
    "nether_wart",
    "leaf_litter",
    "melon_stem",
    "pumpkin_stem",
    "attached_melon_stem",
    "attached_pumpkin_stem",
    "seagrass",
    "tall_seagrass",
    "kelp",
    "kelp_plant",
    "scaffolding",
];

pub const GRASS_TINTED: [&'static str; 8] = [
    "grass_block",
    "short_grass",
    "tall_grass",
    "fern",
    "large_fern",
    "potted_fern",
    "bush",
    "sugar_cane",
];

pub const FOLIAGE_TINTED: [&'static str; 6] = [
    "oak_leaves",
    "jungle_leaves",
    "acacia_leaves",
    "dark_oak_leaves",
    "mangrove_leaves",
    "vine",
];

pub const WATER_TINTED: [&'static str; 3] = ["water", "bubble_column", "water_cauldron"];

/// Whether a name is one of a list.
pub open spec fn is_among(name: Seq<char>, names: Seq<&'static str>) -> bool {
    exists|i: int| 0 <= i < names.len() && (#[trigger] names[i])@ == name
}

/// Whether a name ends with one of a list of suffixes.
pub open spec fn ends_among(name: Seq<char>, suffixes: Seq<&'static str>) -> bool {
    exists|i: int| 0 <= i < suffixes.len() && has_suffix(name, (#[trigger] suffixes[i])@)
}

pub fn among(name: &str, names: &[&'static str]) -> (yes: bool)
    ensures
        yes == is_among(name@, names@),
{
    let mut i: usize = 0;
    while i < names.len()
        invariant
            i <= names@.len(),
            forall|k: int| 0 <= k < i ==> (#[trigger] names@[k])@ != name@,
        decreases names@.len() - i,
    {
        if same_text(names[i], name) {
            assert(names@[i as int]@ == name@);
            return true;
        }
        i += 1;
    }
    false
}

pub fn ends_with_one(name: &str, suffixes: &[&'static str]) -> (yes: bool)
    ensures
        yes == ends_among(name@, suffixes@),
{
    let mut i: usize = 0;
    while i < suffixes.len()
        invariant
            i <= suffixes@.len(),
            forall|k: int| 0 <= k < i ==> !has_suffix(name@, (#[trigger] suffixes@[k])@),
        decreases suffixes@.len() - i,
    {
        if ends_with(name, suffixes[i]) {
            assert(has_suffix(name@, suffixes@[i as int]@));
            return true;
        }
        i += 1;
    }
    false
}

/// How the plants of a block are moved in their cell.
pub open spec fn offset_of(path: Seq<char>) -> ModelOffset {
    if path == "short_grass"@ || path == "fern"@ {
        ModelOffset::Xyz
    } else if path == "tall_grass"@ || path == "large_fern"@ {
        ModelOffset::Xz
    } else {
        ModelOffset::Unmoved
    }
}

pub fn model_offset_26_1_2(path: &str) -> (offset: ModelOffset)
    ensures
        offset == offset_of(path@),
{
    if same_text(path, "short_grass") || same_text(path, "fern") {
        ModelOffset::Xyz
    } else if same_text(path, "tall_grass") || same_text(path, "large_fern") {
        ModelOffset::Xz
    } else {
        ModelOffset::Unmoved
    }
}

/// The layer of a block. The honey block is a shell around a second one, and
/// both show.
pub open spec fn layer_of(path: Seq<char>) -> RenderLayer {
    if path == "honey_block"@ {
        RenderLayer::LayeredTranslucent
    } else if is_among(path, TRANSLUCENT_BLOCKS@) || ends_among(path, TRANSLUCENT_SUFFIXES@) {
        RenderLayer::Translucent
    } else if ends_among(path, CUTOUT_SUFFIXES@) || is_among(path, CUTOUT_BLOCKS@) {
        RenderLayer::Cutout
    } else {
        RenderLayer::Opaque
    }
}

pub fn render_layer_26_1_2(path: &str) -> (layer: RenderLayer)
    ensures
        layer == layer_of(path@),
{
    if same_text(path, "honey_block") {
        RenderLayer::LayeredTranslucent
    } else if among(path, &TRANSLUCENT_BLOCKS) || ends_with_one(path, &TRANSLUCENT_SUFFIXES) {
        RenderLayer::Translucent
    } else if ends_with_one(path, &CUTOUT_SUFFIXES) || among(path, &CUTOUT_BLOCKS) {
        RenderLayer::Cutout
    } else {
        RenderLayer::Opaque
    }
}

/// How far a stem has grown, from 0 to 7.
pub open spec fn stem_age(properties: Seq<(String, String)>) -> int {
    match value_of(properties, "age"@) {
        Some(value) => match decimal(value, u32::MAX as int) {
            Some(age) => if age < 7 {
                age
            } else {
                7
            },
            None => 0,
        },
        None => 0,
    }
}

/// A stem turns from green to orange as it grows.
pub open spec fn stem_color(age: int) -> int {
    age * 32 * 0x1_0000 + (255 - age * 8) * 0x100 + age * 4
}

/// How the faces of a block with a tint index are coloured.
pub open spec fn tint_of(
    path: Seq<char>,
    properties: Seq<(String, String)>,
    tint_index: u32,
) -> TintKind {
    if tint_index > 1 {
        TintKind::Untinted
    } else if is_among(path, GRASS_TINTED@) {
        TintKind::Grass
    } else if path == "spruce_leaves"@ {
        TintKind::Fixed(0x619961)
    } else if path == "birch_leaves"@ {
        TintKind::Fixed(0x80a755)
    } else if is_among(path, FOLIAGE_TINTED@) {
        TintKind::Foliage
    } else if path == "leaf_litter"@ {
        TintKind::DryFoliage
    } else if is_among(path, WATER_TINTED@) {
        TintKind::Water
    } else if path == "attached_melon_stem"@ || path == "attached_pumpkin_stem"@ {
        TintKind::Fixed(0xe0c71c)
    } else if path == "melon_stem"@ || path == "pumpkin_stem"@ {
        TintKind::Fixed(stem_color(stem_age(properties)) as u32)
    } else if (path == "pink_petals"@ || path == "wildflowers"@) && tint_index == 1 {
        TintKind::Grass
    } else if path == "lily_pad"@ {
        if tint_index == 0 {
            TintKind::Fixed(0x71c35c)
        } else {
            TintKind::Fixed(0x207f38)
        }
    } else {
        TintKind::Untinted
    }
}

fn stem_tint(properties: &Vec<(String, String)>) -> (color: u32)
    ensures
        color == stem_color(stem_age(properties@)),
{
    let mut age: u32 = match lookup(properties, "age") {
        Some(value) => match parse_decimal(value, u32::MAX) {
            Some(age) => age,
            None => 0,
        },
        None => 0,
    };
    if age > 7 {
        age = 7;
    }
    (age * 32) * 0x1_0000 + (255 - age * 8) * 0x100 + age * 4
}

/// How the faces of a block with a tint index are coloured.
pub fn tint_kind_26_1_2(
    path: &str,
    properties: &Vec<(String, String)>,
    tint_index: u32,
) -> (kind: TintKind)
    ensures
        kind == tint_of(path@, properties@, tint_index),
{
    if tint_index > 1 {
        TintKind::Untinted
    } else if among(path, &GRASS_TINTED) {
        TintKind::Grass
    } else if same_text(path, "spruce_leaves") {
        TintKind::Fixed(0x619961)
    } else if same_text(path, "birch_leaves") {
        TintKind::Fixed(0x80a755)
    } else if among(path, &FOLIAGE_TINTED) {
        TintKind::Foliage
    } else if same_text(path, "leaf_litter") {
        TintKind::DryFoliage
    } else if among(path, &WATER_TINTED) {
        TintKind::Water
    } else if same_text(path, "attached_melon_stem") || same_text(path, "attached_pumpkin_stem") {
        TintKind::Fixed(0xe0c71c)
    } else if same_text(path, "melon_stem") || same_text(path, "pumpkin_stem") {
        TintKind::Fixed(stem_tint(properties))
    } else if (same_text(path, "pink_petals") || same_text(path, "wildflowers")) && tint_index == 1 {
        TintKind::Grass
    } else if same_text(path, "lily_pad") {
        if tint_index == 0 {
            TintKind::Fixed(0x71c35c)
        } else {
            TintKind::Fixed(0x207f38)
        }
    } else {
        TintKind::Untinted
    }
}

/// A tint that is a fixed colour has no alpha.
pub proof fn lemma_fixed_tint_is_a_color(
    path: Seq<char>,
    properties: Seq<(String, String)>,
    tint_index: u32,
)
    ensures
        tint_of(path, properties, tint_index) matches TintKind::Fixed(color) ==> color <= 0xff_ffff,
{
    let age = stem_age(properties);
    assert(0 <= age <= 7) by {
        match value_of(properties, "age"@) {
            Some(value) => {
                crate::text::lemma_decimal_bounds(value, u32::MAX as int);
            },
            None => {},
        }
    }
}

/// Water, glass, ice and slime are seen through.
pub proof fn lemma_translucent_blocks(name: Seq<char>)
    ensures
        is_among(name, TRANSLUCENT_BLOCKS@) <==> name == "water"@ || name == "glass"@ || name == "glass_pane"@ || name == "ice"@ || name == "frosted_ice"@ || name == "slime_block"@,
{
    let names = TRANSLUCENT_BLOCKS@;
    assert(names[0]@ == "water"@ && names[1]@ == "glass"@ && names[2]@ == "glass_pane"@ && names[3]@ == "ice"@ && names[4]@ == "frosted_ice"@ && names[5]@ == "slime_block"@);
    if is_among(name, names) {
        let i = choose|i: int| 0 <= i < names.len() && (#[trigger] names[i])@ == name;
        assert(i == 0 || i == 1 || i == 2 || i == 3 || i == 4 || i == 5);
    }
}

/// Stained glass of every colour is seen through.
pub proof fn lemma_translucent_families(name: Seq<char>)
    ensures
        ends_among(name, TRANSLUCENT_SUFFIXES@) <==> has_suffix(name, "_stained_glass"@) || has_suffix(name, "_stained_glass_pane"@),
{
    let names = TRANSLUCENT_SUFFIXES@;
    assert(names[0]@ == "_stained_glass"@ && names[1]@ == "_stained_glass_pane"@);
    if ends_among(name, names) {
        let i = choose|i: int| 0 <= i < names.len() && has_suffix(name, (#[trigger] names[i])@);
        assert(i == 0 || i == 1);
    }
}

/// Leaves, saplings, doors, tulips and corals of every kind have holes.
pub proof fn lemma_cutout_families(name: Seq<char>)
    ensures
        ends_among(name, CUTOUT_SUFFIXES@) <==> has_suffix(name, "_leaves"@) || has_suffix(name, "_sapling"@) || has_suffix(name, "_door"@) || has_suffix(name, "_trapdoor"@) || has_suffix(name, "_tulip"@) || has_suffix(name, "_coral"@) || has_suffix(name, "_coral_fan"@),
{
    let names = CUTOUT_SUFFIXES@;
    assert(names[0]@ == "_leaves"@ && names[1]@ == "_sapling"@ && names[2]@ == "_door"@ && names[3]@ == "_trapdoor"@ && names[4]@ == "_tulip"@ && names[5]@ == "_coral"@ && names[6]@ == "_coral_fan"@);
    if ends_among(name, names) {
        let i = choose|i: int| 0 <= i < names.len() && has_suffix(name, (#[trigger] names[i])@);
        assert(i == 0 || i == 1 || i == 2 || i == 3 || i == 4 || i == 5 || i == 6);
    }
}

/// The plants and the other blocks that have holes.
pub proof fn lemma_cutout_blocks(name: Seq<char>)
    ensures
        is_among(name, CUTOUT_BLOCKS@) <==> name == "short_grass"@ || name == "tall_grass"@ || name == "fern"@ || name == "large_fern"@ || name == "dead_bush"@ || name == "dandelion"@ || name == "poppy"@ || name == "blue_orchid"@ || name == "allium"@ || name == "azure_bluet"@ || name == "oxeye_daisy"@ || name == "cornflower"@ || name == "lily_of_the_valley"@ || name == "wither_rose"@ || name == "sugar_cane"@ || name == "vine"@ || name == "ladder"@ || name == "fire"@ || name == "soul_fire"@ || name == "cobweb"@ || name == "wheat"@ || name == "carrots"@ || name == "potatoes"@ || name == "beetroots"@ || name == "nether_wart"@ || name == "leaf_litter"@ || name == "melon_stem"@ || name == "pumpkin_stem"@ || name == "attached_melon_stem"@ || name == "attached_pumpkin_stem"@ || name == "seagrass"@ || name == "tall_seagrass"@ || name == "kelp"@ || name == "kelp_plant"@ || name == "scaffolding"@,
{
    let names = CUTOUT_BLOCKS@;
    assert(names[0]@ == "short_grass"@ && names[1]@ == "tall_grass"@ && names[2]@ == "fern"@ && names[3]@ == "large_fern"@ && names[4]@ == "dead_bush"@ && names[5]@ == "dandelion"@ && names[6]@ == "poppy"@ && names[7]@ == "blue_orchid"@ && names[8]@ == "allium"@ && names[9]@ == "azure_bluet"@ && names[10]@ == "oxeye_daisy"@ && names[11]@ == "cornflower"@ && names[12]@ == "lily_of_the_valley"@ && names[13]@ == "wither_rose"@ && names[14]@ == "sugar_cane"@ && names[15]@ == "vine"@ && names[16]@ == "ladder"@ && names[17]@ == "fire"@ && names[18]@ == "soul_fire"@ && names[19]@ == "cobweb"@ && names[20]@ == "wheat"@ && names[21]@ == "carrots"@ && names[22]@ == "potatoes"@ && names[23]@ == "beetroots"@ && names[24]@ == "nether_wart"@ && names[25]@ == "leaf_litter"@ && names[26]@ == "melon_stem"@ && names[27]@ == "pumpkin_stem"@ && names[28]@ == "attached_melon_stem"@ && names[29]@ == "attached_pumpkin_stem"@ && names[30]@ == "seagrass"@ && names[31]@ == "tall_seagrass"@ && names[32]@ == "kelp"@ && names[33]@ == "kelp_plant"@ && names[34]@ == "scaffolding"@);
    if is_among(name, names) {
        let i = choose|i: int| 0 <= i < names.len() && (#[trigger] names[i])@ == name;
        assert(i == 0 || i == 1 || i == 2 || i == 3 || i == 4 || i == 5 || i == 6 || i == 7 || i == 8 || i == 9 || i == 10 || i == 11 || i == 12 || i == 13 || i == 14 || i == 15 || i == 16 || i == 17 || i == 18 || i == 19 || i == 20 || i == 21 || i == 22 || i == 23 || i == 24 || i == 25 || i == 26 || i == 27 || i == 28 || i == 29 || i == 30 || i == 31 || i == 32 || i == 33 || i == 34);
    }
}

/// The blocks that have the colour of grass.
pub proof fn lemma_grass_tinted_blocks(name: Seq<char>)
    ensures
        is_among(name, GRASS_TINTED@) <==> name == "grass_block"@ || name == "short_grass"@ || name == "tall_grass"@ || name == "fern"@ || name == "large_fern"@ || name == "potted_fern"@ || name == "bush"@ || name == "sugar_cane"@,
{
    let names = GRASS_TINTED@;
    assert(names[0]@ == "grass_block"@ && names[1]@ == "short_grass"@ && names[2]@ == "tall_grass"@ && names[3]@ == "fern"@ && names[4]@ == "large_fern"@ && names[5]@ == "potted_fern"@ && names[6]@ == "bush"@ && names[7]@ == "sugar_cane"@);
    if is_among(name, names) {
        let i = choose|i: int| 0 <= i < names.len() && (#[trigger] names[i])@ == name;
        assert(i == 0 || i == 1 || i == 2 || i == 3 || i == 4 || i == 5 || i == 6 || i == 7);
    }
}

/// The blocks that have the colour of foliage.
pub proof fn lemma_foliage_tinted_blocks(name: Seq<char>)
    ensures
        is_among(name, FOLIAGE_TINTED@) <==> name == "oak_leaves"@ || name == "jungle_leaves"@ || name == "acacia_leaves"@ || name == "dark_oak_leaves"@ || name == "mangrove_leaves"@ || name == "vine"@,
{
    let names = FOLIAGE_TINTED@;
    assert(names[0]@ == "oak_leaves"@ && names[1]@ == "jungle_leaves"@ && names[2]@ == "acacia_leaves"@ && names[3]@ == "dark_oak_leaves"@ && names[4]@ == "mangrove_leaves"@ && names[5]@ == "vine"@);
    if is_among(name, names) {
        let i = choose|i: int| 0 <= i < names.len() && (#[trigger] names[i])@ == name;
        assert(i == 0 || i == 1 || i == 2 || i == 3 || i == 4 || i == 5);
    }
}

/// The blocks that have the colour of water.
pub proof fn lemma_water_tinted_blocks(name: Seq<char>)
    ensures
        is_among(name, WATER_TINTED@) <==> name == "water"@ || name == "bubble_column"@ || name == "water_cauldron"@,
{
    let names = WATER_TINTED@;
    assert(names[0]@ == "water"@ && names[1]@ == "bubble_column"@ && names[2]@ == "water_cauldron"@);
    if is_among(name, names) {
        let i = choose|i: int| 0 <= i < names.len() && (#[trigger] names[i])@ == name;
        assert(i == 0 || i == 1 || i == 2);
    }
}

/// Short grass and ferns are moved in all directions, tall ones in the plane alone, and
/// nothing else is moved.
pub proof fn lemma_plants_are_moved(path: Seq<char>)
    ensures
        offset_of(path) == ModelOffset::Xyz <==> path == "short_grass"@ || path == "fern"@,
        offset_of(path) == ModelOffset::Xz <==> path == "tall_grass"@ || path == "large_fern"@,
{
    reveal_strlit("short_grass");
    reveal_strlit("fern");
    reveal_strlit("tall_grass");
    reveal_strlit("large_fern");
    assert("short_grass"@.len() == 11 && "fern"@.len() == 4 && "tall_grass"@.len() == 10
        && "large_fern"@.len() == 10);
}

/// What is seen through is drawn as such even where it has holes, honey in a layer of its
/// own, and what is in no list is opaque.
pub proof fn lemma_translucency_comes_first(path: Seq<char>)
    ensures
        layer_of(path) is LayeredTranslucent <==> path == "honey_block"@,
        path != "honey_block"@ ==> {
            let clear = is_among(path, TRANSLUCENT_BLOCKS@) || ends_among(
                path,
                TRANSLUCENT_SUFFIXES@,
            );
            let holed = is_among(path, CUTOUT_BLOCKS@) || ends_among(path, CUTOUT_SUFFIXES@);
            &&& layer_of(path) is Translucent <==> clear
            &&& layer_of(path) is Cutout <==> holed && !clear
            &&& layer_of(path) is Opaque <==> !holed && !clear
        },
{
}

/// The leaves of spruce and birch have colours of their own, so have stems that carry a
/// fruit and lilies, and a growing stem has that of its age. Only the first two tints of
/// a model are used.
pub proof fn lemma_blocks_have_their_tints(
    path: Seq<char>,
    properties: Seq<(String, String)>,
    tint_index: u32,
)
    ensures
        tint_index > 1 ==> tint_of(path, properties, tint_index) is Untinted,
        tint_index <= 1 && is_among(path, GRASS_TINTED@) ==> tint_of(path, properties, tint_index)
            is Grass,
        tint_index <= 1 && path == "spruce_leaves"@ ==> tint_of(path, properties, tint_index)
            == TintKind::Fixed(0x619961),
        tint_index <= 1 && path == "birch_leaves"@ ==> tint_of(path, properties, tint_index)
            == TintKind::Fixed(0x80a755),
        tint_index <= 1 && path == "leaf_litter"@ ==> tint_of(path, properties, tint_index)
            is DryFoliage,
        tint_index <= 1 && (path == "attached_melon_stem"@ || path == "attached_pumpkin_stem"@)
            ==> tint_of(path, properties, tint_index) == TintKind::Fixed(0xe0c71c),
        tint_index <= 1 && (path == "melon_stem"@ || path == "pumpkin_stem"@) ==> tint_of(
            path,
            properties,
            tint_index,
        ) == TintKind::Fixed(stem_color(stem_age(properties)) as u32),
        path == "pink_petals"@ || path == "wildflowers"@ ==> (tint_of(path, properties, tint_index)
            is Grass <==> tint_index == 1),
        path == "lily_pad"@ ==> tint_of(path, properties, 0) == TintKind::Fixed(0x71c35c)
            && tint_of(path, properties, 1) == TintKind::Fixed(0x207f38),
{
    lemma_grass_tinted_blocks(path);
    lemma_foliage_tinted_blocks(path);
    lemma_water_tinted_blocks(path);
    reveal_strlit("grass_block");
    reveal_strlit("short_grass");
    reveal_strlit("tall_grass");
    reveal_strlit("fern");
    reveal_strlit("large_fern");
    reveal_strlit("potted_fern");
    reveal_strlit("bush");
    reveal_strlit("sugar_cane");
    reveal_strlit("oak_leaves");
    reveal_strlit("jungle_leaves");
    reveal_strlit("acacia_leaves");
    reveal_strlit("dark_oak_leaves");
    reveal_strlit("mangrove_leaves");
    reveal_strlit("vine");
    reveal_strlit("water");
    reveal_strlit("bubble_column");
    reveal_strlit("water_cauldron");
    reveal_strlit("spruce_leaves");
    reveal_strlit("birch_leaves");
    reveal_strlit("leaf_litter");
    reveal_strlit("attached_melon_stem");
    reveal_strlit("attached_pumpkin_stem");
    reveal_strlit("melon_stem");
    reveal_strlit("pumpkin_stem");
    reveal_strlit("pink_petals");
    reveal_strlit("wildflowers");
    reveal_strlit("lily_pad");
    assert("grass_block"@.len() == 11 && "short_grass"@.len() == 11 && "tall_grass"@.len() == 10
        && "fern"@.len() == 4 && "large_fern"@.len() == 10 && "potted_fern"@.len() == 11
        && "bush"@.len() == 4 && "sugar_cane"@.len() == 10 && "oak_leaves"@.len() == 10
        && "jungle_leaves"@.len() == 13 && "acacia_leaves"@.len() == 13 && "dark_oak_leaves"@.len()
        == 15 && "mangrove_leaves"@.len() == 15 && "vine"@.len() == 4 && "water"@.len() == 5
        && "bubble_column"@.len() == 13 && "water_cauldron"@.len() == 14);
    assert("spruce_leaves"@.len() == 13 && "birch_leaves"@.len() == 12 && "leaf_litter"@.len() == 11
        && "attached_melon_stem"@.len() == 19 && "attached_pumpkin_stem"@.len() == 21
        && "melon_stem"@.len() == 10 && "pumpkin_stem"@.len() == 12 && "pink_petals"@.len() == 11
        && "wildflowers"@.len() == 11 && "lily_pad"@.len() == 8);
    assert("grass_block"@[0] == 'g' && "short_grass"@[0] == 's' && "potted_fern"@[0] == 'p'
        && "potted_fern"@[1] == 'o' && "pink_petals"@[0] == 'p' && "pink_petals"@[1] == 'i'
        && "wildflowers"@[0] == 'w' && "leaf_litter"@[0] == 'l');
    assert("tall_grass"@[0] == 't' && "large_fern"@[0] == 'l' && "sugar_cane"@[0] == 's'
        && "oak_leaves"@[0] == 'o' && "melon_stem"@[0] == 'm');
    assert("birch_leaves"@[0] == 'b' && "pumpkin_stem"@[0] == 'p');
    assert("spruce_leaves"@[0] == 's' && "jungle_leaves"@[0] == 'j' && "acacia_leaves"@[0] == 'a'
        && "bubble_column"@[0] == 'b');
}

/// A stem grows from green to yellow: with each of its seven ages it has 32 more of red, 8
/// less of green and 4 more of blue.
pub proof fn lemma_stems_turn_yellow(age: int)
    requires
        0 <= age < 7,
    ensures
        stem_color(0) == 0x00ff00,
        stem_color(age + 1) - stem_color(age) == 32 * 0x1_0000 - 8 * 0x100 + 4,
        0 <= stem_color(age) <= 0xff_ffff && 0 <= stem_color(age + 1) <= 0xff_ffff,
{
}

/// A stem has the age that it says it has, at most seven, and none where it says nothing
/// that is a number.
pub proof fn lemma_stems_have_their_age(properties: Seq<(String, String)>)
    ensures
        0 <= stem_age(properties) <= 7,
        value_of(properties, "age"@) is None ==> stem_age(properties) == 0,
        value_of(properties, "age"@) matches Some(text) ==> {
            &&& decimal(text, 0xffff_ffff) is None ==> stem_age(properties) == 0
            &&& decimal(text, 0xffff_ffff) matches Some(age) ==> {
                &&& age <= 7 ==> stem_age(properties) == age
                &&& age > 7 ==> stem_age(properties) == 7
            }
        },
{
    if let Some(text) = value_of(properties, "age"@) {
        crate::text::lemma_numbers_are_within_their_limit(text, 0xffff_ffff);
    }
}

} // verus!
