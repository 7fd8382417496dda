//! Blocks that are drawn by renderers of their own.

use crate::direction::{direction_named, opposite_direction, opposite_name};
use crate::identifiers::{identifier_path, path_of, strip_suffix};
use crate::properties::{lookup, value_of};
use crate::resources::{ModelApplication, ModelFace, TintKind, WeightedApplications};
use crate::semantics::{among, is_among};
use crate::special::{lemma_families_differ, special_tint, SpecialItemModel, SpecialModel};
use crate::text::{
    contains_text, decimal, ends_with, has_suffix, mentions, parse_decimal, same_text,
};
use vstd::prelude::*;

verus! {

pub const HEAD_BLOCKS: [&'static str; 14] = [
    "skeleton_skull",
    "skeleton_wall_skull",
    "wither_skeleton_skull",
    "wither_skeleton_wall_skull",
    "zombie_head",
    "zombie_wall_head",
    "creeper_head",
    "creeper_wall_head",
    "piglin_head",
    "piglin_wall_head",
    "dragon_head",
    "dragon_wall_head",
    "player_head",
    "player_wall_head",
];

/// The colour that a block is named for; white where it is named for none.
pub open spec fn color_before(path: Seq<char>, suffix: Seq<char>) -> Seq<char> {
    if has_suffix(path, suffix) {
        path.subrange(0, path.len() - suffix.len())
    } else {
        "white"@
    }
}

pub open spec fn is_chest(path: Seq<char>) -> bool {
    path == "chest"@ || path == "trapped_chest"@ || path == "ender_chest"@ || has_suffix(
        path,
        "copper_chest"@,
    )
}

/// How far copper is weathered.
pub open spec fn weathering(path: Seq<char>) -> Seq<char> {
    if contains_text(path, "oxidized"@) {
        "_oxidized"@
    } else if contains_text(path, "weathered"@) {
        "_weathered"@
    } else if contains_text(path, "exposed"@) {
        "_exposed"@
    } else {
        ""@
    }
}

pub open spec fn chest_material(path: Seq<char>) -> Seq<char> {
    if path == "trapped_chest"@ {
        "trapped"@
    } else if path == "ender_chest"@ {
        "ender"@
    } else if has_suffix(path, "copper_chest"@) {
        "copper"@ + weathering(path)
    } else {
        "normal"@
    }
}

/// Which half of a double chest a chest is.
pub open spec fn chest_half(properties: Seq<(String, String)>) -> Seq<char> {
    match value_of(properties, "type"@) {
        Some(kind) => if kind == "left"@ || kind == "right"@ {
            "_"@ + kind
        } else {
            ""@
        },
        None => ""@,
    }
}

/// The texture of a shulker box: in its colour, or plain.
pub open spec fn shulker_texture(path: Seq<char>) -> Seq<char> {
    if has_suffix(path, "_shulker_box"@) && path.len() > "_shulker_box"@.len() {
        "shulker_"@ + color_before(path, "_shulker_box"@)
    } else {
        "shulker"@
    }
}

pub open spec fn head_kind(path: Seq<char>) -> Seq<char> {
    if contains_text(path, "wither_skeleton"@) {
        "wither_skeleton"@
    } else if contains_text(path, "skeleton"@) {
        "skeleton"@
    } else if contains_text(path, "zombie"@) {
        "zombie"@
    } else if contains_text(path, "creeper"@) {
        "creeper"@
    } else if contains_text(path, "piglin"@) {
        "piglin"@
    } else if contains_text(path, "dragon"@) {
        "dragon"@
    } else {
        "player"@
    }
}

pub open spec fn plain_special(family: Seq<char>) -> SpecialModel {
    SpecialModel { family, texture: None, variant: None, part: None }
}

/// The renderer of a block, where it has one of its own.
pub open spec fn block_renderer(path: Seq<char>, properties: Seq<(String, String)>) -> Option<
    SpecialModel,
> {
    if has_suffix(path, "_bed"@) {
        Some(
            SpecialModel {
                texture: Some("minecraft:"@ + color_before(path, "_bed"@)),
                part: value_of(properties, "part"@),
                ..plain_special("minecraft:bed"@)
            },
        )
    } else if has_suffix(path, "_wall_banner"@) {
        Some(
            SpecialModel {
                variant: Some(color_before(path, "_wall_banner"@)),
                part: Some("wall"@),
                ..plain_special("minecraft:banner"@)
            },
        )
    } else if has_suffix(path, "_banner"@) {
        Some(
            SpecialModel {
                variant: Some(color_before(path, "_banner"@)),
                ..plain_special("minecraft:banner"@)
            },
        )
    } else if is_chest(path) {
        Some(
            SpecialModel {
                texture: Some("minecraft:"@ + chest_material(path) + chest_half(properties)),
                part: value_of(properties, "type"@),
                ..plain_special("minecraft:chest"@)
            },
        )
    } else if path == "shulker_box"@ || has_suffix(path, "_shulker_box"@) {
        Some(
            SpecialModel {
                texture: Some("minecraft:"@ + shulker_texture(path)),
                ..plain_special("minecraft:shulker_box"@)
            },
        )
    } else if path == "decorated_pot"@ {
        Some(plain_special("minecraft:decorated_pot"@))
    } else if contains_text(path, "copper_golem_statue"@) {
        Some(
            SpecialModel {
                texture: Some(
                    "minecraft:textures/entity/copper_golem/copper_golem"@ + weathering(path)
                        + ".png"@,
                ),
                variant: value_of(properties, "copper_golem_pose"@),
                ..plain_special("minecraft:copper_golem_statue"@)
            },
        )
    } else if path == "conduit"@ {
        Some(plain_special("minecraft:conduit"@))
    } else if is_among(path, HEAD_BLOCKS@) {
        Some(
            SpecialModel {
                variant: Some(head_kind(path)),
                ..plain_special(
                    if head_kind(path) == "player"@ {
                        "minecraft:player_head"@
                    } else {
                        "minecraft:head"@
                    },
                )
            },
        )
    } else {
        None
    }
}

fn plain(family: &str) -> (special: SpecialItemModel)
    ensures
        special@ == plain_special(family@),
{
    SpecialItemModel { family: family.to_owned(), texture: None, variant: None, part: None }
}

fn two(a: &str, b: &str) -> (text: String)
    ensures
        text@ == a@ + b@,
{
    let mut text: String = String::new();
    text.push_str(a);
    text.push_str(b);
    assert(text@ =~= a@ + b@);
    text
}

fn property(properties: &Vec<(String, String)>, name: &str) -> (value: Option<String>)
    ensures
        crate::special::string_view(value) == value_of(properties@, name@),
{
    match lookup(properties, name) {
        Some(value) => Some(value.to_owned()),
        None => None,
    }
}

fn color_of<'a>(path: &'a str, suffix: &str) -> (color: &'a str)
    requires
        has_suffix(path@, suffix@),
    ensures
        color@ == color_before(path@, suffix@),
{
    strip_suffix(path, suffix)
}

fn copper_state(path: &str) -> (state: &'static str)
    ensures
        state@ == weathering(path@),
{
    if mentions(path, "oxidized") {
        "_oxidized"
    } else if mentions(path, "weathered") {
        "_weathered"
    } else if mentions(path, "exposed") {
        "_exposed"
    } else {
        ""
    }
}

fn chest_texture(path: &str, properties: &Vec<(String, String)>) -> (texture: String)
    ensures
        texture@ == "minecraft:"@ + chest_material(path@) + chest_half(properties@),
{
    let mut texture: String = String::new();
    texture.push_str("minecraft:");
    if same_text(path, "trapped_chest") {
        texture.push_str("trapped");
    } else if same_text(path, "ender_chest") {
        texture.push_str("ender");
    } else if ends_with(path, "copper_chest") {
        texture.push_str("copper");
        texture.push_str(copper_state(path));
    } else {
        texture.push_str("normal");
    }
    assert(texture@ =~= "minecraft:"@ + chest_material(path@));
    match lookup(properties, "type") {
        Some(kind) => {
            if same_text(kind, "left") || same_text(kind, "right") {
                texture.push_str("_");
                texture.push_str(kind);
                assert(texture@ =~= "minecraft:"@ + chest_material(path@) + ("_"@ + kind@));
            } else {
                proof {
                    reveal_strlit("");
                }
                assert(texture@ =~= "minecraft:"@ + chest_material(path@) + ""@);
            }
        },
        None => {
            proof {
                reveal_strlit("");
            }
            assert(texture@ =~= "minecraft:"@ + chest_material(path@) + ""@);
        },
    }
    texture
}

fn read_head_kind(path: &str) -> (kind: &'static str)
    ensures
        kind@ == head_kind(path@),
{
    if mentions(path, "wither_skeleton") {
        "wither_skeleton"
    } else if mentions(path, "skeleton") {
        "skeleton"
    } else if mentions(path, "zombie") {
        "zombie"
    } else if mentions(path, "creeper") {
        "creeper"
    } else if mentions(path, "piglin") {
        "piglin"
    } else if mentions(path, "dragon") {
        "dragon"
    } else {
        "player"
    }
}

fn shulker_sprite(path: &str) -> (texture: String)
    ensures
        texture@ == "minecraft:"@ + shulker_texture(path@),
{
    let mut texture: String = String::new();
    texture.push_str("minecraft:");
    if ends_with(path, "_shulker_box") {
        let color: &str = strip_suffix(path, "_shulker_box");
        if !color.is_empty() {
            texture.push_str("shulker_");
            texture.push_str(color);
            assert(texture@ =~= "minecraft:"@ + shulker_texture(path@));
            return texture;
        }
        assert(path@.len() == "_shulker_box"@.len());
    }
    texture.push_str("shulker");
    assert(texture@ =~= "minecraft:"@ + shulker_texture(path@));
    texture
}

/// The renderer of a block, where it has one of its own.
#[verifier::rlimit(30)]
pub fn special_world_model(identifier: &str, properties: &Vec<(String, String)>) -> (special: Option<
    SpecialItemModel,
>)
    ensures
        match (special, block_renderer(path_of(identifier@), properties@)) {
            (Some(special), Some(model)) => special@ == model,
            (None, None) => true,
            _ => false,
        },
{
    let path: &str = identifier_path(identifier);
    if ends_with(path, "_bed") {
        return Some(
            SpecialItemModel {
                family: "minecraft:bed".to_owned(),
                texture: Some(two("minecraft:", color_of(path, "_bed"))),
                variant: None,
                part: property(properties, "part"),
            },
        );
    }
    if ends_with(path, "_wall_banner") {
        return Some(
            SpecialItemModel {
                family: "minecraft:banner".to_owned(),
                texture: None,
                variant: Some(color_of(path, "_wall_banner").to_owned()),
                part: Some("wall".to_owned()),
            },
        );
    }
    if ends_with(path, "_banner") {
        return Some(
            SpecialItemModel {
                family: "minecraft:banner".to_owned(),
                texture: None,
                variant: Some(color_of(path, "_banner").to_owned()),
                part: None,
            },
        );
    }
    if same_text(path, "chest") || same_text(path, "trapped_chest") || same_text(
        path,
        "ender_chest",
    ) || ends_with(path, "copper_chest") {
        return Some(
            SpecialItemModel {
                family: "minecraft:chest".to_owned(),
                texture: Some(chest_texture(path, properties)),
                variant: None,
                part: property(properties, "type"),
            },
        );
    }
    if same_text(path, "shulker_box") || ends_with(path, "_shulker_box") {
        return Some(
            SpecialItemModel {
                family: "minecraft:shulker_box".to_owned(),
                texture: Some(shulker_sprite(path)),
                variant: None,
                part: None,
            },
        );
    }
    if same_text(path, "decorated_pot") {
        return Some(plain("minecraft:decorated_pot"));
    }
    if mentions(path, "copper_golem_statue") {
        let mut texture: String = two(
            "minecraft:textures/entity/copper_golem/copper_golem",
            copper_state(path),
        );
        texture.push_str(".png");
        return Some(
            SpecialItemModel {
                family: "minecraft:copper_golem_statue".to_owned(),
                texture: Some(texture),
                variant: property(properties, "copper_golem_pose"),
                part: None,
            },
        );
    }
    if same_text(path, "conduit") {
        return Some(plain("minecraft:conduit"));
    }
    if among(path, &HEAD_BLOCKS) {
        let kind: &str = read_head_kind(path);
        let family: &str = if same_text(kind, "player") {
            "minecraft:player_head"
        } else {
            "minecraft:head"
        };
        return Some(
            SpecialItemModel {
                family: family.to_owned(),
                texture: None,
                variant: Some(kind.to_owned()),
                part: None,
            },
        );
    }
    None
}

/// How far a direction is turned from the south, in degrees.
pub open spec fn y_rotation(facing: Seq<char>) -> int {
    if facing == "west"@ {
        90
    } else if facing == "north"@ {
        180
    } else if facing == "east"@ {
        270
    } else {
        0
    }
}

pub fn direction_to_y_rotation(facing: &str) -> (degrees: i32)
    ensures
        degrees == y_rotation(facing@),
        0 <= degrees <= 270,
{
    if same_text(facing, "west") {
        90
    } else if same_text(facing, "north") {
        180
    } else if same_text(facing, "east") {
        270
    } else {
        0
    }
}

/// The step to the side in a direction: to the east and to the south.
pub open spec fn side_step(facing: Seq<char>) -> (int, int) {
    if facing == "north"@ {
        (0, -1)
    } else if facing == "south"@ {
        (0, 1)
    } else if facing == "east"@ {
        (1, 0)
    } else if facing == "west"@ {
        (-1, 0)
    } else {
        (0, 0)
    }
}

pub fn direction_steps(facing: &str) -> (steps: (i32, i32))
    ensures
        (steps.0 as int, steps.1 as int) == side_step(facing@),
{
    if same_text(facing, "north") {
        (0, -1)
    } else if same_text(facing, "south") {
        (0, 1)
    } else if same_text(facing, "east") {
        (1, 0)
    } else if same_text(facing, "west") {
        (-1, 0)
    } else {
        (0, 0)
    }
}

/// The turn of a block that stands in one of sixteen ways, in tenths of a degree.
pub open spec fn segment_turn(properties: Seq<(String, String)>) -> int {
    match value_of(properties, "rotation"@) {
        Some(value) => match decimal(value, 255) {
            Some(segment) => (segment % 16) * 225,
            None => 0,
        },
        None => 0,
    }
}

pub fn rotation_segment_degrees(properties: &Vec<(String, String)>) -> (tenths: i32)
    ensures
        tenths == segment_turn(properties@),
        0 <= tenths <= 3375,
{
    match lookup(properties, "rotation") {
        Some(value) => match parse_decimal(value, 255) {
            Some(segment) => (segment % 16) as i32 * 225,
            None => 0,
        },
        None => 0,
    }
}

/// How a block with a renderer of its own is put in its cell. Turns are in degrees
/// or in tenths of a degree, about the axis that they are named for.
#[derive(Clone, Copy, Debug, PartialEq, Eq, Structural)]
pub enum SpecialPlacement {
    Bed { z_degrees: i32 },
    Chest { y_degrees: i32 },
    Banner { y_tenths: i32 },
    ShulkerBox { x_degrees: i32, z_degrees: i32 },
    Pot { y_degrees: i32 },
    /// A head on a wall is moved back along the steps.
    WallHead { step_x: i32, step_z: i32, y_degrees: i32 },
    Head { y_tenths: i32 },
    Statue { y_degrees: i32 },
    Conduit,
    InPlace,
}

pub open spec fn bed_turn(facing: Option<Seq<char>>) -> i32 {
    match facing {
        Some(facing) => if facing == "west"@ {
            270
        } else if facing == "north"@ {
            360
        } else if facing == "east"@ {
            450
        } else {
            180
        },
        None => 180,
    }
}

/// The turn of a shulker box: about the x axis and then about the z axis.
pub open spec fn shulker_turn(facing: Seq<char>) -> (i32, i32) {
    if facing == "down"@ {
        (180, 0)
    } else if facing == "north"@ {
        (90, 180)
    } else if facing == "south"@ {
        (90, 0)
    } else if facing == "west"@ {
        (90, 90)
    } else if facing == "east"@ {
        (90, -90i32)
    } else {
        (0, 0)
    }
}

/// How a block with a renderer of its own is put in its cell. A block that faces
/// nowhere faces north.
pub open spec fn placement_of(
    path: Seq<char>,
    properties: Seq<(String, String)>,
    family: Seq<char>,
) -> SpecialPlacement {
    let facing = match value_of(properties, "facing"@) {
        Some(facing) => facing,
        None => "north"@,
    };
    if family == "minecraft:bed"@ {
        SpecialPlacement::Bed { z_degrees: bed_turn(value_of(properties, "facing"@)) }
    } else if family == "minecraft:chest"@ {
        SpecialPlacement::Chest { y_degrees: (-y_rotation(facing)) as i32 }
    } else if family == "minecraft:banner"@ {
        if has_suffix(path, "_wall_banner"@) {
            SpecialPlacement::Banner { y_tenths: (-(y_rotation(facing) * 10)) as i32 }
        } else {
            SpecialPlacement::Banner { y_tenths: (-segment_turn(properties)) as i32 }
        }
    } else if family == "minecraft:shulker_box"@ {
        SpecialPlacement::ShulkerBox {
            x_degrees: shulker_turn(facing).0,
            z_degrees: shulker_turn(facing).1,
        }
    } else if family == "minecraft:decorated_pot"@ {
        SpecialPlacement::Pot { y_degrees: (180 - y_rotation(facing)) as i32 }
    } else if family == "minecraft:head"@ || family == "minecraft:player_head"@ {
        if contains_text(path, "_wall_"@) {
            SpecialPlacement::WallHead {
                step_x: side_step(facing).0 as i32,
                step_z: side_step(facing).1 as i32,
                y_degrees: (-y_rotation(opposite_name(facing))) as i32,
            }
        } else {
            SpecialPlacement::Head { y_tenths: (-segment_turn(properties)) as i32 }
        }
    } else if family == "minecraft:copper_golem_statue"@ {
        SpecialPlacement::Statue { y_degrees: (-y_rotation(opposite_name(facing))) as i32 }
    } else if family == "minecraft:conduit"@ {
        SpecialPlacement::Conduit
    } else {
        SpecialPlacement::InPlace
    }
}

/// How a block with a renderer of its own is put in its cell.
pub fn special_world_transform(
    path: &str,
    properties: &Vec<(String, String)>,
    family: &str,
) -> (placement: SpecialPlacement)
    ensures
        placement == placement_of(path@, properties@, family@),
{
    let named: Option<&str> = lookup(properties, "facing");
    let facing: &str = match named {
        Some(facing) => facing,
        None => "north",
    };
    if same_text(family, "minecraft:bed") {
        let z_degrees: i32 = match named {
            Some(facing) => if same_text(facing, "west") {
                270
            } else if same_text(facing, "north") {
                360
            } else if same_text(facing, "east") {
                450
            } else {
                180
            },
            None => 180,
        };
        return SpecialPlacement::Bed { z_degrees };
    }
    let turn: i32 = direction_to_y_rotation(facing);
    if same_text(family, "minecraft:chest") {
        SpecialPlacement::Chest { y_degrees: -turn }
    } else if same_text(family, "minecraft:banner") {
        if ends_with(path, "_wall_banner") {
            SpecialPlacement::Banner { y_tenths: -(turn * 10) }
        } else {
            SpecialPlacement::Banner { y_tenths: -rotation_segment_degrees(properties) }
        }
    } else if same_text(family, "minecraft:shulker_box") {
        if same_text(facing, "down") {
            SpecialPlacement::ShulkerBox { x_degrees: 180, z_degrees: 0 }
        } else if same_text(facing, "north") {
            SpecialPlacement::ShulkerBox { x_degrees: 90, z_degrees: 180 }
        } else if same_text(facing, "south") {
            SpecialPlacement::ShulkerBox { x_degrees: 90, z_degrees: 0 }
        } else if same_text(facing, "west") {
            SpecialPlacement::ShulkerBox { x_degrees: 90, z_degrees: 90 }
        } else if same_text(facing, "east") {
            SpecialPlacement::ShulkerBox { x_degrees: 90, z_degrees: -90 }
        } else {
            SpecialPlacement::ShulkerBox { x_degrees: 0, z_degrees: 0 }
        }
    } else if same_text(family, "minecraft:decorated_pot") {
        SpecialPlacement::Pot { y_degrees: 180 - turn }
    } else if same_text(family, "minecraft:head") || same_text(family, "minecraft:player_head") {
        if mentions(path, "_wall_") {
            let (step_x, step_z) = direction_steps(facing);
            SpecialPlacement::WallHead {
                step_x,
                step_z,
                y_degrees: -direction_to_y_rotation(opposite_direction(facing)),
            }
        } else {
            SpecialPlacement::Head { y_tenths: -rotation_segment_degrees(properties) }
        }
    } else if same_text(family, "minecraft:copper_golem_statue") {
        SpecialPlacement::Statue {
            y_degrees: -direction_to_y_rotation(opposite_direction(facing)),
        }
    } else if same_text(family, "minecraft:conduit") {
        SpecialPlacement::Conduit
    } else {
        SpecialPlacement::InPlace
    }
}

/// A face of such a block: where it takes a tint, the one of its renderer.
pub open spec fn special_face(face: ModelFace, tint: Option<u32>) -> ModelFace {
    match tint {
        Some(color) => if face.tint_index is Some {
            ModelFace { tint_kind: TintKind::Fixed(color), ..face }
        } else {
            face
        },
        None => face,
    }
}

/// The models of a block with a renderer of its own: the faces of the renderer,
/// in its tint. They take no shade from their neighbours and hold no fluid back.
pub fn special_world_parts(faces: Vec<ModelFace>, special: &SpecialItemModel, boxes: usize) -> (parts:
    Vec<WeightedApplications>)
    ensures
        parts@.len() == 1,
        parts@[0].total_weight == 1,
        parts@[0].entries@.len() == 1,
        parts@[0].entries@[0].0 == 1,
        ({
            let model = parts@[0].entries@[0].1;
            &&& model.boxes == boxes
            &&& model.x_rotation == 0
            &&& model.y_rotation == 0
            &&& !model.uvlock
            &&& !model.ambient_occlusion
            &&& model.faces@.len() == faces@.len()
            &&& forall|i: int|
                0 <= i < faces@.len() ==> #[trigger] model.faces@[i] == special_face(
                    faces@[i],
                    special_tint(special@),
                )
        }),
{
    let tint: Option<u32> = special.tint();
    let ghost before = faces@;
    let mut faces: Vec<ModelFace> = faces;
    let mut i: usize = 0;
    while i < faces.len()
        invariant
            i <= faces@.len(),
            faces@.len() == before.len(),
            tint == special_tint(special@),
            forall|k: int| 0 <= k < i ==> #[trigger] faces@[k] == special_face(before[k], tint),
            forall|k: int| i <= k < faces@.len() ==> #[trigger] faces@[k] == before[k],
        decreases faces@.len() - i,
    {
        match tint {
            Some(color) => {
                if faces[i].tint_index.is_some() {
                    faces[i].tint_kind = TintKind::Fixed(color);
                }
            },
            None => {},
        }
        i += 1;
    }
    let mut entries: Vec<(u32, ModelApplication)> = Vec::new();
    entries.push(
        (
            1,
            ModelApplication {
                faces,
                boxes,
                x_rotation: 0,
                y_rotation: 0,
                uvlock: false,
                ambient_occlusion: false,
            },
        ),
    );
    let mut parts: Vec<WeightedApplications> = Vec::new();
    parts.push(WeightedApplications { entries, total_weight: 1 });
    parts
}

/// The opposite of a direction to a side is half a turn away, and its step is the
/// step back.
pub proof fn lemma_opposite_is_half_a_turn(facing: Seq<char>)
    requires
        facing == "north"@ || facing == "south"@ || facing == "east"@ || facing == "west"@,
    ensures
        (y_rotation(opposite_name(facing)) - y_rotation(facing)) % 360 == 180,
        side_step(opposite_name(facing)) == (-side_step(facing).0, -side_step(facing).1),
{
    reveal_strlit("north");
    reveal_strlit("south");
    reveal_strlit("east");
    reveal_strlit("west");
    assert("north"@ != "south"@) by {
        assert("north"@[0] != "south"@[0]);
    }
    assert("east"@ != "west"@) by {
        assert("east"@[0] != "west"@[0]);
    }
    assert("north"@.len() == 5 && "south"@.len() == 5);
    assert("east"@.len() == 4 && "west"@.len() == 4);
}

/// The blocks that are heads.
pub proof fn lemma_head_blocks(name: Seq<char>)
    ensures
        is_among(name, HEAD_BLOCKS@) <==> name == "skeleton_skull"@ || name == "skeleton_wall_skull"@ || name == "wither_skeleton_skull"@ || name == "wither_skeleton_wall_skull"@ || name == "zombie_head"@ || name == "zombie_wall_head"@ || name == "creeper_head"@ || name == "creeper_wall_head"@ || name == "piglin_head"@ || name == "piglin_wall_head"@ || name == "dragon_head"@ || name == "dragon_wall_head"@ || name == "player_head"@ || name == "player_wall_head"@,
{
    let names = HEAD_BLOCKS@;
    assert(names[0]@ == "skeleton_skull"@ && names[1]@ == "skeleton_wall_skull"@ && names[2]@ == "wither_skeleton_skull"@ && names[3]@ == "wither_skeleton_wall_skull"@ && names[4]@ == "zombie_head"@ && names[5]@ == "zombie_wall_head"@ && names[6]@ == "creeper_head"@ && names[7]@ == "creeper_wall_head"@ && names[8]@ == "piglin_head"@ && names[9]@ == "piglin_wall_head"@ && names[10]@ == "dragon_head"@ && names[11]@ == "dragon_wall_head"@ && names[12]@ == "player_head"@ && names[13]@ == "player_wall_head"@);
    if is_among(name, names) {
        let i = choose|i: int| 0 <= i < names.len() && (#[trigger] names[i])@ == name;
        assert(i == 0 || i == 1 || i == 2 || i == 3 || i == 4 || i == 5 || i == 6 || i == 7 || i == 8 || i == 9 || i == 10 || i == 11 || i == 12 || i == 13);
    }
}

/// The colour of a block is what stands before the rest of its name.
pub proof fn lemma_colors_stand_first(color: Seq<char>, suffix: Seq<char>)
    ensures
        color_before(color + suffix, suffix) == color,
        !has_suffix(color, suffix) ==> color_before(color, suffix) == "white"@,
        has_suffix(color + suffix, suffix),
{
    assert((color + suffix).subrange(color.len() as int, (color + suffix).len() as int)
        =~= suffix);
    assert(color_before(color + suffix, suffix) =~= color);
}

/// A bed is drawn as one, with the texture of its colour and the half that it is.
pub proof fn lemma_beds_have_their_color(color: Seq<char>, properties: Seq<(String, String)>)
    ensures
        block_renderer(color + "_bed"@, properties) matches Some(model) && model.family
            == "minecraft:bed"@ && model.texture == Some("minecraft:"@ + color) && model.part
            == value_of(properties, "part"@) && model.variant is None,
{
    lemma_colors_stand_first(color, "_bed"@);
}

/// A banner is drawn with the dye of its colour, and one on a wall as such.
pub proof fn lemma_banners_have_their_color(color: Seq<char>, properties: Seq<(String, String)>)
    ensures
        block_renderer(color + "_wall_banner"@, properties) matches Some(model) && model.family
            == "minecraft:banner"@ && model.variant == Some(color) && model.part == Some("wall"@),
        !has_suffix(color, "_wall"@) ==> (block_renderer(
            color + "_banner"@,
            properties,
        ) matches Some(model) && model.family == "minecraft:banner"@ && model.variant == Some(color)
            && model.part is None),
{
    reveal_strlit("_bed");
    reveal_strlit("_banner");
    reveal_strlit("_wall_banner");
    reveal_strlit("_wall");
    let wall = color + "_wall_banner"@;
    let standing = color + "_banner"@;
    lemma_colors_stand_first(color, "_wall_banner"@);
    lemma_colors_stand_first(color, "_banner"@);
    assert("_bed"@.len() == 4 && "_bed"@[3] == 'd');
    assert("_banner"@.len() == 7 && "_banner"@[6] == 'r');
    assert("_wall_banner"@.len() == 12 && "_wall_banner"@[11] == 'r');
    assert(!has_suffix(wall, "_bed"@)) by {
        if has_suffix(wall, "_bed"@) {
            assert(wall.subrange(wall.len() - 4, wall.len() as int)[3] == 'd');
            assert(wall[wall.len() - 1] == 'r');
        }
    }
    assert(!has_suffix(standing, "_bed"@)) by {
        if has_suffix(standing, "_bed"@) {
            assert(standing.subrange(standing.len() - 4, standing.len() as int)[3] == 'd');
            assert(standing[standing.len() - 1] == 'r');
        }
    }
    assert("_wall_banner"@ =~= "_wall"@ + "_banner"@);
    if has_suffix(standing, "_wall_banner"@) {
        let tail = standing.subrange(standing.len() - 12, standing.len() as int);
        assert(tail == "_wall_banner"@);
        assert(color.len() >= 5);
        assert(color.subrange(color.len() - 5, color.len() as int) =~= "_wall"@) by {
            assert forall|i: int| 0 <= i < 5 implies color[color.len() - 5 + i] == "_wall"@[i] by {
                assert(standing[color.len() - 5 + i] == color[color.len() - 5 + i]);
                assert(tail[i] == standing[standing.len() - 12 + i]);
                assert("_wall_banner"@[i] == "_wall"@[i]);
            }
        }
        assert(has_suffix(color, "_wall"@));
    }
}

/// A shulker box has the texture of its colour, and one without a colour the plain one.
pub proof fn lemma_shulker_boxes_have_their_color(color: Seq<char>)
    ensures
        color.len() > 0 ==> shulker_texture(color + "_shulker_box"@) == "shulker_"@ + color,
        shulker_texture("_shulker_box"@) == "shulker"@,
        !has_suffix(color, "_shulker_box"@) ==> shulker_texture(color) == "shulker"@,
{
    lemma_colors_stand_first(color, "_shulker_box"@);
}

/// A chest has the texture of its kind and of the half that it is: trapped ones and those
/// of the end have their own, those of copper that of their age.
pub proof fn lemma_chests_have_their_material(
    path: Seq<char>,
    properties: Seq<(String, String)>,
)
    ensures
        chest_material("chest"@) == "normal"@ || has_suffix("chest"@, "copper_chest"@),
        chest_material("trapped_chest"@) == "trapped"@,
        path == "ender_chest"@ && path != "trapped_chest"@ ==> chest_material(path) == "ender"@,
        has_suffix(path, "copper_chest"@) && path != "trapped_chest"@ && path != "ender_chest"@
            ==> chest_material(path) == "copper"@ + weathering(path),
        contains_text(path, "oxidized"@) ==> weathering(path) == "_oxidized"@,
        !contains_text(path, "oxidized"@) && contains_text(path, "weathered"@) ==> weathering(path)
            == "_weathered"@,
        !contains_text(path, "oxidized"@) && !contains_text(path, "weathered"@) && contains_text(
            path,
            "exposed"@,
        ) ==> weathering(path) == "_exposed"@,
        !contains_text(path, "oxidized"@) && !contains_text(path, "weathered"@) && !contains_text(
            path,
            "exposed"@,
        ) ==> weathering(path) == ""@,
        value_of(properties, "type"@) == Some("left"@) ==> chest_half(properties) == "_"@
            + "left"@,
        value_of(properties, "type"@) == Some("right"@) ==> chest_half(properties) == "_"@
            + "right"@,
        value_of(properties, "type"@) != Some("left"@) && value_of(properties, "type"@) != Some(
            "right"@,
        ) ==> chest_half(properties) == ""@,
{
    reveal_strlit("chest");
    reveal_strlit("trapped_chest");
    reveal_strlit("ender_chest");
    assert("chest"@.len() == 5 && "trapped_chest"@.len() == 13 && "ender_chest"@.len() == 11);
}

/// The four sides follow each other by quarter turns, from the south over the west: what
/// is turned one quarter further leads a quarter turn further, and the south leads along
/// z.
pub proof fn lemma_sides_follow_each_other(a: Seq<char>, b: Seq<char>)
    requires
        a == "north"@ || a == "south"@ || a == "east"@ || a == "west"@,
        b == "north"@ || b == "south"@ || b == "east"@ || b == "west"@,
    ensures
        y_rotation("south"@) == 0,
        side_step("south"@) == (0int, 1int),
        (y_rotation(b) - y_rotation(a)) % 360 == 90 ==> side_step(b) == (
            -side_step(a).1,
            side_step(a).0,
        ),
        (y_rotation(b) - y_rotation(a)) % 360 == 0 ==> a == b,
        y_rotation("west"@) == 90,
        direction_named(a) matches Some(direction) && side_step(a) == (
            direction.step().0,
            direction.step().2,
        ),
{
    reveal_strlit("north");
    reveal_strlit("south");
    reveal_strlit("east");
    reveal_strlit("west");
    reveal_strlit("up");
    reveal_strlit("down");
    assert("north"@.len() == 5 && "south"@.len() == 5 && "east"@.len() == 4 && "west"@.len() == 4
        && "up"@.len() == 2 && "down"@.len() == 4);
    assert("north"@[0] == 'n' && "south"@[0] == 's' && "east"@[0] == 'e' && "west"@[0] == 'w'
        && "down"@[0] == 'd');
}

/// Beds and shulker boxes are turned with the side that they face: a bed half a turn from
/// it, a box onto its side and then as far.
pub proof fn lemma_turns_follow_the_side(facing: Seq<char>)
    requires
        facing == "north"@ || facing == "south"@ || facing == "east"@ || facing == "west"@,
    ensures
        bed_turn(Some(facing)) == 180 + y_rotation(facing),
        bed_turn(None) == 180,
        shulker_turn(facing).0 == 90,
        (shulker_turn(facing).1 - y_rotation(facing)) % 360 == 0,
        shulker_turn("up"@) == (0i32, 0i32),
        shulker_turn("down"@) == (180i32, 0i32),
{
    reveal_strlit("north");
    reveal_strlit("south");
    reveal_strlit("east");
    reveal_strlit("west");
    reveal_strlit("up");
    reveal_strlit("down");
    assert("north"@.len() == 5 && "south"@.len() == 5 && "east"@.len() == 4 && "west"@.len() == 4
        && "up"@.len() == 2 && "down"@.len() == 4);
    assert("north"@[0] == 'n' && "south"@[0] == 's' && "east"@[0] == 'e' && "west"@[0] == 'w'
        && "down"@[0] == 'd');
}

/// What stands freely is turned by sixteenths of a turn.
pub proof fn lemma_standing_blocks_are_turned_by_sixteenths(properties: Seq<(String, String)>)
    ensures
        value_of(properties, "rotation"@) matches Some(text) ==> (decimal(text, 255) matches Some(
            segment,
        ) ==> (16 * segment_turn(properties) - 3600 * segment) % 57600 == 0 && 0 <= segment_turn(
            properties,
        ) < 3600),
        value_of(properties, "rotation"@) is None ==> segment_turn(properties) == 0,
        value_of(properties, "rotation"@) matches Some(text) ==> decimal(text, 255) is None
            ==> segment_turn(properties) == 0,
{
    if let Some(text) = value_of(properties, "rotation"@) {
        if let Some(segment) = decimal(text, 255) {
            crate::text::lemma_numbers_are_within_their_limit(text, 255);
        }
    }
}

/// The side that a block faces, and the north where it names none.
pub open spec fn faced(properties: Seq<(String, String)>) -> Seq<char> {
    match value_of(properties, "facing"@) {
        Some(facing) => facing,
        None => "north"@,
    }
}

/// A block of each family is turned as it stands: chests away from the side that they
/// face, banners and heads by the side on a wall and by their rotation when they stand.
pub proof fn lemma_families_are_placed(path: Seq<char>, properties: Seq<(String, String)>)
    ensures
        placement_of(path, properties, "minecraft:bed"@) == (SpecialPlacement::Bed {
            z_degrees: bed_turn(value_of(properties, "facing"@)),
        }),
        placement_of(path, properties, "minecraft:chest"@) matches SpecialPlacement::Chest {
            y_degrees,
        } && y_degrees == -y_rotation(faced(properties)),
        has_suffix(path, "_wall_banner"@) ==> (placement_of(
            path,
            properties,
            "minecraft:banner"@,
        ) matches SpecialPlacement::Banner { y_tenths } && y_tenths == -10 * y_rotation(
            faced(properties),
        )),
        !has_suffix(path, "_wall_banner"@) ==> (placement_of(
            path,
            properties,
            "minecraft:banner"@,
        ) matches SpecialPlacement::Banner { y_tenths } && y_tenths == -segment_turn(properties)),
        placement_of(path, properties, "minecraft:decorated_pot"@) matches SpecialPlacement::Pot {
            y_degrees,
        } && y_degrees == 180 - y_rotation(faced(properties)),
        placement_of(
            path,
            properties,
            "minecraft:copper_golem_statue"@,
        ) matches SpecialPlacement::Statue { y_degrees } && y_degrees == -y_rotation(
            opposite_name(faced(properties)),
        ),
        placement_of(path, properties, "minecraft:conduit"@) is Conduit,
        contains_text(path, "_wall_"@) ==> (placement_of(
            path,
            properties,
            "minecraft:head"@,
        ) matches SpecialPlacement::WallHead { step_x, step_z, y_degrees } && step_x == side_step(
            faced(properties),
        ).0 && step_z == side_step(faced(properties)).1 && y_degrees == -y_rotation(
            opposite_name(faced(properties)),
        )),
        !contains_text(path, "_wall_"@) ==> (placement_of(
            path,
            properties,
            "minecraft:head"@,
        ) matches SpecialPlacement::Head { y_tenths } && y_tenths == -segment_turn(properties)),
        placement_of(path, properties, "minecraft:player_head"@) == placement_of(
            path,
            properties,
            "minecraft:head"@,
        ),
{
    lemma_families_differ();
    if let Some(text) = value_of(properties, "rotation"@) {
        crate::text::lemma_numbers_are_within_their_limit(text, 255);
    }
}

/// The tint of a special model goes to the faces that ask for one, and to no others.
pub proof fn lemma_tints_go_to_the_faces_that_ask(face: ModelFace, tint: u32)
    ensures
        face.tint_index is Some ==> special_face(face, Some(tint)) == (ModelFace {
            tint_kind: TintKind::Fixed(tint),
            ..face
        }),
        face.tint_index is None ==> special_face(face, Some(tint)) == face,
        special_face(face, None) == face,
{
}

} // verus!
