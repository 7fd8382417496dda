//! The parts of the models with renderers of their own.
//!
//! A row of parts holds a name, the place of the part that it hangs on, and a pose:
//! a translation, a turn in ten-thousandths of a radian, a turn in twelfths of half
//! a turn, and a scale. A row of cubes holds the place of its part, an origin, a
//! size, the place of its sides on the texture, the size of the texture, how far its
//! sides are moved out, and the sides that it shows.

use crate::baking::no_region;
use crate::direction::Direction;
use crate::error::BlockResourceError;
use crate::model_part::{
    CubeDefinition, ModelPartDefinition, ModelPartQuad, PartDefinition, PartPose,
};
use crate::resources::{
    AtlasRegion, FaceShape, ModelFace, RenderLayer, TextureMaterial, TintKind,
};
use crate::special::{
    lemma_families_differ, special_texture_of, string_view, SpecialItemModel, SpecialModel,
};
use crate::text::same_text;
use vstd::prelude::*;

verus! {

pub type PartRow = (&'static str, usize, [i32; 3], [i32; 3], [i32; 3], i32);

pub type CubeRow = (usize, [i32; 3], [i32; 3], [i32; 2], [i32; 2], i32, u8);

/// A chest.
pub const CHEST_PARTS: [PartRow; 4] = [
    ("root", 0, [0, 0, 0], [0, 0, 0], [0, 0, 0], 1_000_000),
    ("bottom", 0, [0, 0, 0], [0, 0, 0], [0, 0, 0], 1_000_000),
    ("lid", 0, [0, 9_000_000, 1_000_000], [0, 0, 0], [0, 0, 0], 1_000_000),
    ("lock", 0, [0, 9_000_000, 1_000_000], [0, 0, 0], [0, 0, 0], 1_000_000),
];

pub const CHEST_CUBES: [CubeRow; 3] = [
    (1, [1_000_000, 0, 1_000_000], [14_000_000, 10_000_000, 14_000_000], [0, 19_000_000], [64_000_000, 64_000_000], 0, 63),
    (2, [1_000_000, 0, 0], [14_000_000, 5_000_000, 14_000_000], [0, 0], [64_000_000, 64_000_000], 0, 63),
    (3, [7_000_000, -2_000_000, 14_000_000], [2_000_000, 4_000_000, 1_000_000], [0, 0], [64_000_000, 64_000_000], 0, 63),
];

/// The left half of a double chest: the sides where the halves meet are left out.
pub const LEFT_CHEST_CUBES: [CubeRow; 3] = [
    (1, [0, 0, 1_000_000], [15_000_000, 10_000_000, 14_000_000], [0, 19_000_000], [64_000_000, 64_000_000], 0, 47),
    (2, [0, 0, 0], [15_000_000, 5_000_000, 14_000_000], [0, 0], [64_000_000, 64_000_000], 0, 47),
    (3, [0, -2_000_000, 14_000_000], [1_000_000, 4_000_000, 1_000_000], [0, 0], [64_000_000, 64_000_000], 0, 63),
];

/// The right half of a double chest.
pub const RIGHT_CHEST_CUBES: [CubeRow; 3] = [
    (1, [1_000_000, 0, 1_000_000], [15_000_000, 10_000_000, 14_000_000], [0, 19_000_000], [64_000_000, 64_000_000], 0, 31),
    (2, [1_000_000, 0, 0], [15_000_000, 5_000_000, 14_000_000], [0, 0], [64_000_000, 64_000_000], 0, 31),
    (3, [15_000_000, -2_000_000, 14_000_000], [1_000_000, 4_000_000, 1_000_000], [0, 0], [64_000_000, 64_000_000], 0, 63),
];

/// The head of a bed.
pub const BED_HEAD_PARTS: [PartRow; 4] = [
    ("root", 0, [0, 0, 0], [0, 0, 0], [0, 0, 0], 1_000_000),
    ("main", 0, [0, 0, 0], [0, 0, 0], [0, 0, 0], 1_000_000),
    ("left_leg", 0, [0, 0, 0], [0, 0, 0], [6, 0, 6], 1_000_000),
    ("right_leg", 0, [0, 0, 0], [0, 0, 0], [6, 0, 12], 1_000_000),
];

pub const BED_HEAD_CUBES: [CubeRow; 3] = [
    (1, [0, 0, 0], [16_000_000, 16_000_000, 6_000_000], [0, 0], [64_000_000, 64_000_000], 0, 63),
    (2, [0, 6_000_000, 0], [3_000_000, 3_000_000, 3_000_000], [50_000_000, 6_000_000], [64_000_000, 64_000_000], 0, 63),
    (3, [-16_000_000, 6_000_000, 0], [3_000_000, 3_000_000, 3_000_000], [50_000_000, 18_000_000], [64_000_000, 64_000_000], 0, 63),
];

/// The foot of a bed.
pub const BED_FOOT_PARTS: [PartRow; 4] = [
    ("root", 0, [0, 0, 0], [0, 0, 0], [0, 0, 0], 1_000_000),
    ("main", 0, [0, 0, 0], [0, 0, 0], [0, 0, 0], 1_000_000),
    ("left_leg", 0, [0, 0, 0], [0, 0, 0], [6, 0, 0], 1_000_000),
    ("right_leg", 0, [0, 0, 0], [0, 0, 0], [6, 0, 18], 1_000_000),
];

pub const BED_FOOT_CUBES: [CubeRow; 3] = [
    (1, [0, 0, 0], [16_000_000, 16_000_000, 6_000_000], [0, 22_000_000], [64_000_000, 64_000_000], 0, 63),
    (2, [0, 6_000_000, -16_000_000], [3_000_000, 3_000_000, 3_000_000], [50_000_000, 0], [64_000_000, 64_000_000], 0, 63),
    (3, [-16_000_000, 6_000_000, -16_000_000], [3_000_000, 3_000_000, 3_000_000], [50_000_000, 12_000_000], [64_000_000, 64_000_000], 0, 63),
];

/// A banner on a pole.
pub const STANDING_BANNER_PARTS: [PartRow; 4] = [
    ("root", 0, [0, 0, 0], [0, 0, 0], [0, 0, 0], 1_000_000),
    ("pole", 0, [0, 0, 0], [0, 0, 0], [0, 0, 0], 1_000_000),
    ("bar", 0, [0, 0, 0], [0, 0, 0], [0, 0, 0], 1_000_000),
    ("flag", 0, [0, -44_000_000, 0], [0, 0, 0], [0, 0, 0], 1_000_000),
];

pub const STANDING_BANNER_CUBES: [CubeRow; 3] = [
    (1, [-1_000_000, -42_000_000, -1_000_000], [2_000_000, 42_000_000, 2_000_000], [44_000_000, 0], [64_000_000, 64_000_000], 0, 63),
    (2, [-10_000_000, -44_000_000, -1_000_000], [20_000_000, 2_000_000, 2_000_000], [0, 42_000_000], [64_000_000, 64_000_000], 0, 63),
    (3, [-10_000_000, 0, -2_000_000], [20_000_000, 40_000_000, 1_000_000], [0, 0], [64_000_000, 64_000_000], 0, 63),
];

/// A banner on a wall.
pub const WALL_BANNER_PARTS: [PartRow; 3] = [
    ("root", 0, [0, 0, 0], [0, 0, 0], [0, 0, 0], 1_000_000),
    ("bar", 0, [0, 0, 0], [0, 0, 0], [0, 0, 0], 1_000_000),
    ("flag", 0, [0, -20_500_000, 10_500_000], [0, 0, 0], [0, 0, 0], 1_000_000),
];

pub const WALL_BANNER_CUBES: [CubeRow; 2] = [
    (1, [-10_000_000, -20_500_000, 9_500_000], [20_000_000, 2_000_000, 2_000_000], [0, 42_000_000], [64_000_000, 64_000_000], 0, 63),
    (2, [-10_000_000, 0, -2_000_000], [20_000_000, 40_000_000, 1_000_000], [0, 0], [64_000_000, 64_000_000], 0, 63),
];

/// A shulker box.
pub const SHULKER_BOX_PARTS: [PartRow; 3] = [
    ("root", 0, [0, 0, 0], [0, 0, 0], [0, 0, 0], 1_000_000),
    ("base", 0, [0, 24_000_000, 0], [0, 0, 0], [0, 0, 0], 1_000_000),
    ("lid", 0, [0, 24_000_000, 0], [0, 0, 0], [0, 0, 0], 1_000_000),
];

pub const SHULKER_BOX_CUBES: [CubeRow; 2] = [
    (1, [-8_000_000, -8_000_000, -8_000_000], [16_000_000, 8_000_000, 16_000_000], [0, 28_000_000], [64_000_000, 64_000_000], 0, 63),
    (2, [-8_000_000, -16_000_000, -8_000_000], [16_000_000, 12_000_000, 16_000_000], [0, 0], [64_000_000, 64_000_000], 0, 63),
];

/// A decorated pot: its four sides are planes.
pub const DECORATED_POT_PARTS: [PartRow; 8] = [
    ("root", 0, [0, 0, 0], [0, 0, 0], [0, 0, 0], 1_000_000),
    ("neck", 0, [0, 37_000_000, 16_000_000], [0, 0, 0], [12, 0, 0], 1_000_000),
    ("top", 0, [1_000_000, 16_000_000, 1_000_000], [0, 0, 0], [0, 0, 0], 1_000_000),
    ("bottom", 0, [1_000_000, 0, 1_000_000], [0, 0, 0], [0, 0, 0], 1_000_000),
    ("back", 0, [15_000_000, 16_000_000, 1_000_000], [0, 0, 0], [0, 0, 12], 1_000_000),
    ("left", 0, [1_000_000, 16_000_000, 1_000_000], [0, 0, 0], [0, -6, 12], 1_000_000),
    ("right", 0, [15_000_000, 16_000_000, 15_000_000], [0, 0, 0], [0, 6, 12], 1_000_000),
    ("front", 0, [1_000_000, 16_000_000, 15_000_000], [0, 0, 0], [12, 0, 0], 1_000_000),
];

pub const DECORATED_POT_CUBES: [CubeRow; 8] = [
    (1, [4_000_000, 17_000_000, 4_000_000], [8_000_000, 3_000_000, 8_000_000], [0, 0], [32_000_000, 32_000_000], -100_000, 63),
    (1, [5_000_000, 20_000_000, 5_000_000], [6_000_000, 1_000_000, 6_000_000], [0, 5_000_000], [32_000_000, 32_000_000], 200_000, 63),
    (2, [0, 0, 0], [14_000_000, 0, 14_000_000], [-14_000_000, 13_000_000], [32_000_000, 32_000_000], 0, 63),
    (3, [0, 0, 0], [14_000_000, 0, 14_000_000], [-14_000_000, 13_000_000], [32_000_000, 32_000_000], 0, 63),
    (4, [0, 0, 0], [14_000_000, 16_000_000, 0], [1_000_000, 0], [16_000_000, 16_000_000], 0, 4),
    (5, [0, 0, 0], [14_000_000, 16_000_000, 0], [1_000_000, 0], [16_000_000, 16_000_000], 0, 4),
    (6, [0, 0, 0], [14_000_000, 16_000_000, 0], [1_000_000, 0], [16_000_000, 16_000_000], 0, 4),
    (7, [0, 0, 0], [14_000_000, 16_000_000, 0], [1_000_000, 0], [16_000_000, 16_000_000], 0, 4),
];

/// A copper golem statue in a slot.
pub const STANDING_STATUE_PARTS: [PartRow; 7] = [
    ("root", 0, [0, 0, 0], [0, 0, 0], [0, 0, 12], 1_000_000),
    ("body", 0, [0, -5_000_000, 0], [0, 0, 0], [0, 0, 0], 1_000_000),
    ("head", 1, [0, -6_000_000, 0], [0, 0, 0], [0, 0, 0], 1_000_000),
    ("right_arm", 1, [-4_000_000, -6_000_000, 0], [0, 0, 0], [0, 0, 0], 1_000_000),
    ("left_arm", 1, [4_000_000, -6_000_000, 0], [0, 0, 0], [0, 0, 0], 1_000_000),
    ("right_leg", 0, [-2_000_000, -5_000_000, 0], [0, 0, 0], [0, 0, 0], 1_000_000),
    ("left_leg", 0, [2_000_000, -5_000_000, 0], [0, 0, 0], [0, 0, 0], 1_000_000),
];

pub const STANDING_STATUE_CUBES: [CubeRow; 9] = [
    (1, [-4_000_000, -6_000_000, -3_000_000], [8_000_000, 6_000_000, 6_000_000], [0, 15_000_000], [64_000_000, 64_000_000], 0, 63),
    (2, [-4_000_000, -5_000_000, -5_000_000], [8_000_000, 5_000_000, 10_000_000], [0, 0], [64_000_000, 64_000_000], 15_000, 63),
    (2, [-1_000_000, -2_000_000, -6_000_000], [2_000_000, 3_000_000, 2_000_000], [56_000_000, 0], [64_000_000, 64_000_000], 0, 63),
    (2, [-1_000_000, -9_000_000, -1_000_000], [2_000_000, 4_000_000, 2_000_000], [37_000_000, 8_000_000], [64_000_000, 64_000_000], -15_000, 63),
    (2, [-2_000_000, -13_000_000, -2_000_000], [4_000_000, 4_000_000, 4_000_000], [37_000_000, 0], [64_000_000, 64_000_000], -15_000, 63),
    (3, [-3_000_000, -1_000_000, -2_000_000], [3_000_000, 10_000_000, 4_000_000], [36_000_000, 16_000_000], [64_000_000, 64_000_000], 0, 63),
    (4, [0, -1_000_000, -2_000_000], [3_000_000, 10_000_000, 4_000_000], [50_000_000, 16_000_000], [64_000_000, 64_000_000], 0, 63),
    (5, [-2_000_000, 0, -2_000_000], [4_000_000, 5_000_000, 4_000_000], [0, 27_000_000], [64_000_000, 64_000_000], 0, 63),
    (6, [-2_000_000, 0, -2_000_000], [4_000_000, 5_000_000, 4_000_000], [16_000_000, 27_000_000], [64_000_000, 64_000_000], 0, 63),
];

/// The same, sitting.
pub const SITTING_STATUE_PARTS: [PartRow; 7] = [
    ("root", 0, [0, 0, 0], [0, 0, 0], [0, 0, 12], 1_000_000),
    ("body", 0, [0, -5_000_000, 0], [0, 0, 0], [0, 0, 0], 1_000_000),
    ("head", 1, [0, -6_000_000, 0], [0, 0, 0], [0, 0, 0], 1_000_000),
    ("right_arm", 1, [-4_000_000, -6_000_000, 0], [0, 0, 0], [0, 0, 0], 1_000_000),
    ("left_arm", 1, [4_000_000, -6_000_000, 0], [0, 0, 0], [0, 0, 0], 1_000_000),
    ("right_leg", 0, [-2_000_000, -5_000_000, 0], [0, 0, 0], [-6, 0, 0], 1_000_000),
    ("left_leg", 0, [2_000_000, -5_000_000, 0], [0, 0, 0], [-6, 0, 0], 1_000_000),
];

/// The same, with its limbs apart.
pub const STAR_STATUE_PARTS: [PartRow; 7] = [
    ("root", 0, [0, 0, 0], [0, 0, 0], [0, 0, 12], 1_000_000),
    ("body", 0, [0, -5_000_000, 0], [0, 0, 0], [0, 0, 0], 1_000_000),
    ("head", 1, [0, -6_000_000, 0], [0, 0, 0], [0, 0, 0], 1_000_000),
    ("right_arm", 1, [-4_000_000, -6_000_000, 0], [0, 0, 22_000], [0, 0, 0], 1_000_000),
    ("left_arm", 1, [4_000_000, -6_000_000, 0], [0, 0, -22_000], [0, 0, 0], 1_000_000),
    ("right_leg", 0, [-2_000_000, -5_000_000, 0], [0, 0, -4_500], [0, 0, 0], 1_000_000),
    ("left_leg", 0, [2_000_000, -5_000_000, 0], [0, 0, 4_500], [0, 0, 0], 1_000_000),
];

/// The same, running.
pub const RUNNING_STATUE_PARTS: [PartRow; 7] = [
    ("root", 0, [0, 0, 0], [0, 0, 0], [0, 0, 12], 1_000_000),
    ("body", 0, [0, -5_000_000, 0], [0, 0, 0], [0, 0, 0], 1_000_000),
    ("head", 1, [0, -6_000_000, 0], [0, 0, 0], [0, 0, 0], 1_000_000),
    ("right_arm", 1, [-4_000_000, -6_000_000, 0], [9_000, 0, 0], [0, 0, 0], 1_000_000),
    ("left_arm", 1, [4_000_000, -6_000_000, 0], [-9_000, 0, 0], [0, 0, 0], 1_000_000),
    ("right_leg", 0, [-2_000_000, -5_000_000, 0], [-9_000, 0, 0], [0, 0, 0], 1_000_000),
    ("left_leg", 0, [2_000_000, -5_000_000, 0], [9_000, 0, 0], [0, 0, 0], 1_000_000),
];

/// A copper golem statue in the world.
pub const PLACED_STANDING_STATUE_PARTS: [PartRow; 7] = [
    ("root", 0, [0, 0, 0], [0, 0, 0], [0, 0, 12], 1_000_000),
    ("left_leg", 0, [0, -5_000_000, 0], [0, 0, 0], [0, 0, 0], 1_000_000),
    ("right_leg", 0, [0, -5_000_000, 0], [0, 0, 0], [0, 0, 0], 1_000_000),
    ("body", 0, [0, -5_000_000, 0], [0, 0, 0], [0, 0, 0], 1_000_000),
    ("head", 3, [0, -6_000_000, 0], [0, 0, 0], [0, 0, 0], 1_000_000),
    ("right_arm", 3, [-4_000_000, -6_000_000, 0], [0, 0, 0], [0, 0, 0], 1_000_000),
    ("left_arm", 3, [4_000_000, -6_000_000, 0], [0, 0, 0], [0, 0, 0], 1_000_000),
];

pub const PLACED_STANDING_STATUE_CUBES: [CubeRow; 9] = [
    (1, [0, 0, -2_000_000], [4_000_000, 5_000_000, 4_000_000], [16_000_000, 27_000_000], [64_000_000, 64_000_000], 0, 63),
    (2, [-4_000_000, 0, -2_000_000], [4_000_000, 5_000_000, 4_000_000], [0, 27_000_000], [64_000_000, 64_000_000], 0, 63),
    (3, [-4_000_000, -6_000_000, -3_000_000], [8_000_000, 6_000_000, 6_000_000], [0, 15_000_000], [64_000_000, 64_000_000], 0, 63),
    (4, [-4_000_000, -5_000_000, -5_000_000], [8_000_000, 5_000_000, 10_000_000], [0, 0], [64_000_000, 64_000_000], 15_000, 63),
    (4, [-1_000_000, -2_000_000, -6_000_000], [2_000_000, 3_000_000, 2_000_000], [56_000_000, 0], [64_000_000, 64_000_000], 0, 63),
    (4, [-1_000_000, -9_000_000, -1_000_000], [2_000_000, 4_000_000, 2_000_000], [37_000_000, 8_000_000], [64_000_000, 64_000_000], -15_000, 63),
    (4, [-2_000_000, -13_000_000, -2_000_000], [4_000_000, 4_000_000, 4_000_000], [37_000_000, 0], [64_000_000, 64_000_000], -15_000, 63),
    (5, [-3_000_000, -1_000_000, -2_000_000], [3_000_000, 10_000_000, 4_000_000], [36_000_000, 16_000_000], [64_000_000, 64_000_000], 0, 63),
    (6, [0, -1_000_000, -2_000_000], [3_000_000, 10_000_000, 4_000_000], [50_000_000, 16_000_000], [64_000_000, 64_000_000], 0, 63),
];

/// The same, running.
pub const PLACED_RUNNING_STATUE_PARTS: [PartRow; 12] = [
    ("root", 0, [0, 0, 0], [0, 0, 0], [0, 0, 12], 1_000_000),
    ("left_leg", 0, [936_000, -5_000_000, 0], [0, 0, 0], [0, 0, 0], 1_000_000),
    ("left_leg_r1", 1, [1_000_000, 0, 0], [0, 0, 0], [3, 0, 0], 1_000_000),
    ("right_leg", 0, [-3_064_000, -5_000_000, 0], [0, 0, 0], [0, 0, 0], 1_000_000),
    ("right_leg_r1", 3, [1_048_000, 0, -900_000], [-8_727, 0, 0], [0, 0, 0], 1_000_000),
    ("body", 0, [-1_064_000, -5_000_000, 0], [0, 0, 0], [0, 0, 0], 1_000_000),
    ("head", 5, [700_000, -5_600_000, -1_800_000], [0, 0, 0], [0, 0, 0], 1_000_000),
    ("right_arm", 5, [-4_000_000, -6_000_000, 0], [0, 0, 0], [0, 0, 0], 1_000_000),
    ("right_arm_r1", 7, [700_000, -248_000, -1_620_000], [10_036, 0, 0], [0, 0, 0], 1_000_000),
    ("left_arm", 5, [4_000_000, -6_000_000, 0], [0, 0, 0], [0, 0, 0], 1_000_000),
    ("left_arm_r1", 9, [732_000, 0, 0], [-8_715, -535, -449], [0, 0, 0], 1_000_000),
    ("body_r1", 5, [1_100_000, 100_000, 700_000], [1_204, -64, -779], [0, 0, 0], 1_000_000),
];

pub const PLACED_RUNNING_STATUE_CUBES: [CubeRow; 9] = [
    (2, [-2_088_000, -100_000, -2_000_000], [4_000_000, 5_000_000, 4_000_000], [16_000_000, 27_000_000], [64_000_000, 64_000_000], 0, 63),
    (4, [-1_856_000, -100_000, -1_090_000], [4_000_000, 5_000_000, 4_000_000], [0, 27_000_000], [64_000_000, 64_000_000], 0, 63),
    (6, [-4_000_000, -5_100_000, -5_000_000], [8_000_000, 5_000_000, 10_000_000], [0, 0], [64_000_000, 64_000_000], 0, 63),
    (6, [-1_020_000, -2_100_000, -6_000_000], [2_000_000, 3_000_000, 2_000_000], [56_000_000, 0], [64_000_000, 64_000_000], 0, 63),
    (6, [-1_020_000, -9_100_000, -1_000_000], [2_000_000, 4_000_000, 2_000_000], [37_000_000, 8_000_000], [64_000_000, 64_000_000], 0, 63),
    (6, [-2_000_000, -13_100_000, -2_000_000], [4_000_000, 4_000_000, 4_000_000], [37_000_000, 0], [64_000_000, 64_000_000], 0, 63),
    (8, [-3_052_000, -1_110_000, -2_036_000], [3_000_000, 10_000_000, 4_000_000], [36_000_000, 16_000_000], [64_000_000, 64_000_000], 0, 63),
    (10, [32_000, -1_100_000, -2_000_000], [3_000_000, 10_000_000, 4_000_000], [50_000_000, 16_000_000], [64_000_000, 64_000_000], 0, 63),
    (11, [-4_020_000, -6_116_000, -3_500_000], [8_000_000, 6_000_000, 6_000_000], [0, 15_000_000], [64_000_000, 64_000_000], 0, 63),
];

/// The same, sitting.
pub const PLACED_SITTING_STATUE_PARTS: [PartRow; 12] = [
    ("root", 0, [0, 0, 0], [0, 0, 0], [0, 0, 12], 1_000_000),
    ("left_leg", 0, [2_000_000, -2_000_000, -2_075_000], [0, 0, 0], [0, 0, 0], 1_000_000),
    ("left_leg_r1", 1, [50_000, -2_000_000, 1_075_000], [0, 0, 0], [-6, 0, 0], 1_000_000),
    ("right_leg", 0, [-2_100_000, -2_100_000, -2_075_000], [0, 0, 0], [0, 0, 0], 1_000_000),
    ("right_leg_r1", 3, [50_000, -1_900_000, 1_075_000], [0, 0, 0], [-6, 0, 0], 1_000_000),
    ("body", 0, [0, -3_000_000, 2_325_000], [0, 0, 0], [0, 0, 0], 1_000_000),
    ("head", 5, [0, -6_000_000, -200_000], [0, 0, 0], [0, 0, 0], 1_000_000),
    ("right_arm", 5, [-4_000_000, -5_600_000, -1_800_000], [4_363, 0, 0], [0, 0, 0], 1_000_000),
    ("right_arm_r1", 7, [0, 89_300, 119_800], [0, 0, 0], [-4, 0, 0], 1_000_000),
    ("left_arm", 5, [4_000_000, -5_600_000, -1_700_000], [4_363, 0, 0], [0, 0, 0], 1_000_000),
    ("left_arm_r1", 9, [0, -1_500, -80_800], [0, 0, 0], [-4, 0, 0], 1_000_000),
    ("body_r1", 5, [0, -1_000_000, -4_325_000], [0, 0, 0], [0, 0, -12], 1_000_000),
];

pub const PLACED_SITTING_STATUE_CUBES: [CubeRow; 11] = [
    (2, [-2_000_000, 975_000, 0], [4_000_000, 5_000_000, 4_000_000], [16_000_000, 27_000_000], [64_000_000, 64_000_000], 0, 63),
    (4, [-2_000_000, 975_000, 0], [4_000_000, 5_000_000, 4_000_000], [0, 27_000_000], [64_000_000, 64_000_000], 0, 63),
    (5, [-3_000_000, -4_000_000, -4_525_000], [6_000_000, 1_000_000, 6_000_000], [3_000_000, 19_000_000], [64_000_000, 64_000_000], 0, 63),
    (5, [-4_000_000, -3_000_000, -3_525_000], [8_000_000, 6_000_000, 6_000_000], [0, 15_000_000], [64_000_000, 64_000_000], 0, 63),
    (6, [-1_000_000, -7_000_000, -3_300_000], [2_000_000, 4_000_000, 2_000_000], [37_000_000, 8_000_000], [64_000_000, 64_000_000], 0, 63),
    (6, [-2_000_000, -11_000_000, -4_300_000], [4_000_000, 4_000_000, 4_000_000], [37_000_000, 0], [64_000_000, 64_000_000], 0, 63),
    (6, [-4_000_000, -3_000_000, -7_325_000], [8_000_000, 5_000_000, 10_000_000], [0, 0], [64_000_000, 64_000_000], 0, 63),
    (6, [-1_000_000, 0, -8_325_000], [2_000_000, 3_000_000, 2_000_000], [56_000_000, 0], [64_000_000, 64_000_000], 0, 63),
    (8, [-3_075_000, -973_300, -1_996_600], [3_000_000, 10_000_000, 4_000_000], [36_000_000, 16_000_000], [64_000_000, 64_000_000], 0, 63),
    (10, [75_000, -1_044_300, -1_899_700], [3_000_000, 10_000_000, 4_000_000], [50_000_000, 16_000_000], [64_000_000, 64_000_000], 0, 63),
    (11, [-4_000_000, -3_000_000, -2_200_000], [8_000_000, 6_000_000, 3_000_000], [0, 15_000_000], [64_000_000, 64_000_000], 0, 63),
];

/// The same, with its limbs apart.
pub const PLACED_STAR_STATUE_PARTS: [PartRow; 11] = [
    ("root", 0, [0, 0, 0], [0, 0, 0], [0, 0, 12], 1_000_000),
    ("left_leg", 0, [1_000_000, -5_000_000, 0], [0, 0, 0], [0, 0, 0], 1_000_000),
    ("left_leg_r1", 1, [1_650_000, 2_000_000, 0], [0, 0, -2_618], [0, 0, 0], 1_000_000),
    ("right_leg", 0, [-3_000_000, -5_000_000, 0], [0, 0, 0], [0, 0, 0], 1_000_000),
    ("right_leg_r1", 3, [350_000, 2_000_000, 10_000], [0, 0, 2_618], [0, 0, 0], 1_000_000),
    ("body", 0, [0, -5_000_000, 0], [0, 0, 0], [0, 0, 0], 1_000_000),
    ("head", 5, [0, -6_000_000, 0], [0, 0, 0], [0, 0, 0], 1_000_000),
    ("right_arm", 5, [-4_000_000, -6_000_000, 0], [0, 0, 0], [0, 0, 0], 1_000_000),
    ("right_arm_r1", 7, [1_000_000, 1_000_000, 0], [0, 0, 19_199], [0, 0, 0], 1_000_000),
    ("left_arm", 5, [4_000_000, -6_000_000, 0], [0, 0, 0], [0, 0, 0], 1_000_000),
    ("left_arm_r1", 9, [-1_000_000, 1_000_000, 0], [0, 0, -19_199], [0, 0, 0], 1_000_000),
];

pub const PLACED_STAR_STATUE_CUBES: [CubeRow; 9] = [
    (2, [-2_000_000, -2_500_000, -2_000_000], [4_000_000, 5_000_000, 4_000_000], [16_000_000, 27_000_000], [64_000_000, 64_000_000], 0, 63),
    (4, [-2_000_000, -2_500_000, -2_000_000], [4_000_000, 5_000_000, 4_000_000], [0, 27_000_000], [64_000_000, 64_000_000], 0, 63),
    (5, [-4_000_000, -6_000_000, -3_000_000], [8_000_000, 6_000_000, 6_000_000], [0, 15_000_000], [64_000_000, 64_000_000], 0, 63),
    (6, [-4_000_000, -5_000_000, -5_000_000], [8_000_000, 5_000_000, 10_000_000], [0, 0], [64_000_000, 64_000_000], 15_000, 63),
    (6, [-1_000_000, -2_000_000, -6_000_000], [2_000_000, 3_000_000, 2_000_000], [56_000_000, 0], [64_000_000, 64_000_000], 0, 63),
    (6, [-1_000_000, -9_000_000, -1_000_000], [2_000_000, 4_000_000, 2_000_000], [37_000_000, 8_000_000], [64_000_000, 64_000_000], -15_000, 63),
    (6, [-2_000_000, -13_000_000, -2_000_000], [4_000_000, 4_000_000, 4_000_000], [37_000_000, 0], [64_000_000, 64_000_000], -15_000, 63),
    (8, [-1_500_000, -5_000_000, -2_000_000], [3_000_000, 10_000_000, 4_000_000], [36_000_000, 16_000_000], [64_000_000, 64_000_000], 0, 63),
    (10, [-1_500_000, -5_000_000, -2_000_000], [3_000_000, 10_000_000, 4_000_000], [50_000_000, 16_000_000], [64_000_000, 64_000_000], 0, 63),
];

/// The head of a player, with a hat about it.
pub const PLAYER_HEAD_PARTS: [PartRow; 2] = [
    ("root", 0, [0, 0, 0], [0, 0, 0], [0, 0, 0], 1_000_000),
    ("head", 0, [0, 0, 0], [0, 0, 0], [0, 0, 0], 1_000_000),
];

pub const PLAYER_HEAD_CUBES: [CubeRow; 2] = [
    (1, [-4_000_000, -8_000_000, -4_000_000], [8_000_000, 8_000_000, 8_000_000], [0, 0], [64_000_000, 64_000_000], 0, 63),
    (1, [-4_000_000, -8_000_000, -4_000_000], [8_000_000, 8_000_000, 8_000_000], [32_000_000, 0], [64_000_000, 64_000_000], 250_000, 63),
];

/// The head of a dragon, its jaw a little open.
pub const DRAGON_HEAD_PARTS: [PartRow; 3] = [
    ("root", 0, [0, 0, 0], [0, 0, 0], [0, 0, 0], 1_000_000),
    ("head", 0, [0, -7_986_666, 0], [0, 0, 0], [0, 0, 0], 750_000),
    ("jaw", 1, [0, 4_000_000, -8_000_000], [2_000, 0, 0], [0, 0, 0], 1_000_000),
];

pub const DRAGON_HEAD_CUBES: [CubeRow; 7] = [
    (1, [-6_000_000, -1_000_000, -24_000_000], [12_000_000, 5_000_000, 16_000_000], [176_000_000, 44_000_000], [256_000_000, 256_000_000], 0, 63),
    (1, [-8_000_000, -8_000_000, -10_000_000], [16_000_000, 16_000_000, 16_000_000], [112_000_000, 30_000_000], [256_000_000, 256_000_000], 0, 63),
    (1, [-5_000_000, -12_000_000, -4_000_000], [2_000_000, 4_000_000, 6_000_000], [0, 0], [256_000_000, 256_000_000], 0, 63),
    (1, [3_000_000, -12_000_000, -4_000_000], [2_000_000, 4_000_000, 6_000_000], [0, 0], [256_000_000, 256_000_000], 0, 63),
    (1, [-5_000_000, -3_000_000, -22_000_000], [2_000_000, 2_000_000, 4_000_000], [112_000_000, 0], [256_000_000, 256_000_000], 0, 63),
    (1, [3_000_000, -3_000_000, -22_000_000], [2_000_000, 2_000_000, 4_000_000], [112_000_000, 0], [256_000_000, 256_000_000], 0, 63),
    (2, [-6_000_000, 0, -16_000_000], [12_000_000, 4_000_000, 16_000_000], [176_000_000, 65_000_000], [256_000_000, 256_000_000], 0, 63),
];

/// The head of a piglin, its ears to the sides.
pub const PIGLIN_HEAD_PARTS: [PartRow; 4] = [
    ("root", 0, [0, 0, 0], [0, 0, 0], [0, 0, 0], 1_000_000),
    ("head", 0, [0, 0, 0], [0, 0, 0], [0, 0, 0], 1_000_000),
    ("left_ear", 1, [4_500_000, -6_000_000, 0], [0, 0, -7_000], [0, 0, 0], 1_000_000),
    ("right_ear", 1, [-4_500_000, -6_000_000, 0], [0, 0, 7_000], [0, 0, 0], 1_000_000),
];

pub const PIGLIN_HEAD_CUBES: [CubeRow; 6] = [
    (1, [-5_000_000, -8_000_000, -4_000_000], [10_000_000, 8_000_000, 8_000_000], [0, 0], [64_000_000, 64_000_000], 0, 63),
    (1, [-2_000_000, -4_000_000, -5_000_000], [4_000_000, 4_000_000, 1_000_000], [31_000_000, 1_000_000], [64_000_000, 64_000_000], 0, 63),
    (1, [2_000_000, -2_000_000, -5_000_000], [1_000_000, 2_000_000, 1_000_000], [2_000_000, 4_000_000], [64_000_000, 64_000_000], 0, 63),
    (1, [-3_000_000, -2_000_000, -5_000_000], [1_000_000, 2_000_000, 1_000_000], [2_000_000, 0], [64_000_000, 64_000_000], 0, 63),
    (2, [0, 0, -2_000_000], [1_000_000, 5_000_000, 4_000_000], [51_000_000, 6_000_000], [64_000_000, 64_000_000], 0, 63),
    (3, [-1_000_000, 0, -2_000_000], [1_000_000, 5_000_000, 4_000_000], [39_000_000, 6_000_000], [64_000_000, 64_000_000], 0, 63),
];

/// The head of a zombie, with a hat about it.
pub const ZOMBIE_HEAD_PARTS: [PartRow; 3] = [
    ("root", 0, [0, 0, 0], [0, 0, 0], [0, 0, 0], 1_000_000),
    ("head", 0, [0, 0, 0], [0, 0, 0], [0, 0, 0], 1_000_000),
    ("hat", 1, [0, 0, 0], [0, 0, 0], [0, 0, 0], 1_000_000),
];

pub const ZOMBIE_HEAD_CUBES: [CubeRow; 2] = [
    (1, [-4_000_000, -8_000_000, -4_000_000], [8_000_000, 8_000_000, 8_000_000], [0, 0], [64_000_000, 64_000_000], 0, 63),
    (2, [-4_000_000, -8_000_000, -4_000_000], [8_000_000, 8_000_000, 8_000_000], [32_000_000, 0], [64_000_000, 64_000_000], 250_000, 63),
];

/// A head.
pub const HEAD_PARTS: [PartRow; 2] = [
    ("root", 0, [0, 0, 0], [0, 0, 0], [0, 0, 0], 1_000_000),
    ("head", 0, [0, 0, 0], [0, 0, 0], [0, 0, 0], 1_000_000),
];

pub const HEAD_CUBES: [CubeRow; 1] = [
    (1, [-4_000_000, -8_000_000, -4_000_000], [8_000_000, 8_000_000, 8_000_000], [0, 0], [64_000_000, 32_000_000], 0, 63),
];

/// A conduit.
pub const CONDUIT_PARTS: [PartRow; 2] = [
    ("root", 0, [0, 0, 0], [0, 0, 0], [0, 0, 0], 1_000_000),
    ("eye", 0, [0, 0, 0], [0, 0, 0], [0, 0, 0], 1_000_000),
];

pub const CONDUIT_CUBES: [CubeRow; 1] = [
    (1, [-3_000_000, -3_000_000, -3_000_000], [6_000_000, 6_000_000, 6_000_000], [0, 0], [32_000_000, 16_000_000], 0, 63),
];

/// A shield.
pub const SHIELD_PARTS: [PartRow; 3] = [
    ("root", 0, [0, 0, 0], [0, 0, 0], [0, 0, 0], 1_000_000),
    ("plate", 0, [0, 0, 0], [0, 0, 0], [0, 0, 0], 1_000_000),
    ("handle", 0, [0, 0, 0], [0, 0, 0], [0, 0, 0], 1_000_000),
];

pub const SHIELD_CUBES: [CubeRow; 2] = [
    (1, [-6_000_000, -11_000_000, -2_000_000], [12_000_000, 22_000_000, 1_000_000], [0, 0], [64_000_000, 64_000_000], 0, 63),
    (2, [-1_000_000, -3_000_000, -1_000_000], [2_000_000, 6_000_000, 6_000_000], [26_000_000, 0], [64_000_000, 64_000_000], 0, 63),
];

/// A model without cubes.
pub const BARE_PARTS: [PartRow; 1] = [
    ("root", 0, [0, 0, 0], [0, 0, 0], [0, 0, 0], 1_000_000),
];

pub const BARE_CUBES: [CubeRow; 0] = [];

/// A model with a renderer of its own, as far as its parts go. A statue in the world
/// has other parts than one in a slot.
#[derive(Clone, Copy, Debug, PartialEq, Eq, Structural)]
pub enum PartLayer {
    Chest,
    LeftChest,
    RightChest,
    BedHead,
    BedFoot,
    StandingBanner,
    WallBanner,
    ShulkerBox,
    DecoratedPot,
    StandingStatue,
    SittingStatue,
    StarStatue,
    RunningStatue,
    PlacedStandingStatue,
    PlacedRunningStatue,
    PlacedSittingStatue,
    PlacedStarStatue,
    PlayerHead,
    DragonHead,
    PiglinHead,
    ZombieHead,
    Head,
    Conduit,
    Shield,
    Bare,
}

pub open spec fn layer_parts(layer: PartLayer) -> Seq<PartRow> {
    match layer {
        PartLayer::Chest => CHEST_PARTS@,
        PartLayer::LeftChest => CHEST_PARTS@,
        PartLayer::RightChest => CHEST_PARTS@,
        PartLayer::BedHead => BED_HEAD_PARTS@,
        PartLayer::BedFoot => BED_FOOT_PARTS@,
        PartLayer::StandingBanner => STANDING_BANNER_PARTS@,
        PartLayer::WallBanner => WALL_BANNER_PARTS@,
        PartLayer::ShulkerBox => SHULKER_BOX_PARTS@,
        PartLayer::DecoratedPot => DECORATED_POT_PARTS@,
        PartLayer::StandingStatue => STANDING_STATUE_PARTS@,
        PartLayer::SittingStatue => SITTING_STATUE_PARTS@,
        PartLayer::StarStatue => STAR_STATUE_PARTS@,
        PartLayer::RunningStatue => RUNNING_STATUE_PARTS@,
        PartLayer::PlacedStandingStatue => PLACED_STANDING_STATUE_PARTS@,
        PartLayer::PlacedRunningStatue => PLACED_RUNNING_STATUE_PARTS@,
        PartLayer::PlacedSittingStatue => PLACED_SITTING_STATUE_PARTS@,
        PartLayer::PlacedStarStatue => PLACED_STAR_STATUE_PARTS@,
        PartLayer::PlayerHead => PLAYER_HEAD_PARTS@,
        PartLayer::DragonHead => DRAGON_HEAD_PARTS@,
        PartLayer::PiglinHead => PIGLIN_HEAD_PARTS@,
        PartLayer::ZombieHead => ZOMBIE_HEAD_PARTS@,
        PartLayer::Head => HEAD_PARTS@,
        PartLayer::Conduit => CONDUIT_PARTS@,
        PartLayer::Shield => SHIELD_PARTS@,
        PartLayer::Bare => BARE_PARTS@,
    }
}

pub open spec fn layer_cubes(layer: PartLayer) -> Seq<CubeRow> {
    match layer {
        PartLayer::Chest => CHEST_CUBES@,
        PartLayer::LeftChest => LEFT_CHEST_CUBES@,
        PartLayer::RightChest => RIGHT_CHEST_CUBES@,
        PartLayer::BedHead => BED_HEAD_CUBES@,
        PartLayer::BedFoot => BED_FOOT_CUBES@,
        PartLayer::StandingBanner => STANDING_BANNER_CUBES@,
        PartLayer::WallBanner => WALL_BANNER_CUBES@,
        PartLayer::ShulkerBox => SHULKER_BOX_CUBES@,
        PartLayer::DecoratedPot => DECORATED_POT_CUBES@,
        PartLayer::StandingStatue => STANDING_STATUE_CUBES@,
        PartLayer::SittingStatue => STANDING_STATUE_CUBES@,
        PartLayer::StarStatue => STANDING_STATUE_CUBES@,
        PartLayer::RunningStatue => STANDING_STATUE_CUBES@,
        PartLayer::PlacedStandingStatue => PLACED_STANDING_STATUE_CUBES@,
        PartLayer::PlacedRunningStatue => PLACED_RUNNING_STATUE_CUBES@,
        PartLayer::PlacedSittingStatue => PLACED_SITTING_STATUE_CUBES@,
        PartLayer::PlacedStarStatue => PLACED_STAR_STATUE_CUBES@,
        PartLayer::PlayerHead => PLAYER_HEAD_CUBES@,
        PartLayer::DragonHead => DRAGON_HEAD_CUBES@,
        PartLayer::PiglinHead => PIGLIN_HEAD_CUBES@,
        PartLayer::ZombieHead => ZOMBIE_HEAD_CUBES@,
        PartLayer::Head => HEAD_CUBES@,
        PartLayer::Conduit => CONDUIT_CUBES@,
        PartLayer::Shield => SHIELD_CUBES@,
        PartLayer::Bare => BARE_CUBES@,
    }
}

/// What a row of parts says.
pub open spec fn part_of(row: PartRow) -> PartDefinition {
    PartDefinition {
        name: row.0,
        parent: row.1,
        pose: PartPose {
            translation: row.2,
            radians: row.3,
            twelfths: row.4,
            scale: [row.5, row.5, row.5],
        },
        visible: true,
    }
}

/// What a row of cubes says.
pub open spec fn cube_of(row: CubeRow) -> CubeDefinition {
    CubeDefinition {
        part: row.0,
        origin: row.1,
        size: row.2,
        texture_offset: row.3,
        texture_size: row.4,
        deformation: row.5,
        mirror: false,
        visible_faces: row.6,
    }
}

/// `model` holds the parts and cubes of the rows.
pub open spec fn holds_rows(
    model: ModelPartDefinition,
    parts: Seq<PartRow>,
    cubes: Seq<CubeRow>,
) -> bool {
    &&& model.parts@ == Seq::new(parts.len(), |i: int| part_of(parts[i]))
    &&& model.cubes@ == Seq::new(cubes.len(), |i: int| cube_of(cubes[i]))
}

fn read_layer(parts: &[PartRow], cubes: &[CubeRow]) -> (model: ModelPartDefinition)
    ensures
        holds_rows(model, parts@, cubes@),
{
    let mut read_parts: Vec<PartDefinition> = Vec::new();
    let mut i: usize = 0;
    while i < parts.len()
        invariant
            i <= parts@.len(),
            read_parts@ == Seq::new(i as nat, |k: int| part_of(parts@[k])),
        decreases parts@.len() - i,
    {
        let row: PartRow = parts[i];
        read_parts.push(
            PartDefinition {
                name: row.0,
                parent: row.1,
                pose: PartPose {
                    translation: row.2,
                    radians: row.3,
                    twelfths: row.4,
                    scale: [row.5, row.5, row.5],
                },
                visible: true,
            },
        );
        i += 1;
    }
    let mut read_cubes: Vec<CubeDefinition> = Vec::new();
    let mut j: usize = 0;
    while j < cubes.len()
        invariant
            j <= cubes@.len(),
            read_cubes@ == Seq::new(j as nat, |k: int| cube_of(cubes@[k])),
        decreases cubes@.len() - j,
    {
        let row: CubeRow = cubes[j];
        read_cubes.push(
            CubeDefinition {
                part: row.0,
                origin: row.1,
                size: row.2,
                texture_offset: row.3,
                texture_size: row.4,
                deformation: row.5,
                mirror: false,
                visible_faces: row.6,
            },
        );
        j += 1;
    }
    ModelPartDefinition { parts: read_parts, cubes: read_cubes }
}

/// The parts of a layer.
pub fn parts_of_layer(layer: PartLayer) -> (model: ModelPartDefinition)
    ensures
        holds_rows(model, layer_parts(layer), layer_cubes(layer)),
{
    match layer {
        PartLayer::Chest => read_layer(&CHEST_PARTS, &CHEST_CUBES),
        PartLayer::LeftChest => read_layer(&CHEST_PARTS, &LEFT_CHEST_CUBES),
        PartLayer::RightChest => read_layer(&CHEST_PARTS, &RIGHT_CHEST_CUBES),
        PartLayer::BedHead => read_layer(&BED_HEAD_PARTS, &BED_HEAD_CUBES),
        PartLayer::BedFoot => read_layer(&BED_FOOT_PARTS, &BED_FOOT_CUBES),
        PartLayer::StandingBanner => read_layer(&STANDING_BANNER_PARTS, &STANDING_BANNER_CUBES),
        PartLayer::WallBanner => read_layer(&WALL_BANNER_PARTS, &WALL_BANNER_CUBES),
        PartLayer::ShulkerBox => read_layer(&SHULKER_BOX_PARTS, &SHULKER_BOX_CUBES),
        PartLayer::DecoratedPot => read_layer(&DECORATED_POT_PARTS, &DECORATED_POT_CUBES),
        PartLayer::StandingStatue => read_layer(&STANDING_STATUE_PARTS, &STANDING_STATUE_CUBES),
        PartLayer::SittingStatue => read_layer(&SITTING_STATUE_PARTS, &STANDING_STATUE_CUBES),
        PartLayer::StarStatue => read_layer(&STAR_STATUE_PARTS, &STANDING_STATUE_CUBES),
        PartLayer::RunningStatue => read_layer(&RUNNING_STATUE_PARTS, &STANDING_STATUE_CUBES),
        PartLayer::PlacedStandingStatue => read_layer(&PLACED_STANDING_STATUE_PARTS, &PLACED_STANDING_STATUE_CUBES),
        PartLayer::PlacedRunningStatue => read_layer(&PLACED_RUNNING_STATUE_PARTS, &PLACED_RUNNING_STATUE_CUBES),
        PartLayer::PlacedSittingStatue => read_layer(&PLACED_SITTING_STATUE_PARTS, &PLACED_SITTING_STATUE_CUBES),
        PartLayer::PlacedStarStatue => read_layer(&PLACED_STAR_STATUE_PARTS, &PLACED_STAR_STATUE_CUBES),
        PartLayer::PlayerHead => read_layer(&PLAYER_HEAD_PARTS, &PLAYER_HEAD_CUBES),
        PartLayer::DragonHead => read_layer(&DRAGON_HEAD_PARTS, &DRAGON_HEAD_CUBES),
        PartLayer::PiglinHead => read_layer(&PIGLIN_HEAD_PARTS, &PIGLIN_HEAD_CUBES),
        PartLayer::ZombieHead => read_layer(&ZOMBIE_HEAD_PARTS, &ZOMBIE_HEAD_CUBES),
        PartLayer::Head => read_layer(&HEAD_PARTS, &HEAD_CUBES),
        PartLayer::Conduit => read_layer(&CONDUIT_PARTS, &CONDUIT_CUBES),
        PartLayer::Shield => read_layer(&SHIELD_PARTS, &SHIELD_CUBES),
        PartLayer::Bare => read_layer(&BARE_PARTS, &BARE_CUBES),
    }
}

/// The parts of a statue in a slot, by its pose.
pub open spec fn slot_statue(pose: Option<Seq<char>>) -> PartLayer {
    match pose {
        Some(name) => if name == "sitting"@ {
            PartLayer::SittingStatue
        } else if name == "star"@ {
            PartLayer::StarStatue
        } else if name == "running"@ {
            PartLayer::RunningStatue
        } else {
            PartLayer::StandingStatue
        },
        None => PartLayer::StandingStatue,
    }
}

/// The parts of a statue in the world, by its pose.
pub open spec fn placed_statue(pose: Option<Seq<char>>) -> PartLayer {
    match pose {
        Some(name) => if name == "running"@ {
            PartLayer::PlacedRunningStatue
        } else if name == "sitting"@ {
            PartLayer::PlacedSittingStatue
        } else if name == "star"@ {
            PartLayer::PlacedStarStatue
        } else {
            PartLayer::PlacedStandingStatue
        },
        None => PartLayer::PlacedStandingStatue,
    }
}

/// The parts of a head, by its kind.
pub open spec fn head_layer(variant: Option<Seq<char>>) -> PartLayer {
    match variant {
        Some(kind) => if kind == "dragon"@ {
            PartLayer::DragonHead
        } else if kind == "piglin"@ {
            PartLayer::PiglinHead
        } else if kind == "zombie"@ {
            PartLayer::ZombieHead
        } else {
            PartLayer::Head
        },
        None => PartLayer::Head,
    }
}

pub open spec fn chest_layer(part: Option<Seq<char>>) -> PartLayer {
    match part {
        Some(part) => if part == "left"@ {
            PartLayer::LeftChest
        } else if part == "right"@ {
            PartLayer::RightChest
        } else {
            PartLayer::Chest
        },
        None => PartLayer::Chest,
    }
}

/// The parts of a model in a slot. A family that has none is bare.
pub open spec fn slot_layer(special: SpecialModel) -> PartLayer {
    let family = special.family;
    if family == "minecraft:chest"@ {
        chest_layer(special.part)
    } else if family == "minecraft:bed"@ {
        if special.part == Some("head"@) {
            PartLayer::BedHead
        } else {
            PartLayer::BedFoot
        }
    } else if family == "minecraft:banner"@ {
        if special.part == Some("wall"@) {
            PartLayer::WallBanner
        } else {
            PartLayer::StandingBanner
        }
    } else if family == "minecraft:shulker_box"@ {
        PartLayer::ShulkerBox
    } else if family == "minecraft:decorated_pot"@ {
        PartLayer::DecoratedPot
    } else if family == "minecraft:copper_golem_statue"@ {
        slot_statue(special.variant)
    } else if family == "minecraft:player_head"@ {
        PartLayer::PlayerHead
    } else if family == "minecraft:head"@ {
        head_layer(special.variant)
    } else if family == "minecraft:conduit"@ {
        PartLayer::Conduit
    } else if family == "minecraft:shield"@ {
        PartLayer::Shield
    } else {
        PartLayer::Bare
    }
}

/// The parts of a model in the world.
pub open spec fn placed_layer(special: SpecialModel) -> PartLayer {
    if special.family == "minecraft:copper_golem_statue"@ {
        placed_statue(special.variant)
    } else {
        slot_layer(special)
    }
}

/// Whether a text is chosen and is the given one.
fn is_chosen(text: &Option<String>, value: &str) -> (yes: bool)
    ensures
        yes == (match text {
            Some(text) => text@ == value@,
            None => false,
        }),
{
    match text {
        Some(text) => same_text(text.as_str(), value),
        None => false,
    }
}

/// The parts of a copper golem statue in a slot, by its pose.
pub fn copper_golem_parts(pose: &Option<String>) -> (layer: PartLayer)
    ensures
        layer == slot_statue(string_view(*pose)),
{
    if is_chosen(pose, "sitting") {
        PartLayer::SittingStatue
    } else if is_chosen(pose, "star") {
        PartLayer::StarStatue
    } else if is_chosen(pose, "running") {
        PartLayer::RunningStatue
    } else {
        PartLayer::StandingStatue
    }
}

/// The parts of a copper golem statue in the world, by its pose.
pub fn copper_golem_world_parts(pose: &Option<String>) -> (layer: PartLayer)
    ensures
        layer == placed_statue(string_view(*pose)),
{
    if is_chosen(pose, "running") {
        PartLayer::PlacedRunningStatue
    } else if is_chosen(pose, "sitting") {
        PartLayer::PlacedSittingStatue
    } else if is_chosen(pose, "star") {
        PartLayer::PlacedStarStatue
    } else {
        PartLayer::PlacedStandingStatue
    }
}

impl SpecialItemModel {
    fn read_slot_layer(&self) -> (layer: PartLayer)
        ensures
            layer == slot_layer(self@),
    {
        let family: &str = self.family.as_str();
        if same_text(family, "minecraft:chest") {
            if is_chosen(&self.part, "left") {
                PartLayer::LeftChest
            } else if is_chosen(&self.part, "right") {
                PartLayer::RightChest
            } else {
                PartLayer::Chest
            }
        } else if same_text(family, "minecraft:bed") {
            if is_chosen(&self.part, "head") {
                PartLayer::BedHead
            } else {
                PartLayer::BedFoot
            }
        } else if same_text(family, "minecraft:banner") {
            if is_chosen(&self.part, "wall") {
                PartLayer::WallBanner
            } else {
                PartLayer::StandingBanner
            }
        } else if same_text(family, "minecraft:shulker_box") {
            PartLayer::ShulkerBox
        } else if same_text(family, "minecraft:decorated_pot") {
            PartLayer::DecoratedPot
        } else if same_text(family, "minecraft:copper_golem_statue") {
            copper_golem_parts(&self.variant)
        } else if same_text(family, "minecraft:player_head") {
            PartLayer::PlayerHead
        } else if same_text(family, "minecraft:head") {
            if is_chosen(&self.variant, "dragon") {
                PartLayer::DragonHead
            } else if is_chosen(&self.variant, "piglin") {
                PartLayer::PiglinHead
            } else if is_chosen(&self.variant, "zombie") {
                PartLayer::ZombieHead
            } else {
                PartLayer::Head
            }
        } else if same_text(family, "minecraft:conduit") {
            PartLayer::Conduit
        } else if same_text(family, "minecraft:shield") {
            PartLayer::Shield
        } else {
            PartLayer::Bare
        }
    }

    /// The parts of the model in a slot.
    pub fn model_parts(&self) -> (model: ModelPartDefinition)
        ensures
            holds_rows(model, layer_parts(slot_layer(self@)), layer_cubes(slot_layer(self@))),
    {
        parts_of_layer(self.read_slot_layer())
    }

    /// The parts of the model in the world.
    pub fn world_parts(&self) -> (model: ModelPartDefinition)
        ensures
            holds_rows(model, layer_parts(placed_layer(self@)), layer_cubes(placed_layer(self@))),
    {
        if same_text(self.family.as_str(), "minecraft:copper_golem_statue") {
            parts_of_layer(copper_golem_world_parts(&self.variant))
        } else {
            parts_of_layer(self.read_slot_layer())
        }
    }
}

/// A side of a cube after its poses: what its geometry is held under, where it
/// faces and how it lies in its cell.
#[derive(Clone, Copy, Debug)]
pub struct PlacedQuad {
    pub geometry: usize,
    pub direction: Direction,
    pub shape: FaceShape,
}

/// The texture of a side: the four sides of a pot have one of their own.
pub open spec fn side_texture(
    family: Seq<char>,
    part: Seq<char>,
    texture: Seq<char>,
) -> Seq<char> {
    if family == "minecraft:decorated_pot"@ && (part == "front"@ || part == "back"@ || part
        == "left"@ || part == "right"@) {
        "minecraft:entity/decorated_pot/decorated_pot_side"@
    } else {
        texture
    }
}

/// `face` is a side of a cube. The flag of a banner is tinted, and a banner is not
/// shaded by where it faces; banners and pots have holes.
pub open spec fn is_part_face(
    face: ModelFace,
    family: Seq<char>,
    part: Seq<char>,
    placed: PlacedQuad,
    texture: Seq<char>,
) -> bool {
    &&& face.geometry == placed.geometry
    &&& face.direction == placed.direction
    &&& face.shape == placed.shape
    &&& face.texture@ == side_texture(family, part, texture)
    &&& face.atlas_region == no_region()
    &&& face.material == TextureMaterial::Terrain
    &&& face.cullface is None
    &&& face.tint_index == (if family == "minecraft:banner"@ && part == "flag"@ {
        Some(0u32)
    } else {
        None
    })
    &&& face.tint_kind == TintKind::Untinted
    &&& face.render_layer == (if family == "minecraft:banner"@ || family
        == "minecraft:decorated_pot"@ {
        RenderLayer::Cutout
    } else {
        RenderLayer::Opaque
    })
    &&& face.directional_shade == (family != "minecraft:banner"@)
}

fn model_part_face(family: &str, part: &str, placed: PlacedQuad, texture: &str) -> (face: ModelFace)
    ensures
        is_part_face(face, family@, part@, placed, texture@),
{
    let pot: bool = same_text(family, "minecraft:decorated_pot");
    let banner: bool = same_text(family, "minecraft:banner");
    let own_texture: bool = pot && (same_text(part, "front") || same_text(part, "back")
        || same_text(part, "left") || same_text(part, "right"));
    let shown: &str = if own_texture {
        "minecraft:entity/decorated_pot/decorated_pot_side"
    } else {
        texture
    };
    ModelFace {
        geometry: placed.geometry,
        direction: placed.direction,
        shape: placed.shape,
        texture: shown.to_owned(),
        atlas_region: AtlasRegion { x: 0, y: 0, width: 0, height: 0, layer: RenderLayer::Opaque },
        material: TextureMaterial::Terrain,
        cullface: None,
        tint_index: if banner && same_text(part, "flag") {
            Some(0)
        } else {
            None
        },
        tint_kind: TintKind::Untinted,
        render_layer: if banner || pot {
            RenderLayer::Cutout
        } else {
            RenderLayer::Opaque
        },
        directional_shade: !banner,
    }
}

impl SpecialItemModel {
    /// The faces of the model: one for each side of its cubes. A family without a
    /// texture has none.
    pub fn model_faces_from_parts(
        &self,
        quads: &Vec<ModelPartQuad>,
        placed: &Vec<PlacedQuad>,
    ) -> (result: Result<Vec<ModelFace>, BlockResourceError>)
        requires
            quads@.len() == placed@.len(),
        ensures
            match (result, special_texture_of(self@)) {
                (Ok(faces), Ok(texture)) => {
                    &&& faces@.len() == quads@.len()
                    &&& forall|i: int|
                        0 <= i < quads@.len() ==> is_part_face(
                            #[trigger] faces@[i],
                            self@.family,
                            quads@[i].part@,
                            placed@[i],
                            texture,
                        )
                },
                (Err(error), Err(failure)) => error@ == failure,
                _ => false,
            },
    {
        let texture: String = match self.texture_identifier() {
            Ok(texture) => texture,
            Err(error) => {
                return Err(error);
            },
        };
        let mut faces: Vec<ModelFace> = Vec::new();
        let mut i: usize = 0;
        while i < quads.len()
            invariant
                i <= quads@.len(),
                quads@.len() == placed@.len(),
                faces@.len() == i,
                forall|k: int|
                    0 <= k < i ==> is_part_face(
                        #[trigger] faces@[k],
                        self@.family,
                        quads@[k].part@,
                        placed@[k],
                        texture@,
                    ),
            decreases quads@.len() - i,
        {
            let face: ModelFace = model_part_face(
                self.family.as_str(),
                quads[i].part,
                placed[i],
                texture.as_str(),
            );
            faces.push(face);
            i += 1;
        }
        Ok(faces)
    }
}

/// Rows hang together: each part but the first hangs on one before it, and each cube
/// belongs to a part.
pub open spec fn hang_together(parts: Seq<PartRow>, cubes: Seq<CubeRow>) -> bool {
    &&& parts.len() > 0
    &&& forall|i: int| 0 < i < parts.len() ==> (#[trigger] parts[i]).1 < i
    &&& forall|i: int| 0 <= i < cubes.len() ==> (#[trigger] cubes[i]).0 < parts.len()
}

proof fn lemma_chests_and_beds_hang_together(layer: PartLayer)
    requires
        layer is Chest || layer is LeftChest || layer is RightChest || layer is BedHead || layer is BedFoot,
    ensures
        hang_together(layer_parts(layer), layer_cubes(layer)),
{
    match layer {
        PartLayer::Chest => {
            assert(hang_together(CHEST_PARTS@, CHEST_CUBES@));
        },
        PartLayer::LeftChest => {
            assert(hang_together(CHEST_PARTS@, LEFT_CHEST_CUBES@));
        },
        PartLayer::RightChest => {
            assert(hang_together(CHEST_PARTS@, RIGHT_CHEST_CUBES@));
        },
        PartLayer::BedHead => {
            assert(hang_together(BED_HEAD_PARTS@, BED_HEAD_CUBES@));
        },
        PartLayer::BedFoot => {
            assert(hang_together(BED_FOOT_PARTS@, BED_FOOT_CUBES@));
        },
        _ => {},
    }
}

proof fn lemma_statues_hang_together(layer: PartLayer)
    requires
        layer is StandingStatue || layer is SittingStatue || layer is StarStatue || layer is RunningStatue,
    ensures
        hang_together(layer_parts(layer), layer_cubes(layer)),
{
    match layer {
        PartLayer::StandingStatue => {
            assert(hang_together(STANDING_STATUE_PARTS@, STANDING_STATUE_CUBES@));
        },
        PartLayer::SittingStatue => {
            assert(hang_together(SITTING_STATUE_PARTS@, STANDING_STATUE_CUBES@));
        },
        PartLayer::StarStatue => {
            assert(hang_together(STAR_STATUE_PARTS@, STANDING_STATUE_CUBES@));
        },
        PartLayer::RunningStatue => {
            assert(hang_together(RUNNING_STATUE_PARTS@, STANDING_STATUE_CUBES@));
        },
        _ => {},
    }
}

proof fn lemma_placed_statues_hang_together(layer: PartLayer)
    requires
        layer is PlacedStandingStatue || layer is PlacedRunningStatue || layer is PlacedSittingStatue || layer is PlacedStarStatue,
    ensures
        hang_together(layer_parts(layer), layer_cubes(layer)),
{
    match layer {
        PartLayer::PlacedStandingStatue => {
            assert(hang_together(PLACED_STANDING_STATUE_PARTS@, PLACED_STANDING_STATUE_CUBES@));
        },
        PartLayer::PlacedRunningStatue => {
            assert(hang_together(PLACED_RUNNING_STATUE_PARTS@, PLACED_RUNNING_STATUE_CUBES@));
        },
        PartLayer::PlacedSittingStatue => {
            assert(hang_together(PLACED_SITTING_STATUE_PARTS@, PLACED_SITTING_STATUE_CUBES@));
        },
        PartLayer::PlacedStarStatue => {
            assert(hang_together(PLACED_STAR_STATUE_PARTS@, PLACED_STAR_STATUE_CUBES@));
        },
        _ => {},
    }
}

proof fn lemma_heads_hang_together(layer: PartLayer)
    requires
        layer is PlayerHead || layer is DragonHead || layer is PiglinHead || layer is ZombieHead || layer is Head,
    ensures
        hang_together(layer_parts(layer), layer_cubes(layer)),
{
    match layer {
        PartLayer::PlayerHead => {
            assert(hang_together(PLAYER_HEAD_PARTS@, PLAYER_HEAD_CUBES@));
        },
        PartLayer::DragonHead => {
            assert(hang_together(DRAGON_HEAD_PARTS@, DRAGON_HEAD_CUBES@));
        },
        PartLayer::PiglinHead => {
            assert(hang_together(PIGLIN_HEAD_PARTS@, PIGLIN_HEAD_CUBES@));
        },
        PartLayer::ZombieHead => {
            assert(hang_together(ZOMBIE_HEAD_PARTS@, ZOMBIE_HEAD_CUBES@));
        },
        PartLayer::Head => {
            assert(hang_together(HEAD_PARTS@, HEAD_CUBES@));
        },
        _ => {},
    }
}

/// In every model each part but the root hangs on a part before it, and each cube
/// belongs to a part.
pub proof fn lemma_layers_hang_together(layer: PartLayer)
    ensures
        hang_together(layer_parts(layer), layer_cubes(layer)),
{
    match layer {
        PartLayer::Chest
        | PartLayer::LeftChest
        | PartLayer::RightChest
        | PartLayer::BedHead
        | PartLayer::BedFoot => {
            lemma_chests_and_beds_hang_together(layer);
        },
        PartLayer::StandingStatue
        | PartLayer::SittingStatue
        | PartLayer::StarStatue
        | PartLayer::RunningStatue => {
            lemma_statues_hang_together(layer);
        },
        PartLayer::PlacedStandingStatue
        | PartLayer::PlacedRunningStatue
        | PartLayer::PlacedSittingStatue
        | PartLayer::PlacedStarStatue => {
            lemma_placed_statues_hang_together(layer);
        },
        PartLayer::PlayerHead
        | PartLayer::DragonHead
        | PartLayer::PiglinHead
        | PartLayer::ZombieHead
        | PartLayer::Head => {
            lemma_heads_hang_together(layer);
        },
        PartLayer::StandingBanner => {
            assert(hang_together(STANDING_BANNER_PARTS@, STANDING_BANNER_CUBES@));
        },
        PartLayer::WallBanner => {
            assert(hang_together(WALL_BANNER_PARTS@, WALL_BANNER_CUBES@));
        },
        PartLayer::ShulkerBox => {
            assert(hang_together(SHULKER_BOX_PARTS@, SHULKER_BOX_CUBES@));
        },
        PartLayer::DecoratedPot => {
            assert(hang_together(DECORATED_POT_PARTS@, DECORATED_POT_CUBES@));
        },
        PartLayer::Conduit => {
            assert(hang_together(CONDUIT_PARTS@, CONDUIT_CUBES@));
        },
        PartLayer::Shield => {
            assert(hang_together(SHIELD_PARTS@, SHIELD_CUBES@));
        },
        PartLayer::Bare => {
            assert(hang_together(BARE_PARTS@, BARE_CUBES@));
        },
    }
}

/// Each family of special models has parts of its own. Chests, beds and banners have them
/// by their part, heads and statues by their variant.
pub proof fn lemma_families_have_their_parts(special: SpecialModel)
    ensures
        special.family == "minecraft:chest"@ ==> {
            &&& slot_layer(special) is LeftChest <==> special.part == Some("left"@)
            &&& slot_layer(special) is RightChest <==> special.part == Some("right"@)
            &&& slot_layer(special) is LeftChest || slot_layer(special) is RightChest
                || slot_layer(special) is Chest
        },
        special.family == "minecraft:bed"@ ==> {
            &&& slot_layer(special) is BedHead <==> special.part == Some("head"@)
            &&& slot_layer(special) is BedFoot <==> special.part != Some("head"@)
        },
        special.family == "minecraft:banner"@ ==> {
            &&& slot_layer(special) is WallBanner <==> special.part == Some("wall"@)
            &&& slot_layer(special) is StandingBanner <==> special.part != Some("wall"@)
        },
        special.family == "minecraft:shulker_box"@ ==> slot_layer(special) is ShulkerBox,
        special.family == "minecraft:decorated_pot"@ ==> slot_layer(special) is DecoratedPot,
        special.family == "minecraft:player_head"@ ==> slot_layer(special) is PlayerHead,
        special.family == "minecraft:conduit"@ ==> slot_layer(special) is Conduit,
        special.family == "minecraft:shield"@ ==> slot_layer(special) is Shield,
        special.family == "minecraft:head"@ ==> {
            &&& slot_layer(special) is DragonHead <==> special.variant == Some("dragon"@)
            &&& slot_layer(special) is PiglinHead <==> special.variant == Some("piglin"@)
            &&& slot_layer(special) is ZombieHead <==> special.variant == Some("zombie"@)
        },
        special.family != "minecraft:copper_golem_statue"@ ==> placed_layer(special) == slot_layer(
            special,
        ),
{
    lemma_families_differ();
    reveal_strlit("left");
    reveal_strlit("right");
    reveal_strlit("dragon");
    reveal_strlit("piglin");
    reveal_strlit("zombie");
    assert("left"@.len() == 4 && "right"@.len() == 5);
    assert("dragon"@[0] == 'd' && "piglin"@[0] == 'p' && "zombie"@[0] == 'z');
}

/// A statue has the parts of its pose, in the inventory and in the world, and stands where
/// it has none that is known.
pub proof fn lemma_statues_have_their_pose(special: SpecialModel)
    requires
        special.family == "minecraft:copper_golem_statue"@,
    ensures
        slot_layer(special) is SittingStatue <==> special.variant == Some("sitting"@),
        slot_layer(special) is StarStatue <==> special.variant == Some("star"@),
        slot_layer(special) is RunningStatue <==> special.variant == Some("running"@),
        placed_layer(special) is PlacedSittingStatue <==> special.variant == Some("sitting"@),
        placed_layer(special) is PlacedStarStatue <==> special.variant == Some("star"@),
        placed_layer(special) is PlacedRunningStatue <==> special.variant == Some("running"@),
        slot_layer(special) is StandingStatue <==> placed_layer(special) is PlacedStandingStatue,
{
    lemma_families_differ();
    reveal_strlit("sitting");
    reveal_strlit("star");
    reveal_strlit("running");
    assert("sitting"@.len() == 7 && "star"@.len() == 4 && "running"@.len() == 7);
    assert("sitting"@[0] == 's' && "running"@[0] == 'r');
}

/// The rows of a table become parts and cubes field by field: a part is scaled alike in
/// all directions and shown, and a cube is not mirrored.
pub proof fn lemma_rows_become_parts_and_cubes(part: PartRow, cube: CubeRow)
    ensures
        part_of(part).name == part.0,
        part_of(part).parent == part.1,
        part_of(part).visible,
        part_of(part).pose.translation == part.2,
        part_of(part).pose.radians == part.3,
        part_of(part).pose.twelfths == part.4,
        part_of(part).pose.scale@ == seq![part.5, part.5, part.5],
        cube_of(cube).part == cube.0,
        cube_of(cube).origin == cube.1,
        cube_of(cube).size == cube.2,
        cube_of(cube).texture_offset == cube.3,
        cube_of(cube).texture_size == cube.4,
        cube_of(cube).deformation == cube.5,
        cube_of(cube).visible_faces == cube.6,
        !cube_of(cube).mirror,
{
}

/// The sides of a pot have a texture of their own. A banner is not shaded by direction,
/// its flag alone takes the tint, and banners and pots have holes.
pub proof fn lemma_parts_look_like_their_family(
    face: ModelFace,
    family: Seq<char>,
    part: Seq<char>,
    placed: PlacedQuad,
    texture: Seq<char>,
)
    requires
        is_part_face(face, family, part, placed, texture),
    ensures
        family != "minecraft:decorated_pot"@ ==> face.texture@ == texture,
        family == "minecraft:decorated_pot"@ ==> face.texture@ == (if part == "front"@ || part
            == "back"@ || part == "left"@ || part == "right"@ {
            "minecraft:entity/decorated_pot/decorated_pot_side"@
        } else {
            texture
        }),
        face.tint_index is Some <==> family == "minecraft:banner"@ && part == "flag"@,
        face.directional_shade <==> family != "minecraft:banner"@,
        face.render_layer is Cutout <==> family == "minecraft:banner"@ || family
            == "minecraft:decorated_pot"@,
        face.render_layer is Cutout || face.render_layer is Opaque,
        face.cullface is None,
        face.geometry == placed.geometry && face.direction == placed.direction && face.shape
            == placed.shape,
{
}

} // verus!
