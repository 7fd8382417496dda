//! Offsets by which plants are moved in their cells.

use crate::resources::ModelOffset;
use crate::variant_random::{model_position_seed, position_hash};
use vstd::prelude::*;

verus! {

/// An offset of a model: sideways in sixtieths of a block, and upwards in
/// seventy-fifths.
#[derive(Clone, Copy, Debug, PartialEq, Eq, Structural)]
pub struct ModelShift {
    pub x_sixtieths: i32,
    pub y_seventy_fifths: i32,
    pub z_sixtieths: i32,
}

/// Four bits of a seed, from a place on.
pub open spec fn nibble(seed: i64, place: int) -> int {
    seed as int / place % 16
}

fn seed_nibble(seed: i64, place: i64) -> (value: i32)
    requires
        place == 1 || place == 16 || place == 256,
    ensures
        value == nibble(seed, place as int),
        0 <= value < 16,
{
    if seed >= 0 {
        (seed / place % 16) as i32
    } else {
        let back: i64 = -(seed + 1);
        let digit: i64 = back / place % 16;
        proof {
            if place == 1 {
                assert(seed as int / 1 % 16 == 15 - digit);
            } else if place == 16 {
                assert(seed as int / 16 % 16 == 15 - digit);
            } else {
                assert(seed as int / 256 % 16 == 15 - digit);
            }
        }
        (15 - digit) as i32
    }
}

/// The offset of a model at a place: by at most a quarter of a block to the sides,
/// and by at most a fifth of a block down.
pub open spec fn shift_of(kind: ModelOffset, x: i32, z: i32) -> ModelShift {
    let seed = position_hash(x, 0, z) >> 16u32;
    if kind == ModelOffset::Unmoved {
        ModelShift { x_sixtieths: 0, y_seventy_fifths: 0, z_sixtieths: 0 }
    } else {
        ModelShift {
            x_sixtieths: (2 * nibble(seed, 1) - 15) as i32,
            y_seventy_fifths: if kind == ModelOffset::Xyz {
                (nibble(seed, 16) - 15) as i32
            } else {
                0
            },
            z_sixtieths: (2 * nibble(seed, 256) - 15) as i32,
        }
    }
}

pub fn model_offset(kind: ModelOffset, x: i32, z: i32) -> (shift: ModelShift)
    ensures
        shift == shift_of(kind, x, z),
        -15 <= shift.x_sixtieths <= 15,
        -15 <= shift.y_seventy_fifths <= 0,
        -15 <= shift.z_sixtieths <= 15,
{
    if kind == ModelOffset::Unmoved {
        return ModelShift { x_sixtieths: 0, y_seventy_fifths: 0, z_sixtieths: 0 };
    }
    let seed: i64 = model_position_seed(x, 0, z);
    ModelShift {
        x_sixtieths: 2 * seed_nibble(seed, 1) - 15,
        y_seventy_fifths: if kind == ModelOffset::Xyz {
            seed_nibble(seed, 16) - 15
        } else {
            0
        },
        z_sixtieths: 2 * seed_nibble(seed, 256) - 15,
    }
}

/// The offset of a place is made of the twelve lowest bits of its seed: the first four
/// move it along x, the next four down, and the last four along z, in even steps from one
/// end to the other. What is moved in the plane alone is moved in it as what is moved
/// downwards too.
pub proof fn lemma_offsets_come_from_the_seed(x: i32, z: i32)
    ensures
        ({
            let seed = (position_hash(x, 0, z) >> 16u32) as int;
            let shift = shift_of(ModelOffset::Xyz, x, z);
            let digits = (shift.x_sixtieths + 15) / 2 + 16 * (shift.y_seventy_fifths + 15) + 256 * ((
            shift.z_sixtieths + 15) / 2);
            &&& digits == seed % 4096
            &&& (shift.x_sixtieths + 15) % 2 == 0 && -15 <= shift.x_sixtieths <= 15
            &&& (shift.z_sixtieths + 15) % 2 == 0 && -15 <= shift.z_sixtieths <= 15
            &&& -15 <= shift.y_seventy_fifths <= 0
        }),
        shift_of(ModelOffset::Xz, x, z) == (ModelShift {
            y_seventy_fifths: 0,
            ..shift_of(ModelOffset::Xyz, x, z)
        }),
        shift_of(ModelOffset::Unmoved, x, z) == (ModelShift {
            x_sixtieths: 0,
            y_seventy_fifths: 0,
            z_sixtieths: 0,
        }),
{
    let seed = (position_hash(x, 0, z) >> 16u32) as int;
    assert(seed / 1 == seed);
    assert(seed % 4096 == seed % 16 + 16 * (seed / 16 % 16) + 256 * (seed / 256 % 16));
}

} // verus!
