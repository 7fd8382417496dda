//! Diagnostics of fluid meshes.

use crate::direction::Direction;
use crate::resources::RenderLayer;
use crate::text::{decimal, parse_decimal, same_text};
use vstd::prelude::*;
use vstd::string::StrSliceExecFns;

verus! {

pub const MAX_FLUID_DEBUG_CELLS_PER_MESH: usize = 32;

pub const MAX_FLUID_DEBUG_QUADS_PER_CELL: usize = 128;

pub const FLUID_DEBUG_LOG_CELL_BUDGET: usize = 128;

/// What is shown and recorded of fluids.
#[derive(Clone, Copy, Debug, PartialEq, Eq, Structural)]
pub struct FluidDebugOptions {
    pub face_colors: bool,
    pub mesh_log: bool,
    pub radius: u8,
}

/// A letter without its case.
pub open spec fn folded(c: char) -> char {
    if 'A' <= c && c <= 'Z' {
        (c as int + 32) as char
    } else {
        c
    }
}

/// Whether two texts differ in the case of ASCII letters alone.
pub open spec fn same_letters(a: Seq<char>, b: Seq<char>) -> bool {
    a.len() == b.len() && forall|i: int| 0 <= i < a.len() ==> folded(#[trigger] a[i]) == folded(b[i])
}

fn fold(c: char) -> (code: u32)
    ensures
        code == folded(c) as u32,
{
    if 'A' <= c && c <= 'Z' {
        c as u32 + 32
    } else {
        c as u32
    }
}

fn equal_letters(a: &str, b: &str) -> (yes: bool)
    ensures
        yes == same_letters(a@, b@),
{
    let length: usize = a.unicode_len();
    if length != b.unicode_len() {
        return false;
    }
    let mut i: usize = 0;
    while i < length
        invariant
            i <= length,
            length == a@.len(),
            length == b@.len(),
            forall|k: int| 0 <= k < i ==> folded(#[trigger] a@[k]) == folded(b@[k]),
        decreases length - i,
    {
        if fold(a.get_char(i)) != fold(b.get_char(i)) {
            assert(folded(a@[i as int]) != folded(b@[i as int]));
            return false;
        }
        i += 1;
    }
    true
}

/// Whether a setting is on: `1`, or `true` in any case.
pub open spec fn is_enabled(value: Option<&str>) -> bool {
    match value {
        Some(value) => value@ == "1"@ || same_letters(value@, "true"@),
        None => false,
    }
}

fn enabled(value: Option<&str>) -> (yes: bool)
    ensures
        yes == is_enabled(value),
{
    match value {
        Some(value) => same_text(value, "1") || equal_letters(value, "true"),
        None => false,
    }
}

/// The radius that is asked for, from 1 to 32; 6 where none is.
pub open spec fn radius_of(value: Option<&str>) -> int {
    let asked = match value {
        Some(value) => match decimal(value@, 255) {
            Some(radius) => radius,
            None => 6,
        },
        None => 6,
    };
    if asked < 1 {
        1
    } else if asked > 32 {
        32
    } else {
        asked
    }
}

impl FluidDebugOptions {
    /// Reads the settings from their texts.
    pub fn from_values(faces: Option<&str>, mesh: Option<&str>, radius: Option<&str>) -> (options: Self)
        ensures
            options.face_colors == is_enabled(faces),
            options.mesh_log == is_enabled(mesh),
            options.radius == radius_of(radius),
    {
        let asked: u32 = match radius {
            Some(value) => match parse_decimal(value, 255) {
                Some(radius) => radius,
                None => 6,
            },
            None => 6,
        };
        let radius: u8 = if asked < 1 {
            1
        } else if asked > 32 {
            32
        } else {
            asked as u8
        };
        FluidDebugOptions { face_colors: enabled(faces), mesh_log: enabled(mesh), radius }
    }

    /// Whether a cell is near enough to a place on each axis.
    pub open spec fn is_near(self, origin: (i32, i32, i32), x: int, y: int, z: int) -> bool {
        &&& -(self.radius as int) <= x - origin.0 <= self.radius
        &&& -(self.radius as int) <= y - origin.1 <= self.radius
        &&& -(self.radius as int) <= z - origin.2 <= self.radius
    }

    /// Whether a cell is recorded.
    pub open spec fn is_recorded(
        self,
        recorded: int,
        origin: Option<(i32, i32, i32)>,
        x: int,
        y: int,
        z: int,
    ) -> bool {
        self.mesh_log && recorded < MAX_FLUID_DEBUG_CELLS_PER_MESH && match origin {
            Some(origin) => self.is_near(origin, x, y, z),
            None => false,
        }
    }

    /// Whether a cell is recorded: where recording is on, the cell is near the
    /// origin and not too many are recorded already.
    pub fn records(&self, recorded: usize, origin: Option<(i32, i32, i32)>, x: i32, y: i32, z: i32) -> (yes:
        bool)
        ensures
            yes == self.is_recorded(recorded as int, origin, x as int, y as int, z as int),
            yes == (self.mesh_log && recorded < MAX_FLUID_DEBUG_CELLS_PER_MESH && match origin {
                Some(origin) => self.is_near(origin, x as int, y as int, z as int),
                None => false,
            }),
    {
        if !self.mesh_log || recorded >= MAX_FLUID_DEBUG_CELLS_PER_MESH {
            return false;
        }
        match origin {
            Some(origin) => {
                let radius: i64 = self.radius as i64;
                let dx: i64 = x as i64 - origin.0 as i64;
                let dy: i64 = y as i64 - origin.1 as i64;
                let dz: i64 = z as i64 - origin.2 as i64;
                -radius <= dx && dx <= radius && -radius <= dy && dy <= radius && -radius <= dz && dz
                    <= radius
            },
            None => false,
        }
    }
}

/// The number of a layer in the vertices.
pub open spec fn layer_code(layer: RenderLayer) -> u32 {
    match layer {
        RenderLayer::Opaque => 0,
        RenderLayer::Cutout => 1,
        RenderLayer::Translucent => 2,
        RenderLayer::LayeredTranslucent => 2,
    }
}

pub fn material_layer(layer: RenderLayer) -> (code: u32)
    ensures
        code == layer_code(layer),
        code <= 2,
{
    match layer {
        RenderLayer::Opaque => 0,
        RenderLayer::Cutout => 1,
        RenderLayer::Translucent => 2,
        RenderLayer::LayeredTranslucent => 2,
    }
}

pub open spec fn face_code(direction: Direction) -> u32 {
    match direction {
        Direction::Up => 1,
        Direction::North => 2,
        Direction::South => 3,
        Direction::East => 4,
        Direction::West => 5,
        Direction::Down => 6,
    }
}

/// The layer of a fluid's vertices.
pub open spec fn marked_layer(
    material_layer: u32,
    enabled: bool,
    direction: Direction,
    clipped: bool,
) -> u32 {
    if enabled {
        material_layer | (face_code(direction) << 8u32) | ((clipped as u32) << 16u32)
    } else {
        material_layer
    }
}

/// The layer of a fluid's vertices. Where faces are coloured, the bits from the
/// eighth on hold the face, and the sixteenth tells whether it was clipped.
pub fn debug_fluid_layer(
    material_layer: u32,
    enabled: bool,
    direction: Direction,
    clipped: bool,
) -> (layer: u32)
    ensures
        layer == marked_layer(material_layer, enabled, direction, clipped),
        layer == (if enabled {
            material_layer | (face_code(direction) << 8u32) | ((clipped as u32) << 16u32)
        } else {
            material_layer
        }),
{
    if !enabled {
        return material_layer;
    }
    let face: u32 = match direction {
        Direction::Up => 1,
        Direction::North => 2,
        Direction::South => 3,
        Direction::East => 4,
        Direction::West => 5,
        Direction::Down => 6,
    };
    material_layer | (face << 8u32) | ((clipped as u32) << 16u32)
}

/// The material, the face and the clipping can be read back from the layer.
pub proof fn lemma_debug_layer_reads_back(material_layer: u32, face: u32, clipped: u32)
    requires
        material_layer < 256,
        face < 256,
        clipped < 2,
    ensures
        (material_layer | (face << 8u32) | (clipped << 16u32)) & 0xff == material_layer,
        ((material_layer | (face << 8u32) | (clipped << 16u32)) >> 8u32) & 0xff == face,
        (material_layer | (face << 8u32) | (clipped << 16u32)) >> 16u32 == clipped,
{
    assert((material_layer | (face << 8u32) | (clipped << 16u32)) & 0xff == material_layer
        && ((material_layer | (face << 8u32) | (clipped << 16u32)) >> 8u32) & 0xff == face && (
    material_layer | (face << 8u32) | (clipped << 16u32)) >> 16u32 == clipped) by (bit_vector)
        requires
            material_layer < 256,
            face < 256,
            clipped < 2,
    ;
}

/// What became of one side of a fluid.
#[derive(Clone, Copy, Debug, PartialEq, Eq, Structural)]
pub enum FluidSideDecision {
    Emitted { subquads: usize },
    SameFluid,
    NeighborOcclusion,
    RemovedByClipping,
}

/// What became of a side.
pub open spec fn decided(emitted: int, same_fluid: bool, neighbor_occludes: bool) -> FluidSideDecision {
    if emitted > 0 {
        FluidSideDecision::Emitted { subquads: emitted as usize }
    } else if same_fluid {
        FluidSideDecision::SameFluid
    } else if neighbor_occludes {
        FluidSideDecision::NeighborOcclusion
    } else {
        FluidSideDecision::RemovedByClipping
    }
}

/// What became of a side, by the number of its faces and why there might be none.
pub fn side_decision(emitted: usize, same_fluid: bool, neighbor_occludes: bool) -> (decision:
    FluidSideDecision)
    ensures
        decision == decided(emitted as int, same_fluid, neighbor_occludes),
        decision == (if emitted > 0 {
            FluidSideDecision::Emitted { subquads: emitted }
        } else if same_fluid {
            FluidSideDecision::SameFluid
        } else if neighbor_occludes {
            FluidSideDecision::NeighborOcclusion
        } else {
            FluidSideDecision::RemovedByClipping
        }),
{
    if emitted > 0 {
        FluidSideDecision::Emitted { subquads: emitted }
    } else if same_fluid {
        FluidSideDecision::SameFluid
    } else if neighbor_occludes {
        FluidSideDecision::NeighborOcclusion
    } else {
        FluidSideDecision::RemovedByClipping
    }
}

/// The place of a side in the record of a cell.
pub open spec fn side_place(direction: Direction) -> Option<usize> {
    match direction {
        Direction::North => Some(0),
        Direction::South => Some(1),
        Direction::East => Some(2),
        Direction::West => Some(3),
        _ => None,
    }
}

/// The place of a side in the record of a cell.
pub fn side_index(direction: Direction) -> (index: Option<usize>)
    ensures
        index == side_place(direction),
        index == match direction {
            Direction::North => Some(0usize),
            Direction::South => Some(1usize),
            Direction::East => Some(2usize),
            Direction::West => Some(3usize),
            _ => None,
        },
{
    match direction {
        Direction::North => Some(0),
        Direction::South => Some(1),
        Direction::East => Some(2),
        Direction::West => Some(3),
        _ => None,
    }
}

/// Whether an index names one of the four vertices from `base` on.
pub open spec fn is_own(index: u32, base: u32) -> bool {
    base <= index && index < (if base + 4 > u32::MAX {
        u32::MAX as int
    } else {
        base + 4
    })
}

/// Whether all indices of a quad name its own vertices.
pub fn indices_are_own(indices: &[u32], base: u32) -> (yes: bool)
    ensures
        yes == forall|i: int| 0 <= i < indices@.len() ==> is_own(#[trigger] indices@[i], base),
{
    let end: u32 = if base > u32::MAX - 4 {
        u32::MAX
    } else {
        base + 4
    };
    let mut i: usize = 0;
    while i < indices.len()
        invariant
            i <= indices@.len(),
            end == (if base > u32::MAX - 4 {
                u32::MAX as int
            } else {
                base + 4
            }),
            forall|k: int| 0 <= k < i ==> is_own(#[trigger] indices@[k], base),
        decreases indices@.len() - i,
    {
        if indices[i] < base || indices[i] >= end {
            assert(!is_own(indices@[i as int], base));
            return false;
        }
        i += 1;
    }
    true
}

/// The number of cells that are logged, out of those recorded and those that the
/// budget still allows.
pub fn cells_to_log(recorded: usize, remaining: usize) -> (logged: usize)
    ensures
        logged <= recorded && logged <= remaining,
        logged == recorded || logged == remaining,
        logged == (if recorded < remaining {
            recorded
        } else {
            remaining
        }),
{
    if recorded < remaining {
        recorded
    } else {
        remaining
    }
}

/// A setting is on for `1` and for `true`, however it is cased, and for nothing else.
pub proof fn lemma_settings_are_on_for_true(value: &str)
    ensures
        is_enabled(Some(value)) <==> value@ == seq!['1'] || {
            &&& value@.len() == 4
            &&& value@[0] == 't' || value@[0] == 'T'
            &&& value@[1] == 'r' || value@[1] == 'R'
            &&& value@[2] == 'u' || value@[2] == 'U'
            &&& value@[3] == 'e' || value@[3] == 'E'
        },
        !is_enabled(None),
{
    reveal_strlit("1");
    reveal_strlit("true");
    assert("1"@ =~= seq!['1']);
    let word = "true"@;
    assert(word.len() == 4 && word[0] == 't' && word[1] == 'r' && word[2] == 'u' && word[3] == 'e');
    if same_letters(value@, word) {
        assert(folded(value@[0]) == folded(word[0]));
        assert(folded(value@[1]) == folded(word[1]));
        assert(folded(value@[2]) == folded(word[2]));
        assert(folded(value@[3]) == folded(word[3]));
    }
}

/// The radius is the number that is asked for where it is from 1 to 32, the nearer of the
/// two where it is not, and 6 where no number up to 255 is asked for.
pub proof fn lemma_radius_is_what_is_asked_for(value: &str)
    ensures
        1 <= radius_of(Some(value)) <= 32,
        decimal(value@, 255) matches Some(asked) ==> {
            &&& 1 <= asked <= 32 ==> radius_of(Some(value)) == asked
            &&& asked < 1 ==> radius_of(Some(value)) == 1
            &&& asked > 32 ==> radius_of(Some(value)) == 32
        },
        decimal(value@, 255) is None ==> radius_of(Some(value)) == 6,
        radius_of(None) == 6,
{
}

/// What is recorded lies in a cube around the origin that has the radius on each side,
/// and no more than thirty-two cells are recorded.
pub proof fn lemma_records_lie_around_the_origin(
    options: FluidDebugOptions,
    recorded: int,
    origin: (i32, i32, i32),
    dx: int,
    dy: int,
    dz: int,
)
    ensures
        ({
            let abs = |d: int|
                if d < 0 {
                    -d
                } else {
                    d
                };
            options.is_recorded(
                recorded,
                Some(origin),
                origin.0 + dx,
                origin.1 + dy,
                origin.2 + dz,
            ) <==> options.mesh_log && recorded < 32 && abs(dx) <= options.radius && abs(dy)
                <= options.radius && abs(dz) <= options.radius
        }),
        !options.is_recorded(recorded, None, dx, dy, dz),
{
}

/// The faces have numbers of their own, and so have the layers that are drawn one after
/// the other.
pub proof fn lemma_faces_and_layers_are_told_apart(a: Direction, b: Direction)
    ensures
        face_code(a) == face_code(b) ==> a == b,
        1 <= face_code(a) <= 6,
        face_code(Direction::Up) == 1,
        face_code(Direction::Down) == 6,
        face_code(Direction::North) + 1 == face_code(Direction::South),
        face_code(Direction::South) + 1 == face_code(Direction::East),
        face_code(Direction::East) + 1 == face_code(Direction::West),
        layer_code(RenderLayer::Opaque) + 1 == layer_code(RenderLayer::Cutout),
        layer_code(RenderLayer::Cutout) + 1 == layer_code(RenderLayer::Translucent),
        layer_code(RenderLayer::LayeredTranslucent) == layer_code(RenderLayer::Translucent),
        layer_code(RenderLayer::Opaque) == 0,
        side_place(a) is None <==> a == Direction::Up || a == Direction::Down,
        side_place(a) is Some && side_place(a) == side_place(b) ==> a == b,
        side_place(a) matches Some(place) ==> place < 4,
        side_place(Direction::North) == Some(0usize),
        side_place(Direction::South) == Some(1usize),
        side_place(Direction::East) == Some(2usize),
{
}

/// A marked layer holds the layer, the face and whether the face was clipped; one that is
/// not marked is the layer itself.
pub proof fn lemma_marks_are_read_back(
    material_layer: u32,
    direction: Direction,
    clipped: bool,
)
    requires
        material_layer < 256,
    ensures
        marked_layer(material_layer, true, direction, clipped) & 0xff == material_layer,
        (marked_layer(material_layer, true, direction, clipped) >> 8u32) & 0xff == face_code(
            direction,
        ),
        marked_layer(material_layer, true, direction, clipped) >> 16u32 == (if clipped {
            1u32
        } else {
            0
        }),
        marked_layer(material_layer, false, direction, clipped) == material_layer,
{
    lemma_debug_layer_reads_back(material_layer, face_code(direction), clipped as u32);
}

/// A side with faces is shown, and the fluid beyond a side without faces is the first
/// reason that is given for it.
pub proof fn lemma_sides_have_their_reasons(emitted: usize, same_fluid: bool, occluded: bool)
    ensures
        decided(emitted as int, same_fluid, occluded) is Emitted <==> emitted != 0,
        decided(emitted as int, same_fluid, occluded) matches FluidSideDecision::Emitted {
            subquads,
        } ==> subquads == emitted,
        decided(0, same_fluid, occluded) is SameFluid <==> same_fluid,
        decided(0, same_fluid, occluded) is NeighborOcclusion <==> !same_fluid && occluded,
        decided(0, same_fluid, occluded) is RemovedByClipping <==> !same_fluid && !occluded,
{
}

/// The four vertices of a quad are its own, and no other is.
pub proof fn lemma_quads_have_four_vertices(base: u32, offset: int)
    requires
        base < u32::MAX - 4,
        0 <= base + offset <= u32::MAX,
    ensures
        is_own((base + offset) as u32, base) <==> offset == 0 || offset == 1 || offset == 2
            || offset == 3,
{
}

} // verus!
