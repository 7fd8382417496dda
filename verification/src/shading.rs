//! Occlusion, light and tint of the faces of a block.

use crate::direction::{Direction, Vector};
use crate::grid::{
    biome_at, biome_id_at, block_at, larger, light_at, sample_light, state_at, ChunkMap,
    DimensionGeometry,
};
use crate::resources::{
    ClimateColors, GrassColorModifier, RuntimeBiome, StateModels, StateTable, TintKind,
};
use crate::variant_random::{column_noise, position_noise};
use vstd::prelude::*;

verus! {

/// What a mesh is made from.
#[derive(Clone, Copy, Debug)]
pub struct MeshContext<'a> {
    pub chunks: &'a ChunkMap,
    pub geometry: DimensionGeometry,
    pub states: &'a StateTable,
    pub biomes: &'a Vec<RuntimeBiome>,
    pub climate: &'a ClimateColors,
}

/// Far enough from the ends of the coordinate range for every neighbour that a
/// block reads.
pub open spec fn interior(value: int) -> bool {
    i32::MIN + 2 <= value <= i32::MAX - 2
}

pub open spec fn interior_block(x: int, y: int, z: int) -> bool {
    interior(x) && interior(y) && interior(z)
}

/// The models of the block at a position; an unloaded position has none.
pub open spec fn models_at(context: MeshContext, x: int, y: int, z: int) -> Option<StateModels> {
    match state_at(context.chunks, context.geometry, x, y, z) {
        Some(state) => Some(context.states.models(state as int)),
        None => None,
    }
}

/// Whether the block at a position hides everything behind it.
pub open spec fn occludes(context: MeshContext, x: int, y: int, z: int) -> bool {
    match models_at(context, x, y, z) {
        Some(models) => models.full_opaque_cube,
        None => false,
    }
}

pub fn is_occluding(context: MeshContext, x: i32, y: i32, z: i32) -> (yes: bool)
    ensures
        yes == occludes(context, x as int, y as int, z as int),
{
    match block_at(context.chunks, context.geometry, x, y, z) {
        Some(state) => context.states.state(state).full_opaque_cube,
        None => false,
    }
}

/// Whether the neighbour across a face hides that face.
pub open spec fn hidden(context: MeshContext, x: int, y: int, z: int, direction: Direction) -> bool {
    let step = direction.step();
    occludes(context, x + step.0, y + step.1, z + step.2)
}

pub fn neighbor_fully_occludes(
    context: MeshContext,
    x: i32,
    y: i32,
    z: i32,
    direction: Direction,
) -> (yes: bool)
    requires
        interior_block(x as int, y as int, z as int),
    ensures
        yes == hidden(context, x as int, y as int, z as int, direction),
{
    let offset: [i32; 3] = direction.offset();
    is_occluding(context, x + offset[0], y + offset[1], z + offset[2])
}

pub open spec fn toward(upper: bool) -> int {
    if upper {
        1
    } else {
        -1
    }
}

/// The two steps along a face from the block toward a corner of the face.
pub open spec fn edge_steps(direction: Direction, upper: [bool; 3]) -> (Vector, Vector) {
    match direction {
        Direction::Up | Direction::Down => (
            (toward(upper@[0]), 0, 0),
            (0, 0, toward(upper@[2])),
        ),
        Direction::North | Direction::South => (
            (toward(upper@[0]), 0, 0),
            (0, toward(upper@[1]), 0),
        ),
        Direction::East | Direction::West => (
            (0, 0, toward(upper@[2])),
            (0, toward(upper@[1]), 0),
        ),
    }
}

/// The three cells that touch a corner of a face from outside: the one along
/// each edge, and the one across.
pub open spec fn corner_cells(direction: Direction, upper: [bool; 3]) -> (Vector, Vector, Vector) {
    let n = direction.step();
    let (a, b) = edge_steps(direction, upper);
    (
        (n.0 + a.0, n.1 + a.1, n.2 + a.2),
        (n.0 + b.0, n.1 + b.1, n.2 + b.2),
        (n.0 + a.0 + b.0, n.1 + a.1 + b.1, n.2 + a.2 + b.2),
    )
}

fn sign(upper: bool) -> (value: i32)
    ensures
        value == toward(upper),
{
    if upper {
        1
    } else {
        -1
    }
}

fn corner_offsets(direction: Direction, upper: [bool; 3]) -> (cells: ([i32; 3], [i32; 3], [i32; 3]))
    ensures
        ({
            let (a, b, c) = corner_cells(direction, upper);
            &&& (cells.0@[0] as int, cells.0@[1] as int, cells.0@[2] as int) == a
            &&& (cells.1@[0] as int, cells.1@[1] as int, cells.1@[2] as int) == b
            &&& (cells.2@[0] as int, cells.2@[1] as int, cells.2@[2] as int) == c
            &&& -1 <= a.0 <= 1 && -1 <= a.1 <= 1 && -1 <= a.2 <= 1
            &&& -1 <= b.0 <= 1 && -1 <= b.1 <= 1 && -1 <= b.2 <= 1
            &&& -1 <= c.0 <= 1 && -1 <= c.1 <= 1 && -1 <= c.2 <= 1
        }),
{
    let n: [i32; 3] = direction.offset();
    let (a, b): ([i32; 3], [i32; 3]) = match direction {
        Direction::Up | Direction::Down => ([sign(upper[0]), 0, 0], [0, 0, sign(upper[2])]),
        Direction::North | Direction::South => ([sign(upper[0]), 0, 0], [0, sign(upper[1]), 0]),
        Direction::East | Direction::West => ([0, 0, sign(upper[2])], [0, sign(upper[1]), 0]),
    };
    (
        [n[0] + a[0], n[1] + a[1], n[2] + a[2]],
        [n[0] + b[0], n[1] + b[1], n[2] + b[2]],
        [n[0] + a[0] + b[0], n[1] + a[1] + b[1], n[2] + a[2] + b[2]],
    )
}

/// How dark a corner is, from 0 to 3: the number of its outer cells that are
/// occupied, and 3 where both edge cells are.
pub open spec fn occlusion_level(first: bool, second: bool, corner: bool) -> int {
    if first && second {
        3
    } else {
        (if first {
            1int
        } else {
            0
        }) + (if second {
            1int
        } else {
            0
        }) + (if corner {
            1int
        } else {
            0
        })
    }
}

pub open spec fn corner_occlusion(
    context: MeshContext,
    x: int,
    y: int,
    z: int,
    direction: Direction,
    upper: [bool; 3],
) -> int {
    let (a, b, c) = corner_cells(direction, upper);
    occlusion_level(
        occludes(context, x + a.0, y + a.1, z + a.2),
        occludes(context, x + b.0, y + b.1, z + b.2),
        occludes(context, x + c.0, y + c.1, z + c.2),
    )
}

pub fn ambient_occlusion_level(first: bool, second: bool, corner: bool) -> (level: u8)
    ensures
        level == occlusion_level(first, second, corner),
{
    if first && second {
        3
    } else {
        (if first {
            1
        } else {
            0
        }) + (if second {
            1
        } else {
            0
        }) + (if corner {
            1
        } else {
            0
        })
    }
}

pub fn vertex_ambient_occlusion(
    context: MeshContext,
    x: i32,
    y: i32,
    z: i32,
    direction: Direction,
    upper: [bool; 3],
) -> (level: u8)
    requires
        interior_block(x as int, y as int, z as int),
    ensures
        level == corner_occlusion(context, x as int, y as int, z as int, direction, upper),
{
    let (a, b, c): ([i32; 3], [i32; 3], [i32; 3]) = corner_offsets(direction, upper);
    let first: bool = is_occluding(context, x + a[0], y + a[1], z + a[2]);
    let second: bool = is_occluding(context, x + b[0], y + b[1], z + b[2]);
    let corner: bool = is_occluding(context, x + c[0], y + c[1], z + c[2]);
    ambient_occlusion_level(first, second, corner)
}

pub open spec fn light_near(context: MeshContext, x: int, y: int, z: int, step: Vector) -> int {
    light_at(context.chunks, context.geometry, x + step.0, y + step.1, z + step.2)
}

/// The light at a corner of a face: the brightest of the four cells that touch
/// the corner from outside.
pub open spec fn corner_light(
    context: MeshContext,
    x: int,
    y: int,
    z: int,
    direction: Direction,
    upper: [bool; 3],
) -> int {
    let (a, b, c) = corner_cells(direction, upper);
    larger(
        larger(
            light_near(context, x, y, z, direction.step()),
            light_near(context, x, y, z, a),
        ),
        larger(light_near(context, x, y, z, b), light_near(context, x, y, z, c)),
    )
}

fn brighter(a: u8, b: u8) -> (level: u8)
    ensures
        level == larger(a as int, b as int),
{
    if a >= b {
        a
    } else {
        b
    }
}

pub fn vertex_face_light(
    context: MeshContext,
    x: i32,
    y: i32,
    z: i32,
    direction: Direction,
    upper: [bool; 3],
) -> (level: u8)
    requires
        interior_block(x as int, y as int, z as int),
    ensures
        level == corner_light(context, x as int, y as int, z as int, direction, upper),
{
    let n: [i32; 3] = direction.offset();
    let (a, b, c): ([i32; 3], [i32; 3], [i32; 3]) = corner_offsets(direction, upper);
    let front: u8 = sample_light(context.chunks, context.geometry, x + n[0], y + n[1], z + n[2]);
    let first: u8 = sample_light(context.chunks, context.geometry, x + a[0], y + a[1], z + a[2]);
    let second: u8 = sample_light(context.chunks, context.geometry, x + b[0], y + b[1], z + b[2]);
    let corner: u8 = sample_light(context.chunks, context.geometry, x + c[0], y + c[1], z + c[2]);
    brighter(brighter(front, first), brighter(second, corner))
}

pub open spec fn red(color: u32) -> int {
    (color as int / 0x1_0000) % 256
}

pub open spec fn green(color: u32) -> int {
    (color as int / 0x100) % 256
}

pub open spec fn blue(color: u32) -> int {
    color as int % 256
}

pub open spec fn color_of(r: int, g: int, b: int) -> int {
    r * 0x1_0000 + g * 0x100 + b
}

/// The colour of a climate in a colour map, with a grass green beyond the map.
pub open spec fn climate_spec(colors: Seq<u32>, biome: RuntimeBiome) -> u32 {
    let index = biome.climate_row * 256 + biome.climate_column;
    if index < colors.len() {
        colors[index]
    } else {
        0x7fb238
    }
}

pub fn climate_color(colors: &Vec<u32>, biome: &RuntimeBiome) -> (color: u32)
    ensures
        color == climate_spec(colors@, *biome),
{
    let index: usize = biome.climate_row as usize * 256 + biome.climate_column as usize;
    if index < colors.len() {
        colors[index]
    } else {
        0x7fb238
    }
}

pub open spec fn or_climate(own: Option<u32>, colors: Seq<u32>, biome: RuntimeBiome) -> u32 {
    match own {
        Some(color) => color,
        None => climate_spec(colors, biome),
    }
}

/// Grass in a biome: the biome's own colour or its climate's, half mixed with
/// dark green in a dark forest, and one of two swamp greens in a swamp.
pub open spec fn grass_spec(climate: ClimateColors, biome: RuntimeBiome, x: i32, z: i32) -> int {
    let base = or_climate(biome.grass_color, climate.grass@, biome);
    match biome.grass_color_modifier {
        GrassColorModifier::Unmodified => base as int,
        GrassColorModifier::DarkForest => color_of(
            red(base) / 2 + 20,
            green(base) / 2 + 31,
            blue(base) / 2 + 11,
        ),
        GrassColorModifier::Swamp => if column_noise(x, z) < 0 {
            0x4c763c
        } else {
            0x6a7039
        },
    }
}

pub fn grass_color(climate: &ClimateColors, biome: &RuntimeBiome, x: i32, z: i32) -> (color: u32)
    ensures
        color == grass_spec(*climate, *biome, x, z),
{
    let base: u32 = match biome.grass_color {
        Some(color) => color,
        None => climate_color(&climate.grass, biome),
    };
    match biome.grass_color_modifier {
        GrassColorModifier::Unmodified => base,
        GrassColorModifier::DarkForest => {
            assert((base & 0x00fe_fefeu32) <= 0x00fe_fefe) by (bit_vector);
            assert((((base & 0x00fe_fefeu32) + 0x0028_3e16) as u32) >> 1u32 == (((base
                / 0x1_0000u32) % 256) / 2 + 20) * 0x1_0000 + (((base / 0x100u32) % 256) / 2 + 31)
                * 0x100 + ((base % 256) / 2 + 11)) by (bit_vector);
            ((base & 0x00fe_fefe) + 0x0028_3e16) >> 1u32
        },
        GrassColorModifier::Swamp => if position_noise(x, z) < 0 {
            0x4c763c
        } else {
            0x6a7039
        },
    }
}

/// The colour of a tint in one biome.
pub open spec fn biome_color(
    climate: ClimateColors,
    biome: RuntimeBiome,
    kind: TintKind,
    x: i32,
    z: i32,
) -> int {
    match kind {
        TintKind::Grass => grass_spec(climate, biome, x, z),
        TintKind::Foliage => or_climate(biome.foliage_color, climate.foliage@, biome) as int,
        TintKind::DryFoliage => or_climate(
            biome.dry_foliage_color,
            climate.dry_foliage@,
            biome,
        ) as int,
        TintKind::Water => biome.water_color as int,
        TintKind::Untinted | TintKind::Fixed(_) => 0x00ff_ffff,
    }
}

/// The biome at a position, where it is loaded and registered under its id.
pub open spec fn registered_biome(context: MeshContext, x: int, y: int, z: int) -> Option<
    RuntimeBiome,
> {
    match biome_id_at(context.chunks, context.geometry, x, y, z) {
        Some(id) => if id < context.biomes@.len() && context.biomes@[id as int].raw_id == id {
            Some(context.biomes@[id as int])
        } else {
            None
        },
        None => None,
    }
}

/// The sums of red, green and blue over the first `count` of the 25 columns
/// within two blocks, and the number of columns that have a biome.
pub open spec fn blended(
    context: MeshContext,
    kind: TintKind,
    x: int,
    y: int,
    z: int,
    count: int,
) -> (int, int, int, int)
    decreases count,
{
    if count <= 0 {
        (0, 0, 0, 0)
    } else {
        let (r, g, b, n) = blended(context, kind, x, y, z, count - 1);
        let cx = x + (count - 1) % 5 - 2;
        let cz = z + (count - 1) / 5 - 2;
        match registered_biome(context, cx, y, cz) {
            Some(biome) => {
                let color = biome_color(
                    *context.climate,
                    biome,
                    kind,
                    cx as i32,
                    cz as i32,
                ) as u32;
                (r + red(color), g + green(color), b + blue(color), n + 1)
            },
            None => (r, g, b, n),
        }
    }
}

/// The colour where no biome is known.
pub open spec fn default_tint(kind: TintKind) -> u32 {
    match kind {
        TintKind::Water => 0x3f76e4,
        TintKind::Foliage => 0x48b518,
        TintKind::DryFoliage => 0x9e814d,
        TintKind::Grass => 0x7fb238,
        TintKind::Untinted => 0x00ff_ffff,
        TintKind::Fixed(color) => color,
    }
}

/// The tint at a block: fixed, or the mean of the biome colours within two
/// blocks.
pub open spec fn tint_spec(context: MeshContext, kind: TintKind, x: int, y: int, z: int) -> int {
    match kind {
        TintKind::Untinted => 0x00ff_ffff,
        TintKind::Fixed(color) => color as int,
        _ => {
            let (r, g, b, n) = blended(context, kind, x, y, z, 25);
            if n == 0 {
                default_tint(kind) as int
            } else {
                color_of(r / n, g / n, b / n)
            }
        },
    }
}

fn column_color(context: MeshContext, kind: TintKind, x: i32, y: i32, z: i32) -> (color: Option<u32>)
    ensures
        match (color, registered_biome(context, x as int, y as int, z as int)) {
            (Some(value), Some(biome)) => value == biome_color(
                *context.climate,
                biome,
                kind,
                x,
                z,
            ),
            (None, None) => true,
            _ => false,
        },
{
    let id: u32 = match biome_at(context.chunks, context.geometry, x, y, z) {
        Some(id) => id,
        None => return None,
    };
    let index: usize = id as usize;
    if index >= context.biomes.len() || context.biomes[index].raw_id != id {
        return None;
    }
    let biome: &RuntimeBiome = &context.biomes[index];
    Some(
        match kind {
            TintKind::Grass => grass_color(context.climate, biome, x, z),
            TintKind::Foliage => match biome.foliage_color {
                Some(color) => color,
                None => climate_color(&context.climate.foliage, biome),
            },
            TintKind::DryFoliage => match biome.dry_foliage_color {
                Some(color) => color,
                None => climate_color(&context.climate.dry_foliage, biome),
            },
            TintKind::Water => biome.water_color,
            TintKind::Untinted | TintKind::Fixed(_) => 0x00ff_ffff,
        },
    )
}

proof fn lemma_mean_channel(sum: int, count: int)
    requires
        count > 0,
        0 <= sum <= 255 * count,
    ensures
        0 <= sum / count <= 255,
{
    assert(0 <= sum / count <= 255) by (nonlinear_arith)
        requires
            count > 0,
            0 <= sum <= 255 * count,
    ;
}

pub fn tint_at(context: MeshContext, kind: TintKind, x: i32, y: i32, z: i32) -> (color: u32)
    requires
        interior(x as int),
        interior(z as int),
    ensures
        color == tint_spec(context, kind, x as int, y as int, z as int),
{
    match kind {
        TintKind::Untinted => return 0x00ff_ffff,
        TintKind::Fixed(color) => return color,
        _ => {},
    }
    let mut r: u32 = 0;
    let mut g: u32 = 0;
    let mut b: u32 = 0;
    let mut n: u32 = 0;
    let mut k: i32 = 0;
    while k < 25
        invariant
            0 <= k <= 25,
            n <= k,
            interior(x as int),
            interior(z as int),
            r <= 255 * n,
            g <= 255 * n,
            b <= 255 * n,
            (r as int, g as int, b as int, n as int) == blended(
                context,
                kind,
                x as int,
                y as int,
                z as int,
                k as int,
            ),
        decreases 25 - k,
    {
        let cx: i32 = x + (k % 5 - 2);
        let cz: i32 = z + (k / 5 - 2);
        match column_color(context, kind, cx, y, cz) {
            Some(color) => {
                r = r + (color / 0x1_0000) % 256;
                g = g + (color / 0x100) % 256;
                b = b + color % 256;
                n = n + 1;
            },
            None => {},
        }
        k += 1;
    }
    if n == 0 {
        return match kind {
            TintKind::Water => 0x3f76e4,
            TintKind::Foliage => 0x48b518,
            TintKind::DryFoliage => 0x9e814d,
            TintKind::Grass => 0x7fb238,
            TintKind::Untinted => 0x00ff_ffff,
            TintKind::Fixed(color) => color,
        };
    }
    proof {
        lemma_mean_channel(r as int, n as int);
        lemma_mean_channel(g as int, n as int);
        lemma_mean_channel(b as int, n as int);
    }
    (r / n) * 0x1_0000 + (g / n) * 0x100 + b / n
}

/// How bright a face is for where it faces, in tenths.
pub open spec fn face_shade(direction: Direction) -> u32 {
    match direction {
        Direction::Up => 10,
        Direction::Down => 5,
        Direction::North | Direction::South => 8,
        Direction::East | Direction::West => 6,
    }
}

pub fn direction_shade(direction: Direction) -> (tenths: u32)
    ensures
        tenths == face_shade(direction),
{
    match direction {
        Direction::Up => 10,
        Direction::Down => 5,
        Direction::North | Direction::South => 8,
        Direction::East | Direction::West => 6,
    }
}

proof fn lemma_blend_of_one_color(
    context: MeshContext,
    kind: TintKind,
    x: int,
    y: int,
    z: int,
    color: u32,
    count: int,
)
    requires
        0 <= count <= 25,
        forall|k: int|
            0 <= k < count ==> (#[trigger] column_tint(context, kind, x, y, z, k) is Some
                ==> column_tint(context, kind, x, y, z, k) == Some(color as int)),
    ensures
        ({
            let (r, g, b, n) = blended(context, kind, x, y, z, count);
            &&& (r, g, b) == (red(color) * n, green(color) * n, blue(color) * n)
            &&& 0 <= n
            &&& (n > 0 <==> exists|k: int|
                0 <= k < count && #[trigger] column_tint(context, kind, x, y, z, k) is Some)
        }),
    decreases count,
{
    if count > 0 {
        lemma_blend_of_one_color(context, kind, x, y, z, color, count - 1);
        let (r, g, b, n) = blended(context, kind, x, y, z, count - 1);
        let last = column_tint(context, kind, x, y, z, count - 1);
        assert(red(color) * (n + 1) == red(color) * n + red(color)) by (nonlinear_arith);
        assert(green(color) * (n + 1) == green(color) * n + green(color)) by (nonlinear_arith);
        assert(blue(color) * (n + 1) == blue(color) * n + blue(color)) by (nonlinear_arith);
        if last is None && n > 0 {
            let k = choose|k: int|
                0 <= k < count - 1 && #[trigger] column_tint(context, kind, x, y, z, k) is Some;
            assert(column_tint(context, kind, x, y, z, k) is Some);
        }
    }
}

/// The colour that a column within two blocks gives to a tint.
pub open spec fn column_tint(
    context: MeshContext,
    kind: TintKind,
    x: int,
    y: int,
    z: int,
    k: int,
) -> Option<int> {
    let cx = x + k % 5 - 2;
    let cz = z + k / 5 - 2;
    match registered_biome(context, cx, y, cz) {
        Some(biome) => Some(
            biome_color(*context.climate, biome, kind, cx as i32, cz as i32),
        ),
        None => None,
    }
}

/// Where all biomes within two blocks have the same colour, that colour is the
/// tint: blending changes nothing.
pub proof fn lemma_uniform_tint_is_kept(
    context: MeshContext,
    kind: TintKind,
    x: int,
    y: int,
    z: int,
    color: u32,
)
    requires
        kind !is Untinted,
        kind !is Fixed,
        color <= 0xff_ffff,
        exists|k: int| 0 <= k < 25 && #[trigger] column_tint(context, kind, x, y, z, k) is Some,
        forall|k: int|
            0 <= k < 25 ==> (#[trigger] column_tint(context, kind, x, y, z, k) is Some
                ==> column_tint(context, kind, x, y, z, k) == Some(color as int)),
    ensures
        tint_spec(context, kind, x, y, z) == color,
{
    lemma_blend_of_one_color(context, kind, x, y, z, color, 25);
    let (r, g, b, n) = blended(context, kind, x, y, z, 25);
    lemma_whole_quotient(red(color), n);
    lemma_whole_quotient(green(color), n);
    lemma_whole_quotient(blue(color), n);
}

proof fn lemma_whole_quotient(value: int, count: int)
    requires
        count > 0,
    ensures
        (value * count) / count == value,
{
    assert((value * count) / count == value) by (nonlinear_arith)
        requires
            count > 0,
    ;
}

/// Faces on the two sides of a block are as bright as each other.
pub proof fn lemma_shade_is_symmetric(direction: Direction)
    requires
        direction != Direction::Up,
        direction != Direction::Down,
    ensures
        face_shade(direction) == face_shade(direction.opposite()),
{
}

/// The face of a block in a direction is hidden by the block one step away: the one
/// above hides the top, the one to the east the east side, and so on.
pub proof fn lemma_faces_are_hidden_by_what_they_face(context: MeshContext, x: int, y: int, z: int)
    ensures
        hidden(context, x, y, z, Direction::Up) == occludes(context, x, y + 1, z),
        hidden(context, x, y, z, Direction::Down) == occludes(context, x, y - 1, z),
        hidden(context, x, y, z, Direction::South) == occludes(context, x, y, z + 1),
        hidden(context, x, y, z, Direction::North) == occludes(context, x, y, z - 1),
        hidden(context, x, y, z, Direction::East) == occludes(context, x + 1, y, z),
        hidden(context, x, y, z, Direction::West) == occludes(context, x - 1, y, z),
{
}

/// Only a full opaque cube that is loaded hides what is behind it.
pub proof fn lemma_only_full_cubes_hide(context: MeshContext, x: int, y: int, z: int)
    ensures
        occludes(context, x, y, z) <==> (state_at(
            context.chunks,
            context.geometry,
            x,
            y,
            z,
        ) matches Some(id) && context.states.models(id as int).full_opaque_cube),
{
}

/// Whether the block at a step from a block touches a corner of that block. Along each
/// axis the block reaches from twice its step to two more, where a corner lies at two
/// in the upper half of the block and at zero in the lower.
pub open spec fn touches_corner(cell: Vector, upper: [bool; 3]) -> bool {
    let x = if upper@[0] {
        2int
    } else {
        0
    };
    let y = if upper@[1] {
        2int
    } else {
        0
    };
    let z = if upper@[2] {
        2int
    } else {
        0
    };
    &&& 2 * cell.0 <= x <= 2 * cell.0 + 2
    &&& 2 * cell.1 <= y <= 2 * cell.1 + 2
    &&& 2 * cell.2 <= z <= 2 * cell.2 + 2
}

/// The corner lies on the face in a direction.
pub open spec fn on_face(direction: Direction, upper: [bool; 3]) -> bool {
    match direction {
        Direction::Up => upper@[1],
        Direction::Down => !upper@[1],
        Direction::South => upper@[2],
        Direction::North => !upper@[2],
        Direction::East => upper@[0],
        Direction::West => !upper@[0],
    }
}

/// A block at a step lies in the layer in front of a face.
pub open spec fn in_front(direction: Direction, cell: Vector) -> bool {
    match direction {
        Direction::Up => cell.1 == 1,
        Direction::Down => cell.1 == -1,
        Direction::South => cell.2 == 1,
        Direction::North => cell.2 == -1,
        Direction::East => cell.0 == 1,
        Direction::West => cell.0 == -1,
    }
}

/// How many blocks away two steps are, along the axes.
pub open spec fn steps_apart(a: Vector, b: Vector) -> int {
    let part = |p: int, q: int|
        if p < q {
            q - p
        } else {
            p - q
        };
    part(a.0, b.0) + part(a.1, b.1) + part(a.2, b.2)
}

/// The blocks that decide how a corner of a face is shaded are exactly those in front
/// of the face that touch the corner, beside the one right in front of it: two are next
/// to that one, and the third, across, is next to those two.
pub proof fn lemma_corners_are_shaded_by_what_touches_them(
    direction: Direction,
    upper: [bool; 3],
    cell: Vector,
)
    requires
        on_face(direction, upper),
    ensures
        ({
            let front = direction.step();
            let (a, b, c) = corner_cells(direction, upper);
            &&& in_front(direction, cell) && touches_corner(cell, upper) <==> (cell == front
                || cell == a || cell == b || cell == c)
            &&& steps_apart(front, a) == 1
            &&& steps_apart(front, b) == 1
            &&& steps_apart(front, c) == 2
            &&& steps_apart(a, c) == 1
            &&& steps_apart(b, c) == 1
            &&& a != b
        }),
{
}

/// A corner of a face that lies inside the block is shaded as the corner of the face of
/// the whole block that lies in the same half of each axis along the face.
pub proof fn lemma_inner_corners_are_shaded_as_outer_ones(
    direction: Direction,
    upper: [bool; 3],
    outer: [bool; 3],
)
    requires
        on_face(direction, outer),
        !(direction is Up) && !(direction is Down) ==> upper@[1] == outer@[1],
        !(direction is South) && !(direction is North) ==> upper@[2] == outer@[2],
        !(direction is East) && !(direction is West) ==> upper@[0] == outer@[0],
    ensures
        corner_cells(direction, upper) == corner_cells(direction, outer),
{
}

/// A corner that nothing touches is not dark, one between two full cubes is as dark as
/// can be, and otherwise each full cube that touches it makes it darker by one. The two
/// blocks beside it count alike.
pub proof fn lemma_more_cubes_make_corners_darker(first: bool, second: bool, corner: bool)
    ensures
        occlusion_level(false, false, false) == 0,
        occlusion_level(true, true, corner) == 3,
        occlusion_level(first, second, corner) == occlusion_level(second, first, corner),
        !(first && second) ==> occlusion_level(first, second, true) == occlusion_level(
            first,
            second,
            false,
        ) + 1,
        !second ==> occlusion_level(true, second, corner) == occlusion_level(false, second, corner)
            + 1,
        0 <= occlusion_level(first, second, corner) <= 3,
{
}

/// How dark a corner of a face is, by the full cubes that touch it from outside: none
/// leave it bright, and it is darkest exactly where those on both sides of it are full.
pub proof fn lemma_corner_is_dark_where_cubes_touch_it(
    context: MeshContext,
    x: int,
    y: int,
    z: int,
    direction: Direction,
    upper: [bool; 3],
)
    requires
        on_face(direction, upper),
    ensures
        corner_occlusion(context, x, y, z, direction, upper) == 0 <==> forall|cell: Vector|
            #![trigger touches_corner(cell, upper)]
            touches_corner(cell, upper) && in_front(direction, cell) && cell != direction.step()
                ==> !occludes(context, x + cell.0, y + cell.1, z + cell.2),
        corner_occlusion(context, x, y, z, direction, upper) == 3 <==> forall|cell: Vector|
            #![trigger touches_corner(cell, upper)]
            touches_corner(cell, upper) && in_front(direction, cell) && steps_apart(
                cell,
                direction.step(),
            ) == 1 ==> occludes(context, x + cell.0, y + cell.1, z + cell.2),
        0 <= corner_occlusion(context, x, y, z, direction, upper) <= 3,
{
    let (a, b, c) = corner_cells(direction, upper);
    lemma_corners_are_shaded_by_what_touches_them(direction, upper, a);
    lemma_corners_are_shaded_by_what_touches_them(direction, upper, b);
    lemma_corners_are_shaded_by_what_touches_them(direction, upper, c);
    assert(touches_corner(a, upper) && touches_corner(b, upper) && touches_corner(c, upper));
    assert forall|cell: Vector|
        #![trigger touches_corner(cell, upper)]
        touches_corner(cell, upper) && in_front(direction, cell) implies cell == direction.step()
        || cell == a || cell == b || cell == c by {
        lemma_corners_are_shaded_by_what_touches_them(direction, upper, cell);
    }
}

/// The light at a corner of a face is that of the brightest block in front of the face
/// that touches the corner.
pub proof fn lemma_corner_light_is_the_brightest(
    context: MeshContext,
    x: int,
    y: int,
    z: int,
    direction: Direction,
    upper: [bool; 3],
)
    requires
        on_face(direction, upper),
    ensures
        ({
            let light = corner_light(context, x, y, z, direction, upper);
            &&& forall|cell: Vector|
                #![trigger touches_corner(cell, upper)]
                touches_corner(cell, upper) && in_front(direction, cell) ==> light_at(
                    context.chunks,
                    context.geometry,
                    x + cell.0,
                    y + cell.1,
                    z + cell.2,
                ) <= light
            &&& exists|cell: Vector|
                #![trigger touches_corner(cell, upper)]
                touches_corner(cell, upper) && in_front(direction, cell) && light_at(
                    context.chunks,
                    context.geometry,
                    x + cell.0,
                    y + cell.1,
                    z + cell.2,
                ) == light
        }),
{
    let (a, b, c) = corner_cells(direction, upper);
    let front = direction.step();
    lemma_corners_are_shaded_by_what_touches_them(direction, upper, front);
    lemma_corners_are_shaded_by_what_touches_them(direction, upper, a);
    lemma_corners_are_shaded_by_what_touches_them(direction, upper, b);
    lemma_corners_are_shaded_by_what_touches_them(direction, upper, c);
    assert(touches_corner(front, upper) && touches_corner(a, upper) && touches_corner(b, upper)
        && touches_corner(c, upper));
    assert forall|cell: Vector|
        #![trigger touches_corner(cell, upper)]
        touches_corner(cell, upper) && in_front(direction, cell) implies light_at(
        context.chunks,
        context.geometry,
        x + cell.0,
        y + cell.1,
        z + cell.2,
    ) <= corner_light(context, x, y, z, direction, upper) by {
        lemma_corners_are_shaded_by_what_touches_them(direction, upper, cell);
    }
}

/// In a colour map of 256 rows of 256 entries, the colour of a climate is the entry in
/// its row and its column.
pub proof fn lemma_climate_has_its_row_and_column(
    map: spec_fn(int, int) -> u32,
    colors: Seq<u32>,
    biome: RuntimeBiome,
)
    requires
        colors.len() == 256 * 256,
        forall|k: int| 0 <= k < colors.len() ==> #[trigger] colors[k] == map(k / 256, k % 256),
    ensures
        climate_spec(colors, biome) == map(biome.climate_row as int, biome.climate_column as int),
{
    let k = 256 * biome.climate_row as int + biome.climate_column as int;
    assert(colors[k] == map(k / 256, k % 256));
}

/// A colour is made of its red, its green and its blue, of eight bits each, from the
/// highest to the lowest.
pub proof fn lemma_colors_have_three_channels(color: u32, r: int, g: int, b: int)
    requires
        color <= 0xff_ffff,
        0 <= r < 256,
        0 <= g < 256,
        0 <= b < 256,
    ensures
        color == 256 * (256 * red(color) + green(color)) + blue(color),
        0 <= red(color) < 256,
        0 <= green(color) < 256,
        0 <= blue(color) < 256,
        0 <= color_of(r, g, b) <= 0xff_ffff,
        red(color_of(r, g, b) as u32) == r,
        green(color_of(r, g, b) as u32) == g,
        blue(color_of(r, g, b) as u32) == b,
{
    let c = color as int;
    assert(c / 0x100 == 256 * (c / 0x1_0000) + (c / 0x100) % 256);
    assert(c / 0x1_0000 < 256);
    lemma_channels_of_sum(r, g, b);
}

proof fn lemma_channels_of_sum(r: int, g: int, b: int)
    requires
        0 <= r < 256,
        0 <= g < 256,
        0 <= b < 256,
    ensures
        0 <= color_of(r, g, b) <= 0xff_ffff,
        red(color_of(r, g, b) as u32) == r,
        green(color_of(r, g, b) as u32) == g,
        blue(color_of(r, g, b) as u32) == b,
{
    let c = r * 0x1_0000 + g * 0x100 + b;
    assert(c / 0x1_0000 == r);
    assert(c / 0x100 == r * 256 + g);
}

/// A biome that has a colour of its own for a plant shows it, whatever its climate, and
/// water always has the colour of the biome.
pub proof fn lemma_own_colors_come_first(
    climate: ClimateColors,
    other: ClimateColors,
    biome: RuntimeBiome,
    x: i32,
    z: i32,
)
    ensures
        biome.foliage_color matches Some(color) ==> biome_color(
            climate,
            biome,
            TintKind::Foliage,
            x,
            z,
        ) == color,
        biome.dry_foliage_color matches Some(color) ==> biome_color(
            climate,
            biome,
            TintKind::DryFoliage,
            x,
            z,
        ) == color,
        biome.grass_color is Some && biome.grass_color_modifier is Unmodified ==> biome_color(
            climate,
            biome,
            TintKind::Grass,
            x,
            z,
        ) == biome.grass_color->Some_0,
        biome.grass_color is Some ==> biome_color(climate, biome, TintKind::Grass, x, z)
            == biome_color(other, biome, TintKind::Grass, x, z),
        biome_color(climate, biome, TintKind::Water, x, z) == biome.water_color,
{
}

/// A plant without a colour of its own has that of its own map of climates.
pub proof fn lemma_plants_have_maps_of_their_own(
    climate: ClimateColors,
    biome: RuntimeBiome,
    x: i32,
    z: i32,
    map: spec_fn(int, int) -> u32,
    colors: Seq<u32>,
)
    requires
        colors.len() == 256 * 256,
        forall|k: int| 0 <= k < colors.len() ==> #[trigger] colors[k] == map(k / 256, k % 256),
    ensures
        biome.foliage_color is None && climate.foliage@ == colors ==> biome_color(
            climate,
            biome,
            TintKind::Foliage,
            x,
            z,
        ) == map(biome.climate_row as int, biome.climate_column as int),
        biome.dry_foliage_color is None && climate.dry_foliage@ == colors ==> biome_color(
            climate,
            biome,
            TintKind::DryFoliage,
            x,
            z,
        ) == map(biome.climate_row as int, biome.climate_column as int),
        biome.grass_color is None && biome.grass_color_modifier is Unmodified && climate.grass@
            == colors ==> biome_color(climate, biome, TintKind::Grass, x, z) == map(
            biome.climate_row as int,
            biome.climate_column as int,
        ),
{
    lemma_climate_has_its_row_and_column(map, colors, biome);
}

/// Grass in a dark forest is the mean of what it would be elsewhere and the dark green
/// 0x283e16, channel by channel; in a swamp it is one of two greens, by the noise of the
/// column, whatever the biome has otherwise.
pub proof fn lemma_grass_is_changed_by_its_biome(
    climate: ClimateColors,
    biome: RuntimeBiome,
    plain: RuntimeBiome,
    x: i32,
    z: i32,
)
    requires
        plain == (RuntimeBiome {
            grass_color_modifier: GrassColorModifier::Unmodified,
            ..biome
        }),
    ensures
        ({
            let shown = grass_spec(climate, biome, x, z) as u32;
            let before = grass_spec(climate, plain, x, z) as u32;
            &&& 0 <= grass_spec(climate, biome, x, z) <= u32::MAX
            &&& biome.grass_color_modifier is DarkForest ==> {
                &&& 2 * red(shown) == red(before) - red(before) % 2 + 0x28
                &&& 2 * green(shown) == green(before) - green(before) % 2 + 0x3e
                &&& 2 * blue(shown) == blue(before) - blue(before) % 2 + 0x16
                &&& shown <= 0xff_ffff
            }
            &&& biome.grass_color_modifier is Swamp ==> shown == (if column_noise(x, z) < 0 {
                0x4c763cu32
            } else {
                0x6a7039u32
            })
        }),
{
    let base = or_climate(biome.grass_color, climate.grass@, biome);
    if biome.grass_color_modifier is DarkForest {
        let (r, g, b) = (red(base) / 2 + 20, green(base) / 2 + 31, blue(base) / 2 + 11);
        lemma_colors_have_three_channels(0, r, g, b);
    }
}

/// The column at a distance from a block, in the order in which columns are blended.
proof fn lemma_columns_cover_the_square(dx: int, dz: int)
    requires
        -2 <= dx <= 2,
        -2 <= dz <= 2,
    ensures
        ({
            let k = (dz + 2) * 5 + dx + 2;
            &&& 0 <= k < 25
            &&& k % 5 - 2 == dx
            &&& k / 5 - 2 == dz
        }),
{
}

/// The tint of a block blends the square of columns within two blocks: where only one of
/// them has a biome, the block has its colour, whichever it is.
pub proof fn lemma_each_near_column_gives_its_color(
    context: MeshContext,
    kind: TintKind,
    x: int,
    y: int,
    z: int,
    dx: int,
    dz: int,
    biome: RuntimeBiome,
)
    requires
        kind !is Untinted,
        kind !is Fixed,
        -2 <= dx <= 2,
        -2 <= dz <= 2,
        registered_biome(context, x + dx, y, z + dz) == Some(biome),
        forall|ex: int, ez: int|
            -2 <= ex <= 2 && -2 <= ez <= 2 && (ex, ez) != (dx, dz) ==> #[trigger] registered_biome(
                context,
                x + ex,
                y,
                z + ez,
            ) is None,
        0 <= biome_color(*context.climate, biome, kind, (x + dx) as i32, (z + dz) as i32)
            <= 0xff_ffff,
    ensures
        tint_spec(context, kind, x, y, z) == biome_color(
            *context.climate,
            biome,
            kind,
            (x + dx) as i32,
            (z + dz) as i32,
        ),
{
    let color = biome_color(*context.climate, biome, kind, (x + dx) as i32, (z + dz) as i32);
    lemma_columns_cover_the_square(dx, dz);
    let place = (dz + 2) * 5 + dx + 2;
    assert(x + place % 5 - 2 == x + dx);
    assert(z + place / 5 - 2 == z + dz);
    assert(column_tint(context, kind, x, y, z, place) == Some(color));
    assert forall|k: int|
        0 <= k < 25 && #[trigger] column_tint(context, kind, x, y, z, k) is Some implies column_tint(
        context,
        kind,
        x,
        y,
        z,
        k,
    ) == Some(color) by {
        let ex = k % 5 - 2;
        let ez = k / 5 - 2;
        assert(x + k % 5 - 2 == x + ex);
        assert(z + k / 5 - 2 == z + ez);
        if (ex, ez) != (dx, dz) {
            assert(registered_biome(context, x + ex, y, z + ez) is None);
        } else {
            assert(k == place);
        }
    }
    lemma_uniform_tint_is_kept(context, kind, x, y, z, color as u32);
}

/// Where no column within two blocks has a biome, the tint is that of the kind alone, and
/// a block without a tint, or with a fixed one, does not ask for biomes.
pub proof fn lemma_tint_without_biomes(context: MeshContext, kind: TintKind, x: int, y: int, z: int)
    ensures
        kind is Untinted ==> tint_spec(context, kind, x, y, z) == 0xff_ffff,
        kind matches TintKind::Fixed(color) ==> tint_spec(context, kind, x, y, z) == color,
        (kind !is Untinted && kind !is Fixed && forall|ex: int, ez: int|
            -2 <= ex <= 2 && -2 <= ez <= 2 ==> #[trigger] registered_biome(
                context,
                x + ex,
                y,
                z + ez,
            ) is None) ==> tint_spec(context, kind, x, y, z) == default_tint(kind),
{
    if forall|ex: int, ez: int|
        -2 <= ex <= 2 && -2 <= ez <= 2 ==> #[trigger] registered_biome(
            context,
            x + ex,
            y,
            z + ez,
        ) is None {
        assert forall|k: int| 0 <= k < 25 implies #[trigger] column_tint(
            context,
            kind,
            x,
            y,
            z,
            k,
        ) is None by {
            let ex = k % 5 - 2;
            let ez = k / 5 - 2;
            assert(x + k % 5 - 2 == x + ex);
            assert(z + k / 5 - 2 == z + ez);
            assert(registered_biome(context, x + ex, y, z + ez) is None);
        }
        lemma_blend_of_one_color(context, kind, x, y, z, 0, 25);
    }
}

/// A channel of a colour: red, green or blue.
spec fn channel(color: u32, which: int) -> int {
    if which == 0 {
        red(color)
    } else if which == 1 {
        green(color)
    } else {
        blue(color)
    }
}

spec fn part(sums: (int, int, int, int), which: int) -> int {
    if which == 0 {
        sums.0
    } else if which == 1 {
        sums.1
    } else {
        sums.2
    }
}

proof fn lemma_blend_lies_between(
    context: MeshContext,
    kind: TintKind,
    x: int,
    y: int,
    z: int,
    which: int,
    low: int,
    high: int,
    count: int,
)
    requires
        0 <= count <= 25,
        forall|k: int|
            0 <= k < count ==> (#[trigger] column_tint(context, kind, x, y, z, k) matches Some(color)
                ==> low <= channel(color as u32, which) <= high),
    ensures
        ({
            let sums = blended(context, kind, x, y, z, count);
            &&& low * sums.3 <= part(sums, which) <= high * sums.3
            &&& 0 <= sums.3
        }),
    decreases count,
{
    if count > 0 {
        lemma_blend_lies_between(context, kind, x, y, z, which, low, high, count - 1);
        let n = blended(context, kind, x, y, z, count - 1).3;
        assert(low * (n + 1) == low * n + low) by (nonlinear_arith);
        assert(high * (n + 1) == high * n + high) by (nonlinear_arith);
        let last = column_tint(context, kind, x, y, z, count - 1);
        assert(x + (count - 1) % 5 - 2 == x + (count - 1) % 5 - 2);
    } else {
        assert(low * 0 == 0 && high * 0 == 0) by (nonlinear_arith);
    }
}

/// Each channel of a blended tint lies between the smallest and the largest of that
/// channel among the columns within two blocks.
pub proof fn lemma_tint_lies_between_its_columns(
    context: MeshContext,
    kind: TintKind,
    x: int,
    y: int,
    z: int,
    low: (int, int, int),
    high: (int, int, int),
)
    requires
        kind !is Untinted,
        kind !is Fixed,
        0 <= low.0 && high.0 < 256,
        0 <= low.1 && high.1 < 256,
        0 <= low.2 && high.2 < 256,
        exists|ex: int, ez: int|
            -2 <= ex <= 2 && -2 <= ez <= 2 && #[trigger] registered_biome(
                context,
                x + ex,
                y,
                z + ez,
            ) is Some,
        forall|ex: int, ez: int|
            -2 <= ex <= 2 && -2 <= ez <= 2 ==> (#[trigger] registered_biome(
                context,
                x + ex,
                y,
                z + ez,
            ) matches Some(biome) ==> {
                let color = biome_color(
                    *context.climate,
                    biome,
                    kind,
                    (x + ex) as i32,
                    (z + ez) as i32,
                ) as u32;
                &&& low.0 <= red(color) <= high.0
                &&& low.1 <= green(color) <= high.1
                &&& low.2 <= blue(color) <= high.2
            }),
    ensures
        ({
            let tint = tint_spec(context, kind, x, y, z);
            &&& 0 <= tint <= 0xff_ffff
            &&& low.0 <= red(tint as u32) <= high.0
            &&& low.1 <= green(tint as u32) <= high.1
            &&& low.2 <= blue(tint as u32) <= high.2
        }),
{
    assert forall|k: int| 0 <= k < 25 implies (#[trigger] column_tint(
        context,
        kind,
        x,
        y,
        z,
        k,
    ) matches Some(color) ==> low.0 <= channel(color as u32, 0) <= high.0 && low.1 <= channel(
        color as u32,
        1,
    ) <= high.1 && low.2 <= channel(color as u32, 2) <= high.2) by {
        let ex = k % 5 - 2;
        let ez = k / 5 - 2;
        assert(x + k % 5 - 2 == x + ex);
        assert(z + k / 5 - 2 == z + ez);
        let at = registered_biome(context, x + ex, y, z + ez);
    }
    lemma_blend_lies_between(context, kind, x, y, z, 0, low.0, high.0, 25);
    lemma_blend_lies_between(context, kind, x, y, z, 1, low.1, high.1, 25);
    lemma_blend_lies_between(context, kind, x, y, z, 2, low.2, high.2, 25);
    let (ex, ez) = choose|ex: int, ez: int|
        -2 <= ex <= 2 && -2 <= ez <= 2 && #[trigger] registered_biome(
            context,
            x + ex,
            y,
            z + ez,
        ) is Some;
    lemma_columns_cover_the_square(ex, ez);
    let place = (ez + 2) * 5 + ex + 2;
    assert(x + place % 5 - 2 == x + ex);
    assert(z + place / 5 - 2 == z + ez);
    assert(column_tint(context, kind, x, y, z, place) is Some);
    lemma_some_column_counts(context, kind, x, y, z, place, 25);
    let (r, g, b, n) = blended(context, kind, x, y, z, 25);
    lemma_mean_lies_between(r, n, low.0, high.0);
    lemma_mean_lies_between(g, n, low.1, high.1);
    lemma_mean_lies_between(b, n, low.2, high.2);
    lemma_colors_have_three_channels(0, r / n, g / n, b / n);
}

proof fn lemma_some_column_counts(
    context: MeshContext,
    kind: TintKind,
    x: int,
    y: int,
    z: int,
    k: int,
    count: int,
)
    requires
        0 <= k < count <= 25,
        column_tint(context, kind, x, y, z, k) is Some,
    ensures
        blended(context, kind, x, y, z, count).3 > 0,
    decreases count,
{
    lemma_blend_count(context, kind, x, y, z, count - 1);
    if k < count - 1 {
        lemma_some_column_counts(context, kind, x, y, z, k, count - 1);
    }
}

proof fn lemma_blend_count(context: MeshContext, kind: TintKind, x: int, y: int, z: int, count: int)
    ensures
        blended(context, kind, x, y, z, count).3 >= 0,
    decreases count,
{
    if count > 0 {
        lemma_blend_count(context, kind, x, y, z, count - 1);
    }
}

proof fn lemma_mean_lies_between(sum: int, count: int, low: int, high: int)
    requires
        count > 0,
        low * count <= sum <= high * count,
    ensures
        low <= sum / count <= high,
{
    assert(low <= sum / count <= high) by (nonlinear_arith)
        requires
            count > 0,
            low * count <= sum <= high * count,
    ;
}

/// A biome counts only where it is loaded and stands in the list under its own number.
pub proof fn lemma_biomes_count_under_their_number(context: MeshContext, x: int, y: int, z: int)
    ensures
        registered_biome(context, x, y, z) matches Some(biome) ==> biome_id_at(
            context.chunks,
            context.geometry,
            x,
            y,
            z,
        ) == Some(biome.raw_id) && context.biomes@.contains(biome),
        forall|i: int|
            0 <= i < context.biomes@.len() && (#[trigger] context.biomes@[i]).raw_id == i
                && biome_id_at(context.chunks, context.geometry, x, y, z) == Some(
                context.biomes@[i].raw_id,
            ) ==> registered_biome(context, x, y, z) == Some(context.biomes@[i]),
{
}

/// The top of a block is fully bright, its bottom half as bright, and the sides lie
/// between, north and south before east and west.
pub proof fn lemma_light_falls_from_above(direction: Direction)
    ensures
        face_shade(direction) <= 10,
        face_shade(direction) == 10 <==> direction is Up,
        2 * face_shade(Direction::Down) == face_shade(Direction::Up),
        direction !is Down ==> face_shade(direction) > face_shade(Direction::Down),
        direction is North || direction is South ==> face_shade(direction) == 8,
        direction is East || direction is West ==> face_shade(direction) == 6,
{
}

} // verus!
