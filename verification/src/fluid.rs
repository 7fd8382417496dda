//! Surfaces and sides of fluid blocks.

use crate::direction::Direction;
use crate::grid::{block_at, larger, light_at, sample_light};
use crate::resources::{
    FluidKind, FluidState, ModelApplication, RenderLayer, StateModels, TintKind,
    WeightedApplications,
};
use crate::selection::{
    has_opaque_face, select_model, selected, selected_from, shows_opaque_face,
};
use crate::shading::{interior_block, is_occluding, models_at, occludes, MeshContext};
use crate::variant_random::{position_hash, ModelVariantRandom, MASK, MULTIPLIER};
use vstd::prelude::*;

verus! {

/// How far the faces of a fluid are kept from the faces of blocks, in thousandths of
/// a block.
pub const FLUID_FACE_EPSILON: u32 = 1;

/// A direction that is neither up nor down.
pub open spec fn is_side(direction: Direction) -> bool {
    !(direction is Up) && !(direction is Down)
}

/// Whether a face of a fluid is seen from both sides: those at the sides of its
/// block are, the top and the bottom are not.
pub fn is_two_sided(direction: Direction) -> (yes: bool)
    ensures
        yes == is_side(direction),
{
    match direction {
        Direction::Up | Direction::Down => false,
        _ => true,
    }
}

/// The height of a fluid in its block, in ninths: eight for a source and for
/// falling fluid, and less by one for each level. This is the rule of this library,
/// which states nothing of the heights that other crates give their fluids.
pub open spec fn own_ninths(fluid: FluidState) -> int {
    if fluid.falling || fluid.level == 0 {
        8
    } else if fluid.level < 8 {
        8 - fluid.level
    } else {
        0
    }
}

impl FluidState {
    pub fn own_height(self) -> (ninths: i32)
        ensures
            ninths == own_ninths(self),
            0 <= ninths <= 8,
    {
        if self.falling || self.level == 0 {
            8
        } else if self.level < 8 {
            8 - self.level as i32
        } else {
            0
        }
    }
}

pub open spec fn fluid_of(context: MeshContext, x: int, y: int, z: int) -> Option<FluidState> {
    match models_at(context, x, y, z) {
        Some(models) => models.fluid,
        None => None,
    }
}

pub fn fluid_at(context: MeshContext, x: i32, y: i32, z: i32) -> (fluid: Option<FluidState>)
    ensures
        fluid == fluid_of(context, x as int, y as int, z as int),
{
    match block_at(context.chunks, context.geometry, x, y, z) {
        Some(state) => context.states.state(state).fluid,
        None => None,
    }
}

pub open spec fn is_fluid(context: MeshContext, kind: FluidKind, x: int, y: int, z: int) -> bool {
    match fluid_of(context, x, y, z) {
        Some(fluid) => fluid.kind == kind,
        None => false,
    }
}

pub fn same_fluid(context: MeshContext, kind: FluidKind, x: i32, y: i32, z: i32) -> (yes: bool)
    ensures
        yes == is_fluid(context, kind, x as int, y as int, z as int),
{
    match fluid_at(context, x, y, z) {
        Some(fluid) => fluid.kind == kind,
        None => false,
    }
}

/// The height that a block contributes to a fluid's surface, in ninths: the
/// whole block below more of the fluid, the fluid's own height at its surface,
/// minus one for a solid block, which contributes nothing, and else zero.
pub open spec fn sample_ninths(context: MeshContext, kind: FluidKind, x: int, y: int, z: int) -> int {
    match fluid_of(context, x, y, z) {
        Some(fluid) if fluid.kind == kind => if is_fluid(context, kind, x, y + 1, z) {
            9
        } else {
            own_ninths(fluid)
        },
        _ => match models_at(context, x, y, z) {
            Some(models) if models.fluid_surface_solid => -1,
            _ => 0,
        },
    }
}

pub fn fluid_sample_height(context: MeshContext, kind: FluidKind, x: i32, y: i32, z: i32) -> (ninths:
    i32)
    requires
        y < i32::MAX,
    ensures
        ninths == sample_ninths(context, kind, x as int, y as int, z as int),
        -1 <= ninths <= 9,
{
    match fluid_at(context, x, y, z) {
        Some(fluid) => if fluid.kind == kind {
            return if same_fluid(context, kind, x, y + 1, z) {
                9
            } else {
                fluid.own_height()
            };
        },
        None => {},
    }
    match block_at(context.chunks, context.geometry, x, y, z) {
        Some(state) => if context.states.state(state).fluid_surface_solid {
            -1
        } else {
            0
        },
        None => 0,
    }
}

/// A height as a fraction of a block.
#[derive(Clone, Copy, Debug, PartialEq, Eq, Structural)]
pub struct SurfaceHeight {
    pub numerator: u32,
    pub denominator: u32,
}

impl SurfaceHeight {
    /// Between the bottom and the top of the block.
    pub open spec fn in_block(self) -> bool {
        0 < self.denominator && self.numerator <= self.denominator
    }
}

pub open spec fn full_height() -> SurfaceHeight {
    SurfaceHeight { numerator: 1, denominator: 1 }
}

/// The weight of a sample: none below zero, ten at eight ninths and above.
pub open spec fn sample_weight(sample: Option<i32>) -> int {
    match sample {
        Some(ninths) => if ninths < 0 {
            0
        } else if ninths >= 8 {
            10
        } else {
            1
        },
        None => 0,
    }
}

pub open spec fn sample_value(sample: Option<i32>) -> int {
    match sample {
        Some(ninths) => ninths as int,
        None => 0,
    }
}

/// The weighted mean of four samples, zero where none has weight.
pub open spec fn weighted_height(
    a: Option<i32>,
    b: Option<i32>,
    c: Option<i32>,
    d: Option<i32>,
) -> SurfaceHeight {
    let weight = sample_weight(a) + sample_weight(b) + sample_weight(c) + sample_weight(d);
    let total = sample_value(a) * sample_weight(a) + sample_value(b) * sample_weight(b)
        + sample_value(c) * sample_weight(c) + sample_value(d) * sample_weight(d);
    if weight == 0 {
        SurfaceHeight { numerator: 0, denominator: 1 }
    } else {
        SurfaceHeight { numerator: total as u32, denominator: (9 * weight) as u32 }
    }
}

pub open spec fn sample_in_range(sample: Option<i32>) -> bool {
    sample matches Some(ninths) ==> -1 <= ninths <= 9
}

fn weigh(sample: Option<i32>) -> (weighed: (u32, u32))
    requires
        sample_in_range(sample),
    ensures
        weighed.0 == sample_value(sample) * sample_weight(sample),
        weighed.1 == sample_weight(sample),
        weighed.0 <= 9 * weighed.1,
        weighed.1 <= 10,
{
    match sample {
        Some(ninths) => if ninths < 0 {
            (0, 0)
        } else if ninths >= 8 {
            (ninths as u32 * 10, 10)
        } else {
            (ninths as u32, 1)
        },
        None => (0, 0),
    }
}

pub fn weighted_fluid_height(samples: [Option<i32>; 4]) -> (height: SurfaceHeight)
    requires
        sample_in_range(samples@[0]),
        sample_in_range(samples@[1]),
        sample_in_range(samples@[2]),
        sample_in_range(samples@[3]),
    ensures
        height == weighted_height(samples@[0], samples@[1], samples@[2], samples@[3]),
        height.in_block(),
{
    let (a_total, a_weight): (u32, u32) = weigh(samples[0]);
    let (b_total, b_weight): (u32, u32) = weigh(samples[1]);
    let (c_total, c_weight): (u32, u32) = weigh(samples[2]);
    let (d_total, d_weight): (u32, u32) = weigh(samples[3]);
    let total: u32 = a_total + b_total + c_total + d_total;
    let weight: u32 = a_weight + b_weight + c_weight + d_weight;
    if weight == 0 {
        SurfaceHeight { numerator: 0, denominator: 1 }
    } else {
        SurfaceHeight { numerator: total, denominator: 9 * weight }
    }
}

/// The height of a fluid at a corner of its block: the top of the block where a
/// neighbour along either edge is full, and else the weighted mean of the block,
/// those two neighbours, and the one across where either of the two has fluid.
pub open spec fn corner_height(
    context: MeshContext,
    kind: FluidKind,
    x: int,
    y: int,
    z: int,
    ox: int,
    oz: int,
) -> SurfaceHeight {
    let along_x = sample_ninths(context, kind, x + ox, y, z);
    let along_z = sample_ninths(context, kind, x, y, z + oz);
    if along_x >= 9 || along_z >= 9 {
        full_height()
    } else {
        weighted_height(
            Some(sample_ninths(context, kind, x, y, z) as i32),
            Some(along_x as i32),
            Some(along_z as i32),
            if along_x > 0 || along_z > 0 {
                Some(sample_ninths(context, kind, x + ox, y, z + oz) as i32)
            } else {
                None
            },
        )
    }
}

pub fn fluid_corner_height(
    context: MeshContext,
    kind: FluidKind,
    x: i32,
    y: i32,
    z: i32,
    x_offset: i32,
    z_offset: i32,
) -> (height: SurfaceHeight)
    requires
        interior_block(x as int, y as int, z as int),
        -1 <= x_offset <= 1,
        -1 <= z_offset <= 1,
    ensures
        height == corner_height(
            context,
            kind,
            x as int,
            y as int,
            z as int,
            x_offset as int,
            z_offset as int,
        ),
        height.in_block(),
{
    let center: i32 = fluid_sample_height(context, kind, x, y, z);
    let along_x: i32 = fluid_sample_height(context, kind, x + x_offset, y, z);
    let along_z: i32 = fluid_sample_height(context, kind, x, y, z + z_offset);
    if along_x >= 9 || along_z >= 9 {
        return SurfaceHeight { numerator: 1, denominator: 1 };
    }
    let diagonal: Option<i32> = if along_x > 0 || along_z > 0 {
        Some(fluid_sample_height(context, kind, x + x_offset, y, z + z_offset))
    } else {
        None
    };
    weighted_fluid_height([Some(center), Some(along_x), Some(along_z), diagonal])
}

/// The heights at the four corners of a fluid block, in the order north-west,
/// south-west, south-east, north-east; all full below more of the fluid.
pub open spec fn surface_heights(context: MeshContext, kind: FluidKind, x: int, y: int, z: int) -> (
    SurfaceHeight,
    SurfaceHeight,
    SurfaceHeight,
    SurfaceHeight,
) {
    if sample_ninths(context, kind, x, y, z) >= 9 {
        (full_height(), full_height(), full_height(), full_height())
    } else {
        (
            corner_height(context, kind, x, y, z, -1, -1),
            corner_height(context, kind, x, y, z, -1, 1),
            corner_height(context, kind, x, y, z, 1, 1),
            corner_height(context, kind, x, y, z, 1, -1),
        )
    }
}

pub fn fluid_surface_heights(context: MeshContext, kind: FluidKind, x: i32, y: i32, z: i32) -> (heights: (
    SurfaceHeight,
    SurfaceHeight,
    SurfaceHeight,
    SurfaceHeight,
))
    requires
        interior_block(x as int, y as int, z as int),
    ensures
        heights == surface_heights(context, kind, x as int, y as int, z as int),
        heights.0.in_block() && heights.1.in_block() && heights.2.in_block()
            && heights.3.in_block(),
{
    if fluid_sample_height(context, kind, x, y, z) >= 9 {
        let full: SurfaceHeight = SurfaceHeight { numerator: 1, denominator: 1 };
        return (full, full, full, full);
    }
    (
        fluid_corner_height(context, kind, x, y, z, -1, -1),
        fluid_corner_height(context, kind, x, y, z, -1, 1),
        fluid_corner_height(context, kind, x, y, z, 1, 1),
        fluid_corner_height(context, kind, x, y, z, 1, -1),
    )
}

/// How much higher a fluid stands than its neighbour in a direction, in ninths.
/// Beside an open block that has the fluid below it, the neighbour counts as a
/// source's height lower; beside any other block nothing flows.
pub open spec fn drop_toward(
    context: MeshContext,
    kind: FluidKind,
    height: int,
    x: int,
    y: int,
    z: int,
) -> int {
    match fluid_of(context, x, y, z) {
        Some(neighbor) if neighbor.kind == kind => height - own_ninths(neighbor),
        _ => if occludes(context, x, y, z) {
            0
        } else {
            match fluid_of(context, x, y - 1, z) {
                Some(below) if below.kind == kind => height - (own_ninths(below) - 8),
                _ => 0,
            }
        },
    }
}

/// The horizontal flow of a fluid at its surface, in ninths: toward each side by
/// the drop to it.
pub open spec fn surface_flow(context: MeshContext, kind: FluidKind, x: int, y: int, z: int) -> (
    int,
    int,
) {
    match fluid_of(context, x, y, z) {
        Some(center) if center.kind == kind => {
            let height = own_ninths(center);
            (
                drop_toward(context, kind, height, x + 1, y, z) - drop_toward(
                    context,
                    kind,
                    height,
                    x - 1,
                    y,
                    z,
                ),
                drop_toward(context, kind, height, x, y, z + 1) - drop_toward(
                    context,
                    kind,
                    height,
                    x,
                    y,
                    z - 1,
                ),
            )
        },
        _ => (0, 0),
    }
}

fn flow_drop(context: MeshContext, kind: FluidKind, height: i32, x: i32, y: i32, z: i32) -> (drop: i32)
    requires
        0 <= height <= 8,
        y > i32::MIN,
    ensures
        drop == drop_toward(context, kind, height as int, x as int, y as int, z as int),
        -8 <= drop <= 16,
{
    match fluid_at(context, x, y, z) {
        Some(neighbor) => if neighbor.kind == kind {
            return height - neighbor.own_height();
        },
        None => {},
    }
    if is_occluding(context, x, y, z) {
        return 0;
    }
    match fluid_at(context, x, y - 1, z) {
        Some(below) => if below.kind == kind {
            height - (below.own_height() - 8)
        } else {
            0
        },
        None => 0,
    }
}

pub fn fluid_surface_flow(context: MeshContext, kind: FluidKind, x: i32, y: i32, z: i32) -> (flow: (
    i32,
    i32,
))
    requires
        interior_block(x as int, y as int, z as int),
    ensures
        (flow.0 as int, flow.1 as int) == surface_flow(
            context,
            kind,
            x as int,
            y as int,
            z as int,
        ),
{
    let center: FluidState = match fluid_at(context, x, y, z) {
        Some(fluid) => fluid,
        None => return (0, 0),
    };
    if center.kind != kind {
        return (0, 0);
    }
    let height: i32 = center.own_height();
    let west: i32 = flow_drop(context, kind, height, x - 1, y, z);
    let east: i32 = flow_drop(context, kind, height, x + 1, y, z);
    let north: i32 = flow_drop(context, kind, height, x, y, z - 1);
    let south: i32 = flow_drop(context, kind, height, x, y, z + 1);
    (east - west, south - north)
}

/// The top is drawn with the flowing sprite exactly where the fluid flows.
pub fn fluid_top_uses_flowing_texture(flow: (i32, i32)) -> (yes: bool)
    ensures
        yes == (flow.0 != 0 || flow.1 != 0),
{
    flow.0 != 0 || flow.1 != 0
}

/// The corners, by index in the surface heights, at the left and the right end
/// of a side's top edge.
pub open spec fn side_corners(direction: Direction) -> (int, int) {
    match direction {
        Direction::North => (0, 3),
        Direction::South => (1, 2),
        Direction::West => (0, 1),
        Direction::East => (2, 3),
        Direction::Down | Direction::Up => (0, 0),
    }
}

pub fn fluid_side_height_indices(direction: Direction) -> (indices: [usize; 2])
    ensures
        (indices@[0] as int, indices@[1] as int) == side_corners(direction),
{
    match direction {
        Direction::North => [0, 3],
        Direction::South => [1, 2],
        Direction::West => [0, 1],
        Direction::East => [2, 3],
        Direction::Down | Direction::Up => [0, 0],
    }
}

/// Whether a side faces toward growing coordinates.
pub fn fluid_side_outward_is_positive(direction: Direction) -> (yes: bool)
    ensures
        yes == (direction == Direction::South || direction == Direction::East),
{
    match direction {
        Direction::South | Direction::East => true,
        _ => false,
    }
}

/// What is known of one side of a fluid block before its shape is clipped.
#[derive(Clone, Debug)]
pub enum FluidSide {
    /// More of the fluid lies beyond.
    SameFluid,
    /// The block beyond hides the whole side.
    Occluded,
    /// Only the solid boxes of these models may hide the side.
    Open { covers: Vec<usize> },
}

/// The generator state of the block at a position.
pub open spec fn seed_at(x: i32, y: i32, z: i32) -> int {
    ((((position_hash(x, y, z) >> 16u32) as u64) ^ MULTIPLIER) & MASK) as int
}

/// The boxes of the models that the parts from `from` on select and that show an
/// opaque face in a direction.
pub open spec fn covering_boxes(
    parts: Seq<WeightedApplications>,
    direction: Direction,
    seed: int,
    from: int,
) -> Seq<usize>
    decreases parts.len() - from,
{
    if from < 0 || from >= parts.len() {
        Seq::empty()
    } else {
        let (entry, state) = selected(parts[from], seed);
        let rest = covering_boxes(parts, direction, state, from + 1);
        match entry {
            Some(index) => {
                let model = parts[from].entries@[index].1;
                if has_opaque_face(model.faces@, direction) {
                    seq![model.boxes] + rest
                } else {
                    rest
                }
            },
            None => rest,
        }
    }
}

/// The side of a fluid block in a direction, where `wet` tells whether the side
/// has any height.
pub open spec fn side_is(
    side: FluidSide,
    context: MeshContext,
    kind: FluidKind,
    x: int,
    y: int,
    z: int,
    direction: Direction,
    wet: bool,
) -> bool {
    let step = direction.step();
    let (nx, ny, nz) = (x + step.0, y + step.1, z + step.2);
    if is_fluid(context, kind, nx, ny, nz) {
        side is SameFluid
    } else if !wet || occludes(context, nx, ny, nz) {
        side is Occluded
    } else {
        side matches FluidSide::Open { covers } && covers@ == (match models_at(
            context,
            nx,
            ny,
            nz,
        ) {
            Some(models) => covering_boxes(
                models.parts@,
                direction.opposite(),
                seed_at(nx as i32, ny as i32, nz as i32),
                0,
            ),
            None => Seq::empty(),
        })
    }
}

fn collect_covers(models: &StateModels, direction: Direction, x: i32, y: i32, z: i32) -> (covers: Vec<
    usize,
>)
    ensures
        covers@ == covering_boxes(models.parts@, direction, seed_at(x, y, z), 0),
{
    let mut random: ModelVariantRandom = ModelVariantRandom::at_position(x, y, z);
    let mut covers: Vec<usize> = Vec::new();
    let ghost all = covering_boxes(models.parts@, direction, seed_at(x, y, z), 0);
    let mut i: usize = 0;
    while i < models.parts.len()
        invariant
            i <= models.parts@.len(),
            random.well_formed(),
            all == covers@ + covering_boxes(
                models.parts@,
                direction,
                random.seed as int,
                i as int,
            ),
        decreases models.parts@.len() - i,
    {
        let ghost tail = covering_boxes(models.parts@, direction, random.seed as int, i as int);
        let ghost before = covers@;
        match select_model(&models.parts[i], &mut random) {
            Some(entry) => {
                if shows_opaque_face(&models.parts[i].entries[entry].1, direction) {
                    let boxes: usize = models.parts[i].entries[entry].1.boxes;
                    covers.push(boxes);
                    assert(before + (seq![boxes] + covering_boxes(
                        models.parts@,
                        direction,
                        random.seed as int,
                        i + 1,
                    )) =~= covers@ + covering_boxes(
                        models.parts@,
                        direction,
                        random.seed as int,
                        i + 1,
                    ));
                }
            },
            None => {},
        }
        i += 1;
    }
    assert(all =~= covers@);
    covers
}

pub fn plan_fluid_side(
    context: MeshContext,
    kind: FluidKind,
    x: i32,
    y: i32,
    z: i32,
    direction: Direction,
    wet: bool,
) -> (side: FluidSide)
    requires
        interior_block(x as int, y as int, z as int),
    ensures
        side_is(side, context, kind, x as int, y as int, z as int, direction, wet),
{
    let offset: [i32; 3] = direction.offset();
    let nx: i32 = x + offset[0];
    let ny: i32 = y + offset[1];
    let nz: i32 = z + offset[2];
    if same_fluid(context, kind, nx, ny, nz) {
        return FluidSide::SameFluid;
    }
    if !wet {
        return FluidSide::Occluded;
    }
    match block_at(context.chunks, context.geometry, nx, ny, nz) {
        Some(state) => {
            let models: &StateModels = context.states.state(state);
            if models.full_opaque_cube {
                FluidSide::Occluded
            } else {
                FluidSide::Open { covers: collect_covers(models, direction.reverse(), nx, ny, nz) }
            }
        },
        None => {
            let covers: Vec<usize> = Vec::new();
            assert(covers@ =~= Seq::<usize>::empty());
            FluidSide::Open { covers }
        },
    }
}

/// A fluid block as the mesher sees it, before its faces are clipped.
#[derive(Debug)]
pub struct FluidCell {
    pub x: i32,
    pub y: i32,
    pub z: i32,
    pub fluid: FluidState,
    pub heights: (SurfaceHeight, SurfaceHeight, SurfaceHeight, SurfaceHeight),
    pub flow: (i32, i32),
    pub top: bool,
    pub bottom: bool,
    pub north: FluidSide,
    pub south: FluidSide,
    pub west: FluidSide,
    pub east: FluidSide,
}

pub open spec fn any_wet(a: SurfaceHeight, b: SurfaceHeight) -> bool {
    a.numerator > 0 || b.numerator > 0
}

/// `cell` is the fluid block at a position: its top and its bottom are drawn
/// where no more of the fluid lies there.
pub open spec fn is_fluid_cell(cell: FluidCell, context: MeshContext, fluid: FluidState) -> bool {
    let (x, y, z) = (cell.x as int, cell.y as int, cell.z as int);
    let heights = surface_heights(context, fluid.kind, x, y, z);
    &&& cell.fluid == fluid
    &&& cell.heights == heights
    &&& (cell.flow.0 as int, cell.flow.1 as int) == surface_flow(context, fluid.kind, x, y, z)
    &&& cell.top == !is_fluid(context, fluid.kind, x, y + 1, z)
    &&& cell.bottom == !is_fluid(context, fluid.kind, x, y - 1, z)
    &&& side_is(
        cell.north,
        context,
        fluid.kind,
        x,
        y,
        z,
        Direction::North,
        any_wet(heights.0, heights.3),
    )
    &&& side_is(
        cell.south,
        context,
        fluid.kind,
        x,
        y,
        z,
        Direction::South,
        any_wet(heights.1, heights.2),
    )
    &&& side_is(
        cell.west,
        context,
        fluid.kind,
        x,
        y,
        z,
        Direction::West,
        any_wet(heights.0, heights.1),
    )
    &&& side_is(
        cell.east,
        context,
        fluid.kind,
        x,
        y,
        z,
        Direction::East,
        any_wet(heights.2, heights.3),
    )
}

/// What a fluid block shows.
pub fn push_fluid(context: MeshContext, x: i32, y: i32, z: i32, fluid: FluidState) -> (cell: FluidCell)
    requires
        interior_block(x as int, y as int, z as int),
    ensures
        cell.x == x && cell.y == y && cell.z == z,
        is_fluid_cell(cell, context, fluid),
{
    let kind: FluidKind = fluid.kind;
    let heights: (SurfaceHeight, SurfaceHeight, SurfaceHeight, SurfaceHeight) =
        fluid_surface_heights(context, kind, x, y, z);
    let flow: (i32, i32) = fluid_surface_flow(context, kind, x, y, z);
    let top: bool = !same_fluid(context, kind, x, y + 1, z);
    let bottom: bool = !same_fluid(context, kind, x, y - 1, z);
    let north: FluidSide = plan_fluid_side(
        context,
        kind,
        x,
        y,
        z,
        Direction::North,
        heights.0.numerator > 0 || heights.3.numerator > 0,
    );
    let south: FluidSide = plan_fluid_side(
        context,
        kind,
        x,
        y,
        z,
        Direction::South,
        heights.1.numerator > 0 || heights.2.numerator > 0,
    );
    let west: FluidSide = plan_fluid_side(
        context,
        kind,
        x,
        y,
        z,
        Direction::West,
        heights.0.numerator > 0 || heights.1.numerator > 0,
    );
    let east: FluidSide = plan_fluid_side(
        context,
        kind,
        x,
        y,
        z,
        Direction::East,
        heights.2.numerator > 0 || heights.3.numerator > 0,
    );
    FluidCell { x, y, z, fluid, heights, flow, top, bottom, north, south, west, east }
}

pub open spec fn fluid_layer(kind: FluidKind) -> RenderLayer {
    match kind {
        FluidKind::Water => RenderLayer::Translucent,
        FluidKind::Lava => RenderLayer::Opaque,
    }
}

pub open spec fn fluid_tint(kind: FluidKind) -> TintKind {
    match kind {
        FluidKind::Water => TintKind::Water,
        FluidKind::Lava => TintKind::Untinted,
    }
}

/// The name of a fluid's sprite.
pub open spec fn fluid_sprite(kind: FluidKind, flowing: bool) -> Seq<char> {
    match (kind, flowing) {
        (FluidKind::Water, false) => "minecraft:block/water_still"@,
        (FluidKind::Water, true) => "minecraft:block/water_flow"@,
        (FluidKind::Lava, false) => "minecraft:block/lava_still"@,
        (FluidKind::Lava, true) => "minecraft:block/lava_flow"@,
    }
}

/// The name of a fluid's sprite.
pub fn fluid_texture(kind: FluidKind, flowing: bool) -> (name: &'static str)
    ensures
        name@ == fluid_sprite(kind, flowing),
        name@ == (match (kind, flowing) {
            (FluidKind::Water, false) => "minecraft:block/water_still"@,
            (FluidKind::Water, true) => "minecraft:block/water_flow"@,
            (FluidKind::Lava, false) => "minecraft:block/lava_still"@,
            (FluidKind::Lava, true) => "minecraft:block/lava_flow"@,
        }),
{
    match kind {
        FluidKind::Water => if flowing {
            "minecraft:block/water_flow"
        } else {
            "minecraft:block/water_still"
        },
        FluidKind::Lava => if flowing {
            "minecraft:block/lava_flow"
        } else {
            "minecraft:block/lava_still"
        },
    }
}

/// The light of every face of a fluid block: full for lava, and for water the
/// brighter of the block and the one above it.
pub open spec fn fluid_light(context: MeshContext, kind: FluidKind, x: int, y: int, z: int) -> int {
    match kind {
        FluidKind::Lava => 15,
        FluidKind::Water => larger(
            light_at(context.chunks, context.geometry, x, y, z),
            light_at(context.chunks, context.geometry, x, y + 1, z),
        ),
    }
}

pub fn fluid_light_level(context: MeshContext, kind: FluidKind, x: i32, y: i32, z: i32) -> (level: u8)
    requires
        y < i32::MAX,
    ensures
        level == fluid_light(context, kind, x as int, y as int, z as int),
{
    match kind {
        FluidKind::Lava => 15,
        FluidKind::Water => {
            let here: u8 = sample_light(context.chunks, context.geometry, x, y, z);
            let above: u8 = sample_light(context.chunks, context.geometry, x, y + 1, z);
            if here >= above {
                here
            } else {
                above
            }
        },
    }
}

/// A fluid's surface lies within its block at every corner, whatever its
/// neighbours are.
pub proof fn lemma_surface_lies_in_block(
    context: MeshContext,
    kind: FluidKind,
    x: int,
    y: int,
    z: int,
    ox: int,
    oz: int,
)
    ensures
        corner_height(context, kind, x, y, z, ox, oz).in_block(),
{
    let along_x = sample_ninths(context, kind, x + ox, y, z);
    let along_z = sample_ninths(context, kind, x, y, z + oz);
    let center = sample_ninths(context, kind, x, y, z);
    let across = sample_ninths(context, kind, x + ox, y, z + oz);
    lemma_weighed(Some(center as i32));
    lemma_weighed(Some(along_x as i32));
    lemma_weighed(Some(along_z as i32));
    lemma_weighed(Some(across as i32));
}

proof fn lemma_weighed(sample: Option<i32>)
    requires
        sample_in_range(sample),
    ensures
        0 <= sample_value(sample) * sample_weight(sample) <= 9 * sample_weight(sample),
        0 <= sample_weight(sample) <= 10,
{
    let value = sample_value(sample);
    assert(value * 0 == 0 && value * 1 == value) by (nonlinear_arith);
}

/// A fluid under more of the same fluid fills its block.
pub proof fn lemma_covered_fluid_is_full(
    context: MeshContext,
    kind: FluidKind,
    x: int,
    y: int,
    z: int,
)
    requires
        is_fluid(context, kind, x, y, z),
        is_fluid(context, kind, x, y + 1, z),
    ensures
        surface_heights(context, kind, x, y, z) == (
            full_height(),
            full_height(),
            full_height(),
            full_height(),
        ),
{
}

/// The flow of a fluid among its own kind follows the slope: along each axis it is
/// the drop from the neighbour behind to the one ahead. A level fluid is still.
pub proof fn lemma_flow_follows_the_slope(
    context: MeshContext,
    kind: FluidKind,
    x: int,
    y: int,
    z: int,
)
    requires
        is_fluid(context, kind, x, y, z),
        is_fluid(context, kind, x + 1, y, z),
        is_fluid(context, kind, x - 1, y, z),
        is_fluid(context, kind, x, y, z + 1),
        is_fluid(context, kind, x, y, z - 1),
    ensures
        ({
            let height = |dx: int, dz: int| own_ninths(
                fluid_of(context, x + dx, y, z + dz)->Some_0,
            );
            surface_flow(context, kind, x, y, z) == (
                height(-1, 0) - height(1, 0),
                height(0, -1) - height(0, 1),
            )
        }),
{
}

/// The surfaces of two blocks of a fluid meet: next to each other along the x axis,
/// they have the same heights at the two corners that they share. This asks that
/// both have some height, and that of the two blocks beyond the shared corner either
/// both or none reach up to the fluid above, unless one of the two blocks does.
pub proof fn lemma_surfaces_meet(
    context: MeshContext,
    kind: FluidKind,
    x: int,
    y: int,
    z: int,
    side: int,
)
    requires
        side == 1 || side == -1,
        sample_ninths(context, kind, x, y, z) > 0,
        sample_ninths(context, kind, x + 1, y, z) > 0,
        sample_ninths(context, kind, x, y, z) >= 9 || sample_ninths(context, kind, x + 1, y, z)
            >= 9 || (sample_ninths(context, kind, x, y, z + side) >= 9) == (sample_ninths(
            context,
            kind,
            x + 1,
            y,
            z + side,
        ) >= 9),
    ensures
        ({
            let here = surface_heights(context, kind, x, y, z);
            let there = surface_heights(context, kind, x + 1, y, z);
            if side == 1 {
                here.2 == there.1
            } else {
                here.3 == there.0
            }
        }),
{
    let a = Some(sample_ninths(context, kind, x, y, z) as i32);
    let b = Some(sample_ninths(context, kind, x + 1, y, z) as i32);
    let c = Some(sample_ninths(context, kind, x, y, z + side) as i32);
    let d = Some(sample_ninths(context, kind, x + 1, y, z + side) as i32);
    assert(x + 1 - 1 == x);
    assert(weighted_height(a, b, c, d) == weighted_height(b, a, d, c));
}

/// The surfaces of two blocks of a fluid meet along the z axis as they do along the
/// x axis.
pub proof fn lemma_surfaces_meet_along_z(
    context: MeshContext,
    kind: FluidKind,
    x: int,
    y: int,
    z: int,
    side: int,
)
    requires
        side == 1 || side == -1,
        sample_ninths(context, kind, x, y, z) > 0,
        sample_ninths(context, kind, x, y, z + 1) > 0,
        sample_ninths(context, kind, x, y, z) >= 9 || sample_ninths(context, kind, x, y, z + 1)
            >= 9 || (sample_ninths(context, kind, x + side, y, z) >= 9) == (sample_ninths(
            context,
            kind,
            x + side,
            y,
            z + 1,
        ) >= 9),
    ensures
        ({
            let here = surface_heights(context, kind, x, y, z);
            let there = surface_heights(context, kind, x, y, z + 1);
            if side == 1 {
                here.2 == there.3
            } else {
                here.1 == there.0
            }
        }),
{
    let a = Some(sample_ninths(context, kind, x, y, z) as i32);
    let b = Some(sample_ninths(context, kind, x, y, z + 1) as i32);
    let c = Some(sample_ninths(context, kind, x + side, y, z) as i32);
    let d = Some(sample_ninths(context, kind, x + side, y, z + 1) as i32);
    assert(z + 1 - 1 == z);
    assert(weighted_height(a, c, b, d) == weighted_height(b, d, a, c));
}

/// A source and falling fluid stand eight ninths high, every level more is one ninth
/// less, and from the eighth level on nothing is left.
pub proof fn lemma_fluid_is_lower_by_level(fluid: FluidState, next: FluidState)
    requires
        !fluid.falling,
        !next.falling,
        next.level == fluid.level + 1,
    ensures
        fluid.level == 0 ==> own_ninths(fluid) == 8,
        own_ninths(FluidState { falling: true, ..fluid }) == 8,
        next.level <= 8 ==> own_ninths(next) == own_ninths(fluid) - 1,
        next.level > 8 ==> own_ninths(next) == 0,
{
}

/// What a block adds to the surface of a fluid: all of its height where more of the
/// fluid is above it, which is more than a source; the height of the fluid where not;
/// nothing, and with no weight, where it is solid; and an empty height where it is
/// open.
pub proof fn lemma_surface_is_made_of_what_is_there(
    context: MeshContext,
    kind: FluidKind,
    x: int,
    y: int,
    z: int,
)
    ensures
        ({
            let sample = sample_ninths(context, kind, x, y, z);
            &&& sample == 9 <==> is_fluid(context, kind, x, y, z) && is_fluid(
                context,
                kind,
                x,
                y + 1,
                z,
            )
            &&& is_fluid(context, kind, x, y, z) && !is_fluid(context, kind, x, y + 1, z) ==> sample
                == own_ninths(fluid_of(context, x, y, z)->Some_0)
            &&& sample < 0 <==> !is_fluid(context, kind, x, y, z) && (models_at(
                context,
                x,
                y,
                z,
            ) matches Some(models) && models.fluid_surface_solid)
            &&& !is_fluid(context, kind, x, y, z) && sample >= 0 ==> sample == 0
        }),
{
}

/// A weighted height does not depend on the order of its samples, and a solid sample,
/// or none, takes no part in it.
pub proof fn lemma_samples_have_no_order(
    a: Option<i32>,
    b: Option<i32>,
    c: Option<i32>,
    d: Option<i32>,
)
    ensures
        weighted_height(a, b, c, d) == weighted_height(b, a, c, d),
        weighted_height(a, b, c, d) == weighted_height(a, c, b, d),
        weighted_height(a, b, c, d) == weighted_height(a, b, d, c),
        a == Some(-1i32) ==> weighted_height(a, b, c, d) == weighted_height(None, b, c, d),
{
    assert(-1 * sample_weight(Some(-1i32)) == 0 && 0 * sample_weight(None) == 0)
        by (nonlinear_arith)
        requires
            sample_weight(Some(-1i32)) == 0,
            sample_weight(None) == 0,
    ;
}

/// Equal samples give their own height, in ninths of a block; and a source, or a block
/// full of fluid, counts ten times as much as a lower sample.
pub proof fn lemma_full_samples_weigh_ten_times(full: i32, low: i32)
    requires
        8 <= full <= 9,
        0 <= low < 8,
    ensures
        ({
            let one = weighted_height(Some(low), None, None, None);
            &&& one.numerator * 9 == low * one.denominator
        }),
        ({
            let four = weighted_height(Some(full), Some(full), Some(full), Some(full));
            &&& four.numerator * 9 == full * four.denominator
        }),
        ({
            let mixed = weighted_height(Some(full), Some(low), None, None);
            &&& mixed.numerator * 99 == (10 * full + low) * mixed.denominator
        }),
        ({
            let two = weighted_height(Some(full), Some(low), Some(low), Some(full));
            &&& two.numerator * 99 == (10 * full + low) * two.denominator
        }),
{
    let four = weighted_height(Some(full), Some(full), Some(full), Some(full));
    assert(four.denominator == 360);
    assert(four.numerator == 40 * full);
    let mixed = weighted_height(Some(full), Some(low), None, None);
    assert(mixed.denominator == 99);
    assert(mixed.numerator == 10 * full + low);
    let two = weighted_height(Some(full), Some(low), Some(low), Some(full));
    assert(two.denominator == 198);
    assert(two.numerator == 20 * full + 2 * low);
}

/// The height of a corner where no neighbour has the fluid: of the block alone, and of
/// its open neighbours as empty. A solid neighbour does not lower it, and the block
/// across does not matter.
pub proof fn lemma_lone_fluid_falls_off_at_its_corners(
    context: MeshContext,
    kind: FluidKind,
    x: int,
    y: int,
    z: int,
    ox: int,
    oz: int,
)
    requires
        is_fluid(context, kind, x, y, z),
        !is_fluid(context, kind, x, y + 1, z),
        !is_fluid(context, kind, x + ox, y, z),
        !is_fluid(context, kind, x, y, z + oz),
    ensures
        ({
            let own = own_ninths(fluid_of(context, x, y, z)->Some_0);
            let solid_x = sample_ninths(context, kind, x + ox, y, z) < 0;
            let solid_z = sample_ninths(context, kind, x, y, z + oz) < 0;
            let height = corner_height(context, kind, x, y, z, ox, oz);
            let weight = if own == 8 {
                10int
            } else {
                1
            };
            let open = (if solid_x {
                0int
            } else {
                1
            }) + (if solid_z {
                0int
            } else {
                1
            });
            height.numerator * 9 * (weight + open) == own * weight * height.denominator
        }),
{
    let own = own_ninths(fluid_of(context, x, y, z)->Some_0);
    let height = corner_height(context, kind, x, y, z, ox, oz);
    let along_x = sample_ninths(context, kind, x + ox, y, z);
    let along_z = sample_ninths(context, kind, x, y, z + oz);
    assert(along_x * sample_weight(Some(along_x as i32)) == 0) by (nonlinear_arith)
        requires
            along_x == 0 || sample_weight(Some(along_x as i32)) == 0,
    ;
    assert(along_z * sample_weight(Some(along_z as i32)) == 0) by (nonlinear_arith)
        requires
            along_z == 0 || sample_weight(Some(along_z as i32)) == 0,
    ;
    assert(0 * sample_weight(None) == 0) by (nonlinear_arith);
    if own == 8 {
        assert(height.numerator == 80);
    } else {
        assert(own * sample_weight(Some(own as i32)) == own) by (nonlinear_arith)
            requires
                sample_weight(Some(own as i32)) == 1,
        ;
        assert(height.numerator == own);
    }
    let weight = if own == 8 {
        10int
    } else {
        1
    };
    let parts = height.denominator as int / 9;
    assert(height.denominator == 9 * parts);
    assert(own * weight == height.numerator);
    assert(height.numerator * 9 * parts == height.numerator * (9 * parts)) by (nonlinear_arith);
}

/// A corner is at the top of the block where the fluid beside it along either edge is
/// under more of the fluid.
pub proof fn lemma_covered_neighbor_lifts_the_corner(
    context: MeshContext,
    kind: FluidKind,
    x: int,
    y: int,
    z: int,
    ox: int,
    oz: int,
)
    requires
        (is_fluid(context, kind, x + ox, y, z) && is_fluid(context, kind, x + ox, y + 1, z)) || (
        is_fluid(context, kind, x, y, z + oz) && is_fluid(context, kind, x, y + 1, z + oz)),
    ensures
        ({
            let height = corner_height(context, kind, x, y, z, ox, oz);
            height.numerator == height.denominator && height.denominator > 0
        }),
{
}

/// Nothing flows to a neighbour that is no such fluid and is a full cube, or has none
/// of the fluid below it.
pub open spec fn is_bank(context: MeshContext, kind: FluidKind, x: int, y: int, z: int) -> bool {
    &&& !is_fluid(context, kind, x, y, z)
    &&& occludes(context, x, y, z) || !is_fluid(context, kind, x, y - 1, z)
}

/// A neighbour over whose edge a fluid runs: it is no such fluid and no full cube, and
/// the fluid is below it.
pub open spec fn is_ledge(context: MeshContext, kind: FluidKind, x: int, y: int, z: int) -> bool {
    &&& !is_fluid(context, kind, x, y, z)
    &&& !occludes(context, x, y, z)
    &&& is_fluid(context, kind, x, y - 1, z)
}

/// A fluid between banks is still.
pub proof fn lemma_fluid_between_banks_is_still(
    context: MeshContext,
    kind: FluidKind,
    x: int,
    y: int,
    z: int,
)
    ensures
        is_bank(context, kind, x + 1, y, z) && is_bank(context, kind, x - 1, y, z) ==> surface_flow(
            context,
            kind,
            x,
            y,
            z,
        ).0 == 0,
        is_bank(context, kind, x, y, z + 1) && is_bank(context, kind, x, y, z - 1) ==> surface_flow(
            context,
            kind,
            x,
            y,
            z,
        ).1 == 0,
        !is_fluid(context, kind, x, y, z) ==> surface_flow(context, kind, x, y, z) == (0int, 0int),
{
}

/// A fluid runs over a ledge: where a neighbour is open and has the fluid below it, the
/// flow goes toward that neighbour, by at least the height of the fluid and by as much
/// more as the fluid below is lower than a source, unless something draws it the other
/// way along the same axis.
pub proof fn lemma_fluid_runs_over_ledges(
    context: MeshContext,
    kind: FluidKind,
    x: int,
    y: int,
    z: int,
    side: int,
)
    requires
        side == 1 || side == -1,
        is_fluid(context, kind, x, y, z),
    ensures
        is_ledge(context, kind, x + side, y, z) && is_bank(context, kind, x - side, y, z) ==> {
            let below = own_ninths(fluid_of(context, x + side, y - 1, z)->Some_0);
            let own = own_ninths(fluid_of(context, x, y, z)->Some_0);
            let toward = side * surface_flow(context, kind, x, y, z).0;
            &&& toward >= own
            &&& toward + below == own + 8
        },
        is_ledge(context, kind, x, y, z + side) && is_bank(context, kind, x, y, z - side) ==> {
            let below = own_ninths(fluid_of(context, x, y - 1, z + side)->Some_0);
            let own = own_ninths(fluid_of(context, x, y, z)->Some_0);
            let toward = side * surface_flow(context, kind, x, y, z).1;
            &&& toward >= own
            &&& toward + below == own + 8
        },
{
}

/// A ledge draws a fluid at least as much as more of the fluid on the other side does,
/// and two ledges over equal fluid hold it still.
pub proof fn lemma_ledges_draw_the_most(
    context: MeshContext,
    kind: FluidKind,
    x: int,
    y: int,
    z: int,
    side: int,
)
    requires
        side == 1 || side == -1,
        is_fluid(context, kind, x, y, z),
    ensures
        is_ledge(context, kind, x + side, y, z) && is_fluid(context, kind, x - side, y, z) ==> side
            * surface_flow(context, kind, x, y, z).0 >= own_ninths(
            fluid_of(context, x - side, y, z)->Some_0,
        ),
        is_ledge(context, kind, x, y, z + side) && is_fluid(context, kind, x, y, z - side) ==> side
            * surface_flow(context, kind, x, y, z).1 >= own_ninths(
            fluid_of(context, x, y, z - side)->Some_0,
        ),
        is_ledge(context, kind, x + 1, y, z) && is_ledge(context, kind, x - 1, y, z) ==> surface_flow(
            context,
            kind,
            x,
            y,
            z,
        ).0 == own_ninths(fluid_of(context, x - 1, y - 1, z)->Some_0) - own_ninths(
            fluid_of(context, x + 1, y - 1, z)->Some_0,
        ),
        is_ledge(context, kind, x, y, z + 1) && is_ledge(context, kind, x, y, z - 1) ==> surface_flow(
            context,
            kind,
            x,
            y,
            z,
        ).1 == own_ninths(fluid_of(context, x, y - 1, z - 1)->Some_0) - own_ninths(
            fluid_of(context, x, y - 1, z + 1)->Some_0,
        ),
{
}

/// Between a bank and more of the fluid, a fluid flows toward the fluid by as much as it
/// stands higher, and away from it where it stands lower.
pub proof fn lemma_fluid_flows_to_the_lower_neighbor(
    context: MeshContext,
    kind: FluidKind,
    x: int,
    y: int,
    z: int,
    side: int,
)
    requires
        side == 1 || side == -1,
        is_fluid(context, kind, x, y, z),
    ensures
        is_fluid(context, kind, x + side, y, z) && is_bank(context, kind, x - side, y, z) ==> side
            * surface_flow(context, kind, x, y, z).0 == own_ninths(
            fluid_of(context, x, y, z)->Some_0,
        ) - own_ninths(fluid_of(context, x + side, y, z)->Some_0),
        is_fluid(context, kind, x, y, z + side) && is_bank(context, kind, x, y, z - side) ==> side
            * surface_flow(context, kind, x, y, z).1 == own_ninths(
            fluid_of(context, x, y, z)->Some_0,
        ) - own_ninths(fluid_of(context, x, y, z + side)->Some_0),
{
}

/// Where a corner of the surface lies, by its number: from the north-west against the
/// sun to the north-east.
pub open spec fn corner_place(corner: int) -> (int, int) {
    if corner == 0 {
        (-1, -1)
    } else if corner == 1 {
        (-1, 1)
    } else if corner == 2 {
        (1, 1)
    } else {
        (1, -1)
    }
}

/// The two corners of a side of a fluid block are those that lie toward it, and the
/// heights at the corners are those of the places where they lie.
pub proof fn lemma_sides_end_at_their_corners(
    context: MeshContext,
    kind: FluidKind,
    x: int,
    y: int,
    z: int,
    direction: Direction,
)
    requires
        direction !is Up,
        direction !is Down,
    ensures
        ({
            let (a, b) = side_corners(direction);
            let step = direction.step();
            &&& 0 <= a < 4
            &&& 0 <= b < 4
            &&& a != b
            &&& step.0 != 0 ==> corner_place(a).0 == step.0 && corner_place(b).0 == step.0
            &&& step.2 != 0 ==> corner_place(a).1 == step.2 && corner_place(b).1 == step.2
        }),
        sample_ninths(context, kind, x, y, z) < 9 ==> {
            let heights = surface_heights(context, kind, x, y, z);
            &&& heights.0 == corner_height(context, kind, x, y, z, corner_place(0).0, corner_place(0).1)
            &&& heights.1 == corner_height(context, kind, x, y, z, corner_place(1).0, corner_place(1).1)
            &&& heights.2 == corner_height(context, kind, x, y, z, corner_place(2).0, corner_place(2).1)
            &&& heights.3 == corner_height(context, kind, x, y, z, corner_place(3).0, corner_place(3).1)
        },
{
}

/// Between two blocks of a fluid nothing is drawn: neither the top of the lower nor the
/// bottom of the upper, and neither of the sides where they meet.
pub proof fn lemma_nothing_is_drawn_inside_a_fluid(
    context: MeshContext,
    cell: FluidCell,
    above: FluidCell,
    fluid: FluidState,
    other: FluidState,
)
    requires
        is_fluid_cell(cell, context, fluid),
        is_fluid_cell(above, context, other),
        fluid.kind == other.kind,
        is_fluid(context, fluid.kind, cell.x as int, cell.y as int, cell.z as int),
        is_fluid(context, other.kind, above.x as int, above.y as int, above.z as int),
    ensures
        (above.x, above.z) == (cell.x, cell.z) && above.y == cell.y + 1 ==> !cell.top
            && !above.bottom,
        (above.y, above.z) == (cell.y, cell.z) && above.x == cell.x + 1 ==> cell.east is SameFluid
            && above.west is SameFluid,
        (above.x, above.y) == (cell.x, cell.y) && above.z == cell.z + 1 ==> cell.south is SameFluid
            && above.north is SameFluid,
{
}

/// A fluid shows its top, its bottom and its sides where it ends: the top where no more
/// of it is above, and a side that is not full of the fluid, has some height, and has no
/// full cube beyond it is open.
pub proof fn lemma_fluid_shows_where_it_ends(
    context: MeshContext,
    cell: FluidCell,
    fluid: FluidState,
)
    requires
        is_fluid_cell(cell, context, fluid),
    ensures
        ({
            let (x, y, z) = (cell.x as int, cell.y as int, cell.z as int);
            let kind = fluid.kind;
            &&& cell.top || is_fluid(context, kind, x, y + 1, z)
            &&& cell.bottom || is_fluid(context, kind, x, y - 1, z)
            &&& cell.north is Open <==> !is_fluid(context, kind, x, y, z - 1) && !occludes(
                context,
                x,
                y,
                z - 1,
            ) && (cell.heights.0.numerator > 0 || cell.heights.3.numerator > 0)
            &&& cell.south is Open <==> !is_fluid(context, kind, x, y, z + 1) && !occludes(
                context,
                x,
                y,
                z + 1,
            ) && (cell.heights.1.numerator > 0 || cell.heights.2.numerator > 0)
            &&& cell.west is Open <==> !is_fluid(context, kind, x - 1, y, z) && !occludes(
                context,
                x - 1,
                y,
                z,
            ) && (cell.heights.0.numerator > 0 || cell.heights.1.numerator > 0)
            &&& cell.east is Open <==> !is_fluid(context, kind, x + 1, y, z) && !occludes(
                context,
                x + 1,
                y,
                z,
            ) && (cell.heights.2.numerator > 0 || cell.heights.3.numerator > 0)
        }),
{
}

/// A model that may hide the side of a fluid is one that is shown beside it and has an
/// opaque face toward it; each such model is asked, in order, and no other.
pub proof fn lemma_covers_are_shown_models_that_face_the_fluid(
    parts: Seq<WeightedApplications>,
    direction: Direction,
    seed: int,
    from: int,
)
    ensures
        ({
            let shown = selected_from(parts, seed, from);
            let facing = |model: ModelApplication| has_opaque_face(model.faces@, direction);
            covering_boxes(parts, direction, seed, from) == shown.filter(facing).map_values(
                |model: ModelApplication| model.boxes,
            )
        }),
    decreases parts.len() - from,
{
    let shown = selected_from(parts, seed, from);
    let facing = |model: ModelApplication| has_opaque_face(model.faces@, direction);
    let boxes = |model: ModelApplication| model.boxes;
    reveal(Seq::filter);
    if from < 0 || from >= parts.len() {
        assert(covering_boxes(parts, direction, seed, from) =~= shown.filter(facing).map_values(
            boxes,
        ));
    } else {
        let (index, state) = selected(parts[from], seed);
        lemma_covers_are_shown_models_that_face_the_fluid(parts, direction, state, from + 1);
        let rest = selected_from(parts, state, from + 1);
        if let Some(entry) = index {
            let model = parts[from].entries@[entry].1;
            let head = seq![model];
            assert(head.drop_last() =~= Seq::<ModelApplication>::empty());
            assert(head.filter(facing) == if facing(model) {
                Seq::<ModelApplication>::empty().filter(facing).push(model)
            } else {
                Seq::<ModelApplication>::empty().filter(facing)
            });
            Seq::filter_distributes_over_add(head, rest, facing);
            assert(covering_boxes(parts, direction, seed, from) =~= shown.filter(
                facing,
            ).map_values(boxes));
        }
    }
}

/// Water is seen through and has the colour of its biome, and lava is not and has its
/// own.
pub proof fn lemma_water_is_clear_and_lava_is_not(kind: FluidKind)
    ensures
        kind is Water <==> fluid_layer(kind) is Translucent,
        kind is Water <==> fluid_tint(kind) is Water,
        kind is Lava <==> fluid_layer(kind) is Opaque,
        kind is Lava <==> fluid_tint(kind) is Untinted,
{
}

/// Lava is fully bright. Water is as bright as the brighter of its block and the block
/// above it.
pub proof fn lemma_fluid_is_lit_from_above(context: MeshContext, x: int, y: int, z: int)
    ensures
        fluid_light(context, FluidKind::Lava, x, y, z) == 15,
        ({
            let here = light_at(context.chunks, context.geometry, x, y, z);
            let above = light_at(context.chunks, context.geometry, x, y + 1, z);
            let light = fluid_light(context, FluidKind::Water, x, y, z);
            light >= here && light >= above && (light == here || light == above)
        }),
{
}

/// The sides of a block are those that are neither its top nor its bottom.
pub proof fn lemma_four_sides_are_level(direction: Direction)
    ensures
        is_side(direction) <==> direction == Direction::North || direction == Direction::South
            || direction == Direction::East || direction == Direction::West,
        is_side(direction) <==> direction.step().1 == 0,
{
}

/// The sprites of a fluid are named by the fluid and by whether it flows.
pub proof fn lemma_sprites_are_named_by_their_fluid(kind: FluidKind, flowing: bool)
    ensures
        fluid_sprite(kind, flowing) == "minecraft:block/"@ + (if kind is Water {
            "water"@
        } else {
            "lava"@
        }) + (if flowing {
            "_flow"@
        } else {
            "_still"@
        }),
{
    reveal_strlit("minecraft:block/water_still");
    reveal_strlit("minecraft:block/water_flow");
    reveal_strlit("minecraft:block/lava_still");
    reveal_strlit("minecraft:block/lava_flow");
    reveal_strlit("minecraft:block/");
    reveal_strlit("water");
    reveal_strlit("lava");
    reveal_strlit("_flow");
    reveal_strlit("_still");
    assert("minecraft:block/water_still"@ =~= "minecraft:block/"@ + "water"@ + "_still"@);
    assert("minecraft:block/water_flow"@ =~= "minecraft:block/"@ + "water"@ + "_flow"@);
    assert("minecraft:block/lava_still"@ =~= "minecraft:block/"@ + "lava"@ + "_still"@);
    assert("minecraft:block/lava_flow"@ =~= "minecraft:block/"@ + "lava"@ + "_flow"@);
}

} // verus!
