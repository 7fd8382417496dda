//! Meshing of one chunk: which faces of its blocks are drawn, in which batch and
//! with what light, and the index lists over their vertices.

use crate::direction::{rotate_blockstate_direction, rotated, Direction};
use crate::fluid::{
    fluid_layer, fluid_light, fluid_light_level, fluid_tint, is_side, is_two_sided, seed_at,
};
use crate::grid::{light_at, sample_light};
use crate::resources::{
    FluidKind, FluidState, ModelApplication, ModelFace, ModelOffset, RenderLayer, StateModels,
    TintKind,
};
use crate::selection::{select_models, selected_from};
use crate::shading::{
    corner_light, corner_occlusion, hidden, interior_block, neighbor_fully_occludes, tint_at,
    tint_spec, vertex_ambient_occlusion, vertex_face_light, MeshContext,
};
use crate::statistics::{bumped, saturated, MeshStatistics};
use crate::variant_random::ModelVariantRandom;
use vstd::prelude::*;

verus! {

pub const MAX_CHUNK_MESH_FACES: usize = 1_000_000;

#[derive(Clone, Copy, Debug, PartialEq, Eq, Structural)]
pub enum MeshError {
    SectionCount { actual: usize, expected: usize },
    FaceLimit { max: usize },
}

/// How one corner of a face is shaded: its occlusion from 0 to 3 and its light
/// level from 0 to 15.
#[derive(Clone, Copy, Debug, PartialEq, Eq, Structural)]
pub struct CornerShade {
    pub occlusion: u8,
    pub light: u8,
}

/// One drawn face. It has four vertices, whose positions and texture
/// coordinates the presentation layer holds under `geometry`.
#[derive(Clone, Copy, Debug, PartialEq, Eq, Structural)]
pub struct MeshQuad {
    pub geometry: usize,
    pub x: i32,
    pub y: i32,
    pub z: i32,
    pub direction: Direction,
    pub render_layer: RenderLayer,
    pub tint: u32,
    pub offset: ModelOffset,
    pub first: CornerShade,
    pub second: CornerShade,
    pub third: CornerShade,
    pub fourth: CornerShade,
    pub two_sided: bool,
    pub clipped: bool,
}

/// One face of a fluid block, as its shape was clipped.
#[derive(Clone, Copy, Debug, PartialEq, Eq, Structural)]
pub struct FluidQuad {
    pub geometry: usize,
    pub direction: Direction,
    pub clipped: bool,
}

/// The mesh of a chunk: its faces in order, and the vertex indices of their
/// triangles in three batches. Face `i` owns the vertices from `4 * i`.
#[derive(Clone, Debug)]
pub struct ChunkMesh {
    pub quads: Vec<MeshQuad>,
    pub indices: Vec<u32>,
    pub translucent_indices: Vec<u32>,
    pub layered_translucent_indices: Vec<u32>,
    pub statistics: MeshStatistics,
}

/// The contents of a mesh.
pub struct MeshView {
    pub quads: Seq<MeshQuad>,
    pub opaque: Seq<u32>,
    pub translucent: Seq<u32>,
    pub layered: Seq<u32>,
    pub statistics: MeshStatistics,
}

/// Every index belongs to a vertex of one of `quads` faces.
pub open spec fn indices_within(indices: Seq<u32>, quads: int) -> bool {
    forall|i: int| 0 <= i < indices.len() ==> #[trigger] indices[i] < 4 * quads
}

impl MeshView {
    pub open spec fn index_count(self) -> int {
        (self.opaque.len() + self.translucent.len() + self.layered.len()) as int
    }

    /// The batches hold whole faces, six or twelve indices for each, and every
    /// index belongs to a vertex of the mesh.
    pub open spec fn well_formed(self) -> bool {
        &&& self.opaque.len() % 6 == 0
        &&& self.translucent.len() % 6 == 0
        &&& self.layered.len() % 6 == 0
        &&& 6 * self.quads.len() <= self.index_count() <= 12 * self.quads.len()
        &&& self.quads.len() <= MAX_CHUNK_MESH_FACES
        &&& indices_within(self.opaque, self.quads.len() as int)
        &&& indices_within(self.translucent, self.quads.len() as int)
        &&& indices_within(self.layered, self.quads.len() as int)
        &&& self.statistics.cpu_time.well_formed()
    }
}

impl View for ChunkMesh {
    type V = MeshView;

    open spec fn view(&self) -> MeshView {
        MeshView {
            quads: self.quads@,
            opaque: self.indices@,
            translucent: self.translucent_indices@,
            layered: self.layered_translucent_indices@,
            statistics: self.statistics,
        }
    }
}

pub open spec fn empty_mesh() -> MeshView {
    MeshView {
        quads: Seq::empty(),
        opaque: Seq::empty(),
        translucent: Seq::empty(),
        layered: Seq::empty(),
        statistics: MeshStatistics::zero(),
    }
}

/// The indices of a face whose first vertex is `base`: two triangles, and the
/// same two wound the other way where the face is seen from both sides.
pub open spec fn face_indices(base: int, two_sided: bool) -> Seq<u32> {
    let front = seq![
        base as u32,
        (base + 1) as u32,
        (base + 2) as u32,
        base as u32,
        (base + 2) as u32,
        (base + 3) as u32,
    ];
    if two_sided {
        front + seq![
            (base + 3) as u32,
            (base + 2) as u32,
            (base + 1) as u32,
            (base + 3) as u32,
            (base + 1) as u32,
            base as u32,
        ]
    } else {
        front
    }
}

/// The mesh with one more face; `None` where the mesh is full.
pub open spec fn with_quad(mesh: MeshView, quad: MeshQuad) -> Option<MeshView> {
    if mesh.index_count() / 6 >= MAX_CHUNK_MESH_FACES {
        None
    } else {
        let added = face_indices(4 * mesh.quads.len() as int, quad.two_sided);
        let statistics = MeshStatistics {
            quads_emitted: bumped(mesh.statistics.quads_emitted),
            ..mesh.statistics
        };
        let quads = mesh.quads.push(quad);
        Some(
            match quad.render_layer {
                RenderLayer::Opaque | RenderLayer::Cutout => MeshView {
                    quads,
                    opaque: mesh.opaque + added,
                    statistics,
                    ..mesh
                },
                RenderLayer::Translucent => MeshView {
                    quads,
                    translucent: mesh.translucent + added,
                    statistics,
                    ..mesh
                },
                RenderLayer::LayeredTranslucent => MeshView {
                    quads,
                    layered: mesh.layered + added,
                    statistics,
                    ..mesh
                },
            },
        )
    }
}

/// The mesh with more faces, in order.
pub open spec fn with_quads(mesh: MeshView, quads: Seq<MeshQuad>) -> Option<MeshView>
    decreases quads.len(),
{
    if quads.len() == 0 {
        Some(mesh)
    } else {
        match with_quads(mesh, quads.drop_last()) {
            Some(before) => with_quad(before, quads.last()),
            None => None,
        }
    }
}

fn extend_indices(indices: &mut Vec<u32>, base: u32, two_sided: bool)
    requires
        base <= 0x7fff_ffff,
    ensures
        final(indices)@ == old(indices)@ + face_indices(base as int, two_sided),
{
    indices.push(base);
    indices.push(base + 1);
    indices.push(base + 2);
    indices.push(base);
    indices.push(base + 2);
    indices.push(base + 3);
    if two_sided {
        indices.push(base + 3);
        indices.push(base + 2);
        indices.push(base + 1);
        indices.push(base + 3);
        indices.push(base + 1);
        indices.push(base);
    }
    assert(indices@ =~= old(indices)@ + face_indices(base as int, two_sided));
}

proof fn lemma_with_quad_well_formed(mesh: MeshView, quad: MeshQuad)
    requires
        mesh.well_formed(),
        mesh.index_count() / 6 < MAX_CHUNK_MESH_FACES,
    ensures
        with_quad(mesh, quad) matches Some(next) && next.well_formed(),
{
    let base = 4 * mesh.quads.len() as int;
    let added = face_indices(base, quad.two_sided);
    let more = mesh.quads.len() + 1;
    assert(indices_within(added, more as int));
    assert(added.len() == 6 || added.len() == 12);
    lemma_indices_append(mesh.opaque, added, mesh.quads.len() as int);
    lemma_indices_append(mesh.translucent, added, mesh.quads.len() as int);
    lemma_indices_append(mesh.layered, added, mesh.quads.len() as int);
}

proof fn lemma_indices_append(indices: Seq<u32>, added: Seq<u32>, quads: int)
    requires
        indices_within(indices, quads),
        indices_within(added, quads + 1),
    ensures
        indices_within(indices, quads + 1),
        indices_within(indices + added, quads + 1),
{
    assert forall|i: int| 0 <= i < (indices + added).len() implies #[trigger] (indices + added)[i]
        < 4 * (quads + 1) by {
        if i < indices.len() {
            assert(indices[i] < 4 * quads);
        } else {
            assert(added[i - indices.len()] < 4 * (quads + 1));
        }
    }
}

impl ChunkMesh {
    pub fn new() -> (mesh: Self)
        ensures
            mesh@ == empty_mesh(),
            mesh@.well_formed(),
    {
        let mesh: ChunkMesh = ChunkMesh {
            quads: Vec::new(),
            indices: Vec::new(),
            translucent_indices: Vec::new(),
            layered_translucent_indices: Vec::new(),
            statistics: MeshStatistics::new(),
        };
        assert(mesh@.quads =~= empty_mesh().quads);
        assert(mesh@.opaque =~= empty_mesh().opaque);
        assert(mesh@.translucent =~= empty_mesh().translucent);
        assert(mesh@.layered =~= empty_mesh().layered);
        mesh
    }

    /// Adds a face to the batch of its layer.
    pub fn push_quad(&mut self, quad: MeshQuad) -> (result: Result<(), MeshError>)
        requires
            old(self)@.well_formed(),
        ensures
            match with_quad(old(self)@, quad) {
                Some(next) => result is Ok && final(self)@ == next && next.well_formed(),
                None => result == Err::<(), MeshError>(
                    MeshError::FaceLimit { max: MAX_CHUNK_MESH_FACES },
                ) && final(self)@ == old(self)@,
            },
    {
        let a: usize = self.indices.len();
        let b: usize = self.translucent_indices.len();
        let c: usize = self.layered_translucent_indices.len();
        assert(a + b + c <= 12 * MAX_CHUNK_MESH_FACES);
        if (a + b + c) / 6 >= MAX_CHUNK_MESH_FACES {
            return Err(MeshError::FaceLimit { max: MAX_CHUNK_MESH_FACES });
        }
        proof {
            lemma_with_quad_well_formed(self@, quad);
        }
        let base: u32 = 4 * self.quads.len() as u32;
        match quad.render_layer {
            RenderLayer::Opaque | RenderLayer::Cutout => {
                extend_indices(&mut self.indices, base, quad.two_sided);
            },
            RenderLayer::Translucent => {
                extend_indices(&mut self.translucent_indices, base, quad.two_sided);
            },
            RenderLayer::LayeredTranslucent => {
                extend_indices(&mut self.layered_translucent_indices, base, quad.two_sided);
            },
        }
        self.quads.push(quad);
        self.statistics.quads_emitted = self.statistics.quads_emitted.saturating_add(1);
        Ok(())
    }
}

/// The shade of one corner of a model face.
pub open spec fn corner_shade(
    context: MeshContext,
    x: int,
    y: int,
    z: int,
    state: StateModels,
    model: ModelApplication,
    face: ModelFace,
    corner: int,
) -> CornerShade {
    let upper = face.shape.upper@[corner];
    CornerShade {
        occlusion: (if state.emissive || !model.ambient_occlusion {
            0
        } else {
            corner_occlusion(context, x, y, z, face.direction, upper)
        }) as u8,
        light: (if state.emissive {
            15
        } else if face.cullface is None {
            light_at(context.chunks, context.geometry, x, y, z)
        } else {
            corner_light(context, x, y, z, face.direction, upper)
        }) as u8,
    }
}

/// The drawn form of a model face. A face that can be culled is lit from
/// outside, any other by the block's own light.
#[verifier::opaque]
pub open spec fn face_quad(
    context: MeshContext,
    x: int,
    y: int,
    z: int,
    state: StateModels,
    model: ModelApplication,
    face: ModelFace,
) -> MeshQuad {
    MeshQuad {
        geometry: face.geometry,
        x: x as i32,
        y: y as i32,
        z: z as i32,
        direction: face.direction,
        render_layer: face.render_layer,
        tint: tint_spec(context, face.tint_kind, x, y, z) as u32,
        offset: state.model_offset,
        first: corner_shade(context, x, y, z, state, model, face, 0),
        second: corner_shade(context, x, y, z, state, model, face, 1),
        third: corner_shade(context, x, y, z, state, model, face, 2),
        fourth: corner_shade(context, x, y, z, state, model, face, 3),
        two_sided: false,
        clipped: false,
    }
}

/// The direction in which a face is culled, as its model is turned.
pub open spec fn cull_direction(model: ModelApplication, face: ModelFace) -> Option<Direction> {
    match face.cullface {
        Some(direction) => Some(
            rotated(direction, model.x_rotation as int, model.y_rotation as int),
        ),
        None => None,
    }
}

/// Whether the neighbour that a face is culled against hides it.
pub open spec fn is_culled(
    context: MeshContext,
    x: int,
    y: int,
    z: int,
    model: ModelApplication,
    face: ModelFace,
) -> bool {
    match cull_direction(model, face) {
        Some(direction) => hidden(context, x, y, z, direction),
        None => false,
    }
}

/// The drawn faces of a model among its first `count`.
pub open spec fn model_quads(
    context: MeshContext,
    x: int,
    y: int,
    z: int,
    state: StateModels,
    model: ModelApplication,
    count: int,
) -> Seq<MeshQuad>
    decreases count,
{
    if count <= 0 {
        Seq::empty()
    } else {
        let before = model_quads(context, x, y, z, state, model, count - 1);
        let face = model.faces@[count - 1];
        if is_culled(context, x, y, z, model, face) {
            before
        } else {
            before.push(face_quad(context, x, y, z, state, model, face))
        }
    }
}

/// The drawn faces of the first `count` models.
pub open spec fn models_quads(
    context: MeshContext,
    x: int,
    y: int,
    z: int,
    state: StateModels,
    models: Seq<ModelApplication>,
    count: int,
) -> Seq<MeshQuad>
    decreases count,
{
    if count <= 0 {
        Seq::empty()
    } else {
        models_quads(context, x, y, z, state, models, count - 1) + model_quads(
            context,
            x,
            y,
            z,
            state,
            models[count - 1],
            models[count - 1].faces@.len() as int,
        )
    }
}

/// The number of faces among the first `count` that can be culled.
pub open spec fn cullable(faces: Seq<ModelFace>, count: int) -> int
    decreases count,
{
    if count <= 0 {
        0
    } else {
        cullable(faces, count - 1) + (if faces[count - 1].cullface is Some {
            1int
        } else {
            0
        })
    }
}

pub open spec fn models_cullable(models: Seq<ModelApplication>, count: int) -> int
    decreases count,
{
    if count <= 0 {
        0
    } else {
        models_cullable(models, count - 1) + cullable(
            models[count - 1].faces@,
            models[count - 1].faces@.len() as int,
        )
    }
}

/// The count after `more` steps, not beyond the largest counter value.
pub open spec fn bumped_by(count: u64, more: int) -> u64 {
    saturated(count + more, u64::MAX as int) as u64
}

pub fn push_model_face(
    context: MeshContext,
    x: i32,
    y: i32,
    z: i32,
    state: &StateModels,
    model: &ModelApplication,
    face: &ModelFace,
) -> (quad: MeshQuad)
    requires
        interior_block(x as int, y as int, z as int),
    ensures
        quad == face_quad(context, x as int, y as int, z as int, *state, *model, *face),
{
    reveal(face_quad);
    let tint: u32 = tint_at(context, face.tint_kind, x, y, z);
    let first: CornerShade = shade_corner(context, x, y, z, state, model, face, 0);
    let second: CornerShade = shade_corner(context, x, y, z, state, model, face, 1);
    let third: CornerShade = shade_corner(context, x, y, z, state, model, face, 2);
    let fourth: CornerShade = shade_corner(context, x, y, z, state, model, face, 3);
    MeshQuad {
        geometry: face.geometry,
        x,
        y,
        z,
        direction: face.direction,
        render_layer: face.render_layer,
        tint,
        offset: state.model_offset,
        first,
        second,
        third,
        fourth,
        two_sided: false,
        clipped: false,
    }
}

fn shade_corner(
    context: MeshContext,
    x: i32,
    y: i32,
    z: i32,
    state: &StateModels,
    model: &ModelApplication,
    face: &ModelFace,
    corner: usize,
) -> (shade: CornerShade)
    requires
        interior_block(x as int, y as int, z as int),
        corner < 4,
    ensures
        shade == corner_shade(
            context,
            x as int,
            y as int,
            z as int,
            *state,
            *model,
            *face,
            corner as int,
        ),
{
    let upper: [bool; 3] = face.shape.upper[corner];
    let occlusion: u8 = if state.emissive || !model.ambient_occlusion {
        0
    } else {
        vertex_ambient_occlusion(context, x, y, z, face.direction, upper)
    };
    let light: u8 = if state.emissive {
        15
    } else if face.cullface.is_none() {
        sample_light(context.chunks, context.geometry, x, y, z)
    } else {
        vertex_face_light(context, x, y, z, face.direction, upper)
    };
    CornerShade { occlusion, light }
}

/// Appends the drawn faces of one model, and returns how many of its faces can
/// be culled.
fn append_model(
    context: MeshContext,
    x: i32,
    y: i32,
    z: i32,
    state: &StateModels,
    model: &ModelApplication,
    quads: &mut Vec<MeshQuad>,
    checks: u64,
) -> (checked: u64)
    requires
        interior_block(x as int, y as int, z as int),
    ensures
        final(quads)@ == old(quads)@ + model_quads(
            context,
            x as int,
            y as int,
            z as int,
            *state,
            *model,
            model.faces@.len() as int,
        ),
        checked == bumped_by(checks, cullable(model.faces@, model.faces@.len() as int)),
{
    let mut i: usize = 0;
    let mut count: u64 = checks;
    assert(quads@ =~= old(quads)@ + Seq::<MeshQuad>::empty());
    while i < model.faces.len()
        invariant
            i <= model.faces@.len(),
            interior_block(x as int, y as int, z as int),
            quads@ == old(quads)@ + model_quads(
                context,
                x as int,
                y as int,
                z as int,
                *state,
                *model,
                i as int,
            ),
            count == bumped_by(checks, cullable(model.faces@, i as int)),
            cullable(model.faces@, i as int) >= 0,
        decreases model.faces@.len() - i,
    {
        let face: &ModelFace = &model.faces[i];
        let culled: bool = match face.cullface {
            Some(direction) => {
                count = count.saturating_add(1);
                neighbor_fully_occludes(
                    context,
                    x,
                    y,
                    z,
                    rotate_blockstate_direction(direction, model.x_rotation, model.y_rotation),
                )
            },
            None => false,
        };
        if !culled {
            let ghost before = quads@;
            let quad: MeshQuad = push_model_face(context, x, y, z, state, model, face);
            quads.push(quad);
            assert(quads@ =~= old(quads)@ + model_quads(
                context,
                x as int,
                y as int,
                z as int,
                *state,
                *model,
                i as int,
            ).push(quad));
        }
        i += 1;
    }
    count
}

fn append_models(
    context: MeshContext,
    x: i32,
    y: i32,
    z: i32,
    state: &StateModels,
    models: &Vec<&ModelApplication>,
    Ghost(picked): Ghost<Seq<ModelApplication>>,
    quads: &mut Vec<MeshQuad>,
    checks: u64,
) -> (checked: u64)
    requires
        interior_block(x as int, y as int, z as int),
        models@.len() == picked.len(),
        forall|i: int| 0 <= i < models@.len() ==> *(#[trigger] models@[i]) == picked[i],
    ensures
        final(quads)@ == old(quads)@ + models_quads(
            context,
            x as int,
            y as int,
            z as int,
            *state,
            picked,
            picked.len() as int,
        ),
        checked == bumped_by(checks, models_cullable(picked, picked.len() as int)),
{
    let mut i: usize = 0;
    let mut count: u64 = checks;
    assert(quads@ =~= old(quads)@ + Seq::<MeshQuad>::empty());
    while i < models.len()
        invariant
            i <= models@.len(),
            interior_block(x as int, y as int, z as int),
            models@.len() == picked.len(),
            forall|k: int| 0 <= k < models@.len() ==> *(#[trigger] models@[k]) == picked[k],
            quads@ == old(quads)@ + models_quads(
                context,
                x as int,
                y as int,
                z as int,
                *state,
                picked,
                i as int,
            ),
            count == bumped_by(checks, models_cullable(picked, i as int)),
            models_cullable(picked, i as int) >= 0,
        decreases models@.len() - i,
    {
        let ghost before = models_quads(
            context,
            x as int,
            y as int,
            z as int,
            *state,
            picked,
            i as int,
        );
        count = append_model(context, x, y, z, state, models[i], quads, count);
        proof {
            let more = model_quads(
                context,
                x as int,
                y as int,
                z as int,
                *state,
                picked[i as int],
                picked[i as int].faces@.len() as int,
            );
            assert((old(quads)@ + before) + more =~= old(quads)@ + (before + more));
            lemma_cullable_nonnegative(
                picked[i as int].faces@,
                picked[i as int].faces@.len() as int,
            );
        }
        i += 1;
    }
    count
}

proof fn lemma_cullable_nonnegative(faces: Seq<ModelFace>, count: int)
    ensures
        cullable(faces, count) >= 0,
    decreases count,
{
    if count > 0 {
        lemma_cullable_nonnegative(faces, count - 1);
    }
}

/// The drawn form of a fluid face.
pub open spec fn fluid_mesh_quad(
    context: MeshContext,
    x: int,
    y: int,
    z: int,
    fluid: FluidState,
    face: FluidQuad,
) -> MeshQuad {
    let shade = CornerShade {
        occlusion: 0,
        light: fluid_light(context, fluid.kind, x, y, z) as u8,
    };
    MeshQuad {
        geometry: face.geometry,
        x: x as i32,
        y: y as i32,
        z: z as i32,
        direction: face.direction,
        render_layer: fluid_layer(fluid.kind),
        tint: tint_spec(context, fluid_tint(fluid.kind), x, y, z) as u32,
        offset: ModelOffset::Unmoved,
        first: shade,
        second: shade,
        third: shade,
        fourth: shade,
        two_sided: is_side(face.direction),
        clipped: face.clipped,
    }
}

pub open spec fn fluid_mesh_quads(
    context: MeshContext,
    x: int,
    y: int,
    z: int,
    fluid: FluidState,
    faces: Seq<FluidQuad>,
) -> Seq<MeshQuad> {
    Seq::new(faces.len(), |i: int| fluid_mesh_quad(context, x, y, z, fluid, faces[i]))
}

fn append_fluid(
    context: MeshContext,
    x: i32,
    y: i32,
    z: i32,
    fluid: FluidState,
    faces: &Vec<FluidQuad>,
    quads: &mut Vec<MeshQuad>,
)
    requires
        interior_block(x as int, y as int, z as int),
    ensures
        final(quads)@ == old(quads)@ + fluid_mesh_quads(
            context,
            x as int,
            y as int,
            z as int,
            fluid,
            faces@,
        ),
{
    let (layer, tint_kind): (RenderLayer, TintKind) = match fluid.kind {
        FluidKind::Water => (RenderLayer::Translucent, TintKind::Water),
        FluidKind::Lava => (RenderLayer::Opaque, TintKind::Untinted),
    };
    let tint: u32 = tint_at(context, tint_kind, x, y, z);
    let light: u8 = fluid_light_level(context, fluid.kind, x, y, z);
    let shade: CornerShade = CornerShade { occlusion: 0, light };
    let ghost all = fluid_mesh_quads(context, x as int, y as int, z as int, fluid, faces@);
    let mut i: usize = 0;
    while i < faces.len()
        invariant
            i <= faces@.len(),
            all == fluid_mesh_quads(context, x as int, y as int, z as int, fluid, faces@),
            layer == fluid_layer(fluid.kind),
            tint == tint_spec(context, fluid_tint(fluid.kind), x as int, y as int, z as int),
            shade.occlusion == 0,
            shade.light == fluid_light(context, fluid.kind, x as int, y as int, z as int),
            quads@ == old(quads)@ + all.take(i as int),
        decreases faces@.len() - i,
    {
        let face: FluidQuad = faces[i];
        let quad: MeshQuad = MeshQuad {
            geometry: face.geometry,
            x,
            y,
            z,
            direction: face.direction,
            render_layer: layer,
            tint,
            offset: ModelOffset::Unmoved,
            first: shade,
            second: shade,
            third: shade,
            fourth: shade,
            two_sided: is_two_sided(face.direction),
            clipped: face.clipped,
        };
        assert(all[i as int] == quad);
        quads.push(quad);
        assert(all.take(i + 1) =~= all.take(i as int).push(quad));
        i += 1;
    }
    assert(all.take(all.len() as int) =~= all);
}

/// Whether all six neighbours hide the block.
pub open spec fn enclosed(context: MeshContext, x: int, y: int, z: int) -> bool {
    &&& hidden(context, x, y, z, Direction::Down)
    &&& hidden(context, x, y, z, Direction::Up)
    &&& hidden(context, x, y, z, Direction::North)
    &&& hidden(context, x, y, z, Direction::South)
    &&& hidden(context, x, y, z, Direction::West)
    &&& hidden(context, x, y, z, Direction::East)
}

/// Whether a block is meshed at all: it draws something, and is no full cube
/// that its neighbours enclose.
pub open spec fn is_meshed(context: MeshContext, x: int, y: int, z: int, state: StateModels) -> bool {
    !state.is_nothing() && !(state.full_opaque_cube && enclosed(context, x, y, z))
}

/// The models that a block's position selects.
pub open spec fn picked_models(state: StateModels, x: int, y: int, z: int) -> Seq<ModelApplication> {
    selected_from(state.parts@, seed_at(x as i32, y as i32, z as i32), 0)
}

/// The drawn faces of a meshed block: its fluid's, then those of its models.
pub open spec fn block_quads(
    context: MeshContext,
    x: int,
    y: int,
    z: int,
    state: StateModels,
    fluid_faces: Seq<FluidQuad>,
) -> Seq<MeshQuad> {
    let models = picked_models(state, x, y, z);
    let faces = models_quads(context, x, y, z, state, models, models.len() as int);
    match state.fluid {
        Some(fluid) => fluid_mesh_quads(context, x, y, z, fluid, fluid_faces) + faces,
        None => faces,
    }
}

/// The mesh after one block is visited; `None` where it became full.
#[verifier::opaque]
pub open spec fn visited(
    context: MeshContext,
    mesh: MeshView,
    x: int,
    y: int,
    z: int,
    state: StateModels,
    fluid_faces: Seq<FluidQuad>,
) -> Option<MeshView> {
    let seen = MeshStatistics {
        positions_visited: bumped(mesh.statistics.positions_visited),
        ..mesh.statistics
    };
    if state.is_nothing() {
        Some(
            MeshView {
                statistics: MeshStatistics { air_skipped: bumped(seen.air_skipped), ..seen },
                ..mesh
            },
        )
    } else {
        let checked = MeshStatistics {
            non_air_blocks: bumped(seen.non_air_blocks),
            neighbor_checks: if state.full_opaque_cube {
                bumped_by(seen.neighbor_checks, 6)
            } else {
                seen.neighbor_checks
            },
            ..seen
        };
        if !is_meshed(context, x, y, z, state) {
            Some(
                MeshView {
                    statistics: MeshStatistics {
                        fully_occluded_fast_rejected: bumped(checked.fully_occluded_fast_rejected),
                        ..checked
                    },
                    ..mesh
                },
            )
        } else {
            let models = picked_models(state, x, y, z);
            let started = MeshView {
                statistics: MeshStatistics {
                    model_processed: bumped(checked.model_processed),
                    model_selections: bumped_by(checked.model_selections, state.parts@.len() as int),
                    neighbor_checks: if state.full_opaque_cube {
                        checked.neighbor_checks
                    } else {
                        bumped_by(
                            checked.neighbor_checks,
                            models_cullable(models, models.len() as int),
                        )
                    },
                    ..checked
                },
                ..mesh
            };
            match with_quads(started, block_quads(context, x, y, z, state, fluid_faces)) {
                None => None,
                Some(after) => Some(
                    if after.statistics.quads_emitted > mesh.statistics.quads_emitted {
                        MeshView {
                            statistics: MeshStatistics {
                                geometry_emitting: bumped(after.statistics.geometry_emitting),
                                ..after.statistics
                            },
                            ..after
                        }
                    } else {
                        after
                    },
                ),
            }
        }
    }
}

fn count_parts(state: &StateModels, count: u64) -> (total: u64)
    ensures
        total == bumped_by(count, state.parts@.len() as int),
{
    count.saturating_add(state.parts.len() as u64)
}

fn push_quads(mesh: &mut ChunkMesh, quads: &Vec<MeshQuad>) -> (result: Result<(), MeshError>)
    requires
        old(mesh)@.well_formed(),
    ensures
        match with_quads(old(mesh)@, quads@) {
            Some(next) => result is Ok && final(mesh)@ == next && next.well_formed(),
            None => result == Err::<(), MeshError>(
                MeshError::FaceLimit { max: MAX_CHUNK_MESH_FACES },
            ),
        },
{
    let mut i: usize = 0;
    assert(quads@.take(0) =~= Seq::<MeshQuad>::empty());
    while i < quads.len()
        invariant
            i <= quads@.len(),
            mesh@.well_formed(),
            with_quads(old(mesh)@, quads@.take(i as int)) == Some(mesh@),
        decreases quads@.len() - i,
    {
        proof {
            assert(quads@.take(i + 1).drop_last() =~= quads@.take(i as int));
            assert(quads@.take(i + 1).last() == quads@[i as int]);
        }
        match mesh.push_quad(quads[i]) {
            Ok(()) => {},
            Err(error) => {
                proof {
                    lemma_full_stays_full(old(mesh)@, quads@, i + 1);
                }
                return Err(error);
            },
        }
        i += 1;
    }
    assert(quads@.take(quads@.len() as int) =~= quads@);
    Ok(())
}

proof fn lemma_full_stays_full(mesh: MeshView, quads: Seq<MeshQuad>, n: int)
    requires
        0 <= n <= quads.len(),
        with_quads(mesh, quads.take(n)) is None,
    ensures
        with_quads(mesh, quads) is None,
    decreases quads.len() - n,
{
    if n == quads.len() {
        assert(quads.take(n) =~= quads);
    } else {
        assert(quads.take(n + 1).drop_last() =~= quads.take(n));
        lemma_full_stays_full(mesh, quads, n + 1);
    }
}

/// The fluid faces of the `index`-th fluid block, none beyond the list.
pub open spec fn fluid_faces_of(fluids: Seq<Vec<FluidQuad>>, index: int) -> Seq<FluidQuad> {
    if 0 <= index < fluids.len() {
        fluids[index]@
    } else {
        Seq::empty()
    }
}

/// Visits one block. `fluid_faces` are the faces of its fluid, if it has one.
pub fn visit_block(
    context: MeshContext,
    mesh: &mut ChunkMesh,
    x: i32,
    y: i32,
    z: i32,
    state: &StateModels,
    fluid_faces: &Vec<FluidQuad>,
) -> (result: Result<(), MeshError>)
    requires
        old(mesh)@.well_formed(),
        interior_block(x as int, y as int, z as int),
    ensures
        match visited(
            context,
            old(mesh)@,
            x as int,
            y as int,
            z as int,
            *state,
            fluid_faces@,
        ) {
            Some(next) => result is Ok && final(mesh)@ == next && next.well_formed(),
            None => result == Err::<(), MeshError>(
                MeshError::FaceLimit { max: MAX_CHUNK_MESH_FACES },
            ),
        },
{
    reveal(visited);
    mesh.statistics.positions_visited = mesh.statistics.positions_visited.saturating_add(1);
    if state.parts.len() == 0 && state.fluid.is_none() {
        mesh.statistics.air_skipped = mesh.statistics.air_skipped.saturating_add(1);
        return Ok(());
    }
    mesh.statistics.non_air_blocks = mesh.statistics.non_air_blocks.saturating_add(1);
    if state.full_opaque_cube {
        mesh.statistics.neighbor_checks = mesh.statistics.neighbor_checks.saturating_add(6);
        let down: bool = neighbor_fully_occludes(context, x, y, z, Direction::Down);
        let up: bool = neighbor_fully_occludes(context, x, y, z, Direction::Up);
        let north: bool = neighbor_fully_occludes(context, x, y, z, Direction::North);
        let south: bool = neighbor_fully_occludes(context, x, y, z, Direction::South);
        let west: bool = neighbor_fully_occludes(context, x, y, z, Direction::West);
        let east: bool = neighbor_fully_occludes(context, x, y, z, Direction::East);
        if down && up && north && south && west && east {
            mesh.statistics.fully_occluded_fast_rejected =
                mesh.statistics.fully_occluded_fast_rejected.saturating_add(1);
            return Ok(());
        }
    }
    mesh.statistics.model_processed = mesh.statistics.model_processed.saturating_add(1);
    let quads_before: u64 = mesh.statistics.quads_emitted;
    let mut random: ModelVariantRandom = ModelVariantRandom::at_position(x, y, z);
    mesh.statistics.model_selections = count_parts(state, mesh.statistics.model_selections);
    let models: Vec<&ModelApplication> = select_models(&state.parts, &mut random);
    let ghost picked = picked_models(*state, x as int, y as int, z as int);
    let mut quads: Vec<MeshQuad> = Vec::new();
    match state.fluid {
        Some(fluid) => append_fluid(context, x, y, z, fluid, fluid_faces, &mut quads),
        None => {},
    }
    let checks: u64 = append_models(
        context,
        x,
        y,
        z,
        state,
        &models,
        Ghost(picked),
        &mut quads,
        mesh.statistics.neighbor_checks,
    );
    if !state.full_opaque_cube {
        mesh.statistics.neighbor_checks = checks;
    }
    assert(quads@ =~= block_quads(
        context,
        x as int,
        y as int,
        z as int,
        *state,
        fluid_faces@,
    ));
    match push_quads(mesh, &quads) {
        Ok(()) => {},
        Err(error) => return Err(error),
    }
    if mesh.statistics.quads_emitted > quads_before {
        mesh.statistics.geometry_emitting = mesh.statistics.geometry_emitting.saturating_add(1);
    }
    Ok(())
}

/// The batch of a layer: the opaque one, the translucent one, or the one of
/// layered translucent faces.
pub open spec fn batch_of(layer: RenderLayer) -> int {
    match layer {
        RenderLayer::Opaque | RenderLayer::Cutout => 0,
        RenderLayer::Translucent => 1,
        RenderLayer::LayeredTranslucent => 2,
    }
}

/// The indices of those of the first `n` faces that belong to a batch, in order.
pub open spec fn batch_indices(quads: Seq<MeshQuad>, batch: int, n: int) -> Seq<u32>
    decreases n,
{
    if n <= 0 {
        Seq::empty()
    } else {
        let before = batch_indices(quads, batch, n - 1);
        if batch_of(quads[n - 1].render_layer) == batch {
            before + face_indices(4 * (n - 1), quads[n - 1].two_sided)
        } else {
            before
        }
    }
}

/// Every face stands in the batch of its layer and in no other.
pub open spec fn is_batched(mesh: MeshView) -> bool {
    let n = mesh.quads.len() as int;
    &&& mesh.opaque == batch_indices(mesh.quads, 0, n)
    &&& mesh.translucent == batch_indices(mesh.quads, 1, n)
    &&& mesh.layered == batch_indices(mesh.quads, 2, n)
}

proof fn lemma_batch_of_more(quads: Seq<MeshQuad>, quad: MeshQuad, batch: int, n: int)
    requires
        n <= quads.len(),
    ensures
        batch_indices(quads.push(quad), batch, n) == batch_indices(quads, batch, n),
    decreases n,
{
    if n > 0 {
        lemma_batch_of_more(quads, quad, batch, n - 1);
        assert(quads.push(quad)[n - 1] == quads[n - 1]);
    }
}

proof fn lemma_with_quad_is_batched(mesh: MeshView, quad: MeshQuad)
    requires
        is_batched(mesh),
    ensures
        with_quad(mesh, quad) matches Some(next) ==> is_batched(next) && next.quads
            == mesh.quads.push(quad),
{
    let n = mesh.quads.len() as int;
    lemma_batch_of_more(mesh.quads, quad, 0, n);
    lemma_batch_of_more(mesh.quads, quad, 1, n);
    lemma_batch_of_more(mesh.quads, quad, 2, n);
    assert(mesh.quads.push(quad)[n] == quad);
}

proof fn lemma_with_quads_is_batched(mesh: MeshView, quads: Seq<MeshQuad>)
    requires
        is_batched(mesh),
    ensures
        with_quads(mesh, quads) matches Some(next) ==> is_batched(next) && next.quads == mesh.quads
            + quads,
    decreases quads.len(),
{
    if quads.len() == 0 {
        assert(mesh.quads + quads =~= mesh.quads);
    } else {
        lemma_with_quads_is_batched(mesh, quads.drop_last());
        match with_quads(mesh, quads.drop_last()) {
            Some(before) => {
                lemma_with_quad_is_batched(before, quads.last());
                assert((mesh.quads + quads.drop_last()).push(quads.last()) =~= mesh.quads + quads);
            },
            None => {},
        }
    }
}

/// A visit adds the faces of the block, where it is meshed, after those that are
/// there, and keeps every face in the batch of its layer.
pub proof fn lemma_visit_adds_the_faces_of_the_block(
    context: MeshContext,
    mesh: MeshView,
    x: int,
    y: int,
    z: int,
    state: StateModels,
    fluid_faces: Seq<FluidQuad>,
)
    requires
        is_batched(mesh),
    ensures
        visited(context, mesh, x, y, z, state, fluid_faces) matches Some(next) ==> {
            &&& is_batched(next)
            &&& next.quads == mesh.quads + (if is_meshed(context, x, y, z, state) {
                block_quads(context, x, y, z, state, fluid_faces)
            } else {
                Seq::empty()
            })
        },
{
    reveal(visited);
    assert(mesh.quads + Seq::<MeshQuad>::empty() =~= mesh.quads);
    if is_meshed(context, x, y, z, state) {
        let seen = MeshStatistics {
            positions_visited: bumped(mesh.statistics.positions_visited),
            ..mesh.statistics
        };
        let checked = MeshStatistics {
            non_air_blocks: bumped(seen.non_air_blocks),
            neighbor_checks: if state.full_opaque_cube {
                bumped_by(seen.neighbor_checks, 6)
            } else {
                seen.neighbor_checks
            },
            ..seen
        };
        let models = picked_models(state, x, y, z);
        let started = MeshView {
            statistics: MeshStatistics {
                model_processed: bumped(checked.model_processed),
                model_selections: bumped_by(checked.model_selections, state.parts@.len() as int),
                neighbor_checks: if state.full_opaque_cube {
                    checked.neighbor_checks
                } else {
                    bumped_by(
                        checked.neighbor_checks,
                        models_cullable(models, models.len() as int),
                    )
                },
                ..checked
            },
            ..mesh
        };
        lemma_with_quads_is_batched(
            started,
            block_quads(context, x, y, z, state, fluid_faces),
        );
    }
}

/// The counters of a mesh agree: what was visited is air or not, a block that is no
/// air is rejected or processed, only processed blocks give faces, and every face is
/// counted.
pub open spec fn counts_add_up(mesh: MeshView) -> bool {
    &&& mesh.statistics.positions_visited == mesh.statistics.air_skipped
        + mesh.statistics.non_air_blocks
    &&& mesh.statistics.non_air_blocks == mesh.statistics.fully_occluded_fast_rejected
        + mesh.statistics.model_processed
    &&& mesh.statistics.geometry_emitting <= mesh.statistics.model_processed
    &&& mesh.statistics.quads_emitted == mesh.quads.len()
}

/// Every face has its indices, and there are no more faces than a mesh may have.
pub open spec fn holds_whole_faces(mesh: MeshView) -> bool {
    6 * mesh.quads.len() <= mesh.index_count() && mesh.quads.len() <= MAX_CHUNK_MESH_FACES
}

proof fn lemma_with_quads_counts(mesh: MeshView, quads: Seq<MeshQuad>)
    requires
        holds_whole_faces(mesh),
        mesh.statistics.quads_emitted == mesh.quads.len(),
    ensures
        with_quads(mesh, quads) matches Some(next) ==> {
            &&& holds_whole_faces(next)
            &&& next.quads.len() == mesh.quads.len() + quads.len()
            &&& next.statistics == (MeshStatistics {
                quads_emitted: next.quads.len() as u64,
                ..mesh.statistics
            })
        },
    decreases quads.len(),
{
    if quads.len() > 0 {
        lemma_with_quads_counts(mesh, quads.drop_last());
    }
}

/// A visit counts one position more and keeps the counters in agreement.
pub proof fn lemma_visit_is_counted(
    context: MeshContext,
    mesh: MeshView,
    x: int,
    y: int,
    z: int,
    state: StateModels,
    fluid_faces: Seq<FluidQuad>,
)
    requires
        counts_add_up(mesh),
        holds_whole_faces(mesh),
        mesh.statistics.positions_visited < u64::MAX,
    ensures
        visited(context, mesh, x, y, z, state, fluid_faces) matches Some(next) ==> {
            &&& counts_add_up(next)
            &&& holds_whole_faces(next)
            &&& next.statistics.positions_visited == mesh.statistics.positions_visited + 1
        },
{
    reveal(visited);
    if is_meshed(context, x, y, z, state) {
        let models = picked_models(state, x, y, z);
        let neighbors = if state.full_opaque_cube {
            bumped_by(mesh.statistics.neighbor_checks, 6)
        } else {
            mesh.statistics.neighbor_checks
        };
        let started = MeshView {
            statistics: MeshStatistics {
                positions_visited: bumped(mesh.statistics.positions_visited),
                non_air_blocks: bumped(mesh.statistics.non_air_blocks),
                model_processed: bumped(mesh.statistics.model_processed),
                model_selections: bumped_by(
                    mesh.statistics.model_selections,
                    state.parts@.len() as int,
                ),
                neighbor_checks: if state.full_opaque_cube {
                    neighbors
                } else {
                    bumped_by(neighbors, models_cullable(models, models.len() as int))
                },
                ..mesh.statistics
            },
            ..mesh
        };
        lemma_with_quads_counts(started, block_quads(context, x, y, z, state, fluid_faces));
    }
}

/// Air draws nothing, and neither does a full cube between full cubes.
pub proof fn lemma_nothing_is_drawn_of_air_and_buried_cubes(
    context: MeshContext,
    mesh: MeshView,
    x: int,
    y: int,
    z: int,
    state: StateModels,
    fluid_faces: Seq<FluidQuad>,
)
    requires
        state.is_nothing() || (state.full_opaque_cube && enclosed(context, x, y, z)),
    ensures
        visited(context, mesh, x, y, z, state, fluid_faces) matches Some(next) && next
            == (MeshView { statistics: next.statistics, ..mesh }),
{
    reveal(visited);
}

/// What is drawn of a model are its faces that nothing hides: each drawn face is
/// one of those, and each of those is drawn.
pub proof fn lemma_shown_faces_are_drawn(
    context: MeshContext,
    x: int,
    y: int,
    z: int,
    state: StateModels,
    model: ModelApplication,
    count: int,
)
    requires
        0 <= count <= model.faces@.len(),
    ensures
        forall|i: int|
            0 <= i < model_quads(context, x, y, z, state, model, count).len() ==> exists|k: int|
                0 <= k < count && !is_culled(context, x, y, z, model, model.faces@[k])
                    && #[trigger] model_quads(context, x, y, z, state, model, count)[i]
                    == #[trigger] face_quad(context, x, y, z, state, model, model.faces@[k]),
        forall|k: int|
            0 <= k < count && !is_culled(context, x, y, z, model, #[trigger] model.faces@[k])
                ==> model_quads(context, x, y, z, state, model, count).contains(
                face_quad(context, x, y, z, state, model, model.faces@[k]),
            ),
    decreases count,
{
    if count > 0 {
        lemma_shown_faces_are_drawn(context, x, y, z, state, model, count - 1);
        let before = model_quads(context, x, y, z, state, model, count - 1);
        let all = model_quads(context, x, y, z, state, model, count);
        let last = face_quad(context, x, y, z, state, model, model.faces@[count - 1]);
        assert forall|i: int| 0 <= i < all.len() implies exists|k: int|
            0 <= k < count && !is_culled(context, x, y, z, model, model.faces@[k])
                && #[trigger] all[i] == #[trigger] face_quad(
                context,
                x,
                y,
                z,
                state,
                model,
                model.faces@[k],
            ) by {
            if i < before.len() {
                assert(before[i] == all[i]);
                let k = choose|k: int|
                    0 <= k < count - 1 && !is_culled(context, x, y, z, model, model.faces@[k])
                        && before[i] == #[trigger] face_quad(
                        context,
                        x,
                        y,
                        z,
                        state,
                        model,
                        model.faces@[k],
                    );
                assert(all[i] == face_quad(context, x, y, z, state, model, model.faces@[k]));
            } else {
                assert(all[i] == last);
            }
        }
        assert forall|k: int|
            0 <= k < count && !is_culled(context, x, y, z, model, #[trigger] model.faces@[k])
            implies all.contains(
            face_quad(context, x, y, z, state, model, model.faces@[k]),
        ) by {
            let quad = face_quad(context, x, y, z, state, model, model.faces@[k]);
            if k < count - 1 {
                assert(before.contains(quad));
                let i = choose|i: int| 0 <= i < before.len() && before[i] == quad;
                assert(all[i] == quad);
            } else {
                assert(all[before.len() as int] == quad);
            }
        }
    }
}

/// The faces between a block and a full cube are not drawn: whatever is drawn of a
/// model is not culled on the side of the cube.
pub proof fn lemma_shared_faces_are_not_drawn(
    context: MeshContext,
    x: int,
    y: int,
    z: int,
    state: StateModels,
    model: ModelApplication,
    direction: Direction,
    i: int,
)
    requires
        hidden(context, x, y, z, direction),
        0 <= i < model_quads(
            context,
            x,
            y,
            z,
            state,
            model,
            model.faces@.len() as int,
        ).len(),
    ensures
        exists|k: int|
            0 <= k < model.faces@.len() && cull_direction(model, model.faces@[k]) != Some(direction)
                && model_quads(context, x, y, z, state, model, model.faces@.len() as int)[i]
                == #[trigger] face_quad(context, x, y, z, state, model, model.faces@[k]),
{
    let count = model.faces@.len() as int;
    lemma_shown_faces_are_drawn(context, x, y, z, state, model, count);
    let quad = model_quads(context, x, y, z, state, model, count)[i];
    let k = choose|k: int|
        0 <= k < count && !is_culled(context, x, y, z, model, model.faces@[k]) && quad
            == #[trigger] face_quad(context, x, y, z, state, model, model.faces@[k]);
    assert(quad == face_quad(context, x, y, z, state, model, model.faces@[k]));
}

/// A glowing block is as bright as can be in every corner.
pub proof fn lemma_glowing_faces_are_bright(
    context: MeshContext,
    x: int,
    y: int,
    z: int,
    state: StateModels,
    model: ModelApplication,
    face: ModelFace,
)
    requires
        state.emissive,
    ensures
        ({
            let quad = face_quad(context, x, y, z, state, model, face);
            let bright = CornerShade { occlusion: 0, light: 15 };
            &&& quad.first == bright
            &&& quad.second == bright
            &&& quad.third == bright
            &&& quad.fourth == bright
        }),
{
    reveal(face_quad);
}

/// A face is drawn as two triangles that go once around its corners, and what is seen
/// from behind too as two more that go around the other way. Each pair covers all four
/// corners.
pub proof fn lemma_faces_are_two_triangles(base: int, two_sided: bool, t: int)
    requires
        0 <= base,
        base + 3 <= u32::MAX,
        0 <= t < 2,
    ensures
        ({
            let indices = face_indices(base, two_sided);
            &&& indices.len() == (if two_sided {
                12nat
            } else {
                6
            })
            &&& base <= indices[3 * t] < indices[3 * t + 1] < indices[3 * t + 2] <= base + 3
            &&& two_sided ==> base + 3 >= indices[6 + 3 * t] > indices[6 + 3 * t + 1] > indices[6
                + 3 * t + 2] >= base
            &&& forall|corner: int|
                #![trigger indices.take(6).contains((base + corner) as u32)]
                0 <= corner < 4 ==> indices.take(6).contains((base + corner) as u32) && (two_sided
                    ==> indices.skip(6).contains((base + corner) as u32))
            &&& forall|corner: int|
                #![trigger indices.contains((base + corner) as u32)]
                (corner == 1 || corner == 3) ==> (indices[1] == base + corner || indices[5] == base
                    + corner)
            &&& indices[0] == indices[3] && indices[2] == indices[4]
            &&& two_sided ==> indices[6] == indices[9] && indices[8] == indices[10]
        }),
{
    let indices = face_indices(base, two_sided);
    let front = indices.take(6);
    assert(front[0] == base && front[1] == base + 1 && front[2] == base + 2 && front[5] == base
        + 3);
    assert forall|corner: int|
        #![trigger indices.take(6).contains((base + corner) as u32)]
        0 <= corner < 4 implies indices.take(6).contains((base + corner) as u32) && (two_sided
        ==> indices.skip(6).contains((base + corner) as u32)) by {
        if corner == 3 {
            assert(front[5] == (base + corner) as u32);
        } else {
            assert(front[corner] == (base + corner) as u32);
        }
        if two_sided {
            let back = indices.skip(6);
            assert(back[0] == base + 3 && back[1] == base + 2 && back[2] == base + 1 && back[5]
                == base);
            if corner == 0 {
                assert(back[5] == (base + corner) as u32);
            } else {
                assert(back[3 - corner] == (base + corner) as u32);
            }
        }
    }
}

/// A face that is added comes last and goes into the batch of its layer alone. It is
/// refused only where the mesh is full.
pub proof fn lemma_faces_go_into_their_batch(mesh: MeshView, quad: MeshQuad)
    ensures
        with_quad(mesh, quad) is None <==> mesh.index_count() >= 6 * MAX_CHUNK_MESH_FACES,
        with_quad(mesh, quad) matches Some(next) ==> {
            let added = face_indices(4 * mesh.quads.len() as int, quad.two_sided);
            &&& next.quads == mesh.quads.push(quad)
            &&& next.index_count() == mesh.index_count() + (if quad.two_sided {
                12int
            } else {
                6
            })
            &&& quad.render_layer is Opaque || quad.render_layer is Cutout ==> next.opaque
                == mesh.opaque + added && next.translucent == mesh.translucent && next.layered
                == mesh.layered
            &&& quad.render_layer is Translucent ==> next.translucent == mesh.translucent + added
                && next.opaque == mesh.opaque && next.layered == mesh.layered
            &&& quad.render_layer is LayeredTranslucent ==> next.layered == mesh.layered + added
                && next.opaque == mesh.opaque && next.translucent == mesh.translucent
        },
{
    assert(mesh.index_count() / 6 >= MAX_CHUNK_MESH_FACES <==> mesh.index_count() >= 6
        * MAX_CHUNK_MESH_FACES);
}

/// What is seen through is never drawn with what is not.
pub proof fn lemma_batches_are_told_apart(a: RenderLayer, b: RenderLayer)
    ensures
        batch_of(a) == 0 <==> a is Opaque || a is Cutout,
        batch_of(a) == 1 <==> a is Translucent,
        batch_of(a) == 2 <==> a is LayeredTranslucent,
        0 <= batch_of(a) <= 2,
{
}

/// A face of a model is drawn where its block stands, as it stands in the model, with the
/// shades of its four corners in their order, from one side only.
pub proof fn lemma_faces_are_drawn_where_their_block_stands(
    context: MeshContext,
    x: i32,
    y: i32,
    z: i32,
    state: StateModels,
    model: ModelApplication,
    face: ModelFace,
)
    ensures
        ({
            let (px, py, pz) = (x as int, y as int, z as int);
            let quad = face_quad(context, px, py, pz, state, model, face);
            &&& quad.x == x && quad.y == y && quad.z == z
            &&& quad.geometry == face.geometry
            &&& quad.direction == face.direction
            &&& quad.render_layer == face.render_layer
            &&& quad.offset == state.model_offset
            &&& quad.tint == tint_spec(context, face.tint_kind, px, py, pz) as u32
            &&& quad.first == corner_shade(context, px, py, pz, state, model, face, 0)
            &&& quad.second == corner_shade(context, px, py, pz, state, model, face, 1)
            &&& quad.third == corner_shade(context, px, py, pz, state, model, face, 2)
            &&& quad.fourth == corner_shade(context, px, py, pz, state, model, face, 3)
            &&& !quad.two_sided && !quad.clipped
        }),
{
    reveal(face_quad);
}

/// A corner is shaded by what touches it where its model asks for that. It has the light
/// of its block where the face may lie anywhere in it, and that of what touches the corner
/// where the face lies on the side of the block.
pub proof fn lemma_corners_have_the_light_of_their_face(
    context: MeshContext,
    x: int,
    y: int,
    z: int,
    state: StateModels,
    model: ModelApplication,
    face: ModelFace,
    corner: int,
)
    requires
        !state.emissive,
        0 <= corner < 4,
    ensures
        ({
            let shade = corner_shade(context, x, y, z, state, model, face, corner);
            let upper = face.shape.upper@[corner];
            &&& !model.ambient_occlusion ==> shade.occlusion == 0
            &&& model.ambient_occlusion ==> shade.occlusion == corner_occlusion(
                context,
                x,
                y,
                z,
                face.direction,
                upper,
            ) as u8
            &&& face.cullface is None ==> shade.light == light_at(
                context.chunks,
                context.geometry,
                x,
                y,
                z,
            ) as u8
            &&& face.cullface is Some ==> shade.light == corner_light(
                context,
                x,
                y,
                z,
                face.direction,
                upper,
            ) as u8
        }),
{
}

/// A face is left out exactly where the neighbor on the side that it names hides it. The
/// side turns with the model, and a face that names none is always drawn.
pub proof fn lemma_faces_are_left_out_behind_their_neighbor(
    context: MeshContext,
    x: int,
    y: int,
    z: int,
    model: ModelApplication,
    face: ModelFace,
)
    ensures
        face.cullface is None ==> !is_culled(context, x, y, z, model, face),
        face.cullface matches Some(side) ==> (is_culled(context, x, y, z, model, face) <==> hidden(
            context,
            x,
            y,
            z,
            rotated(side, model.x_rotation as int, model.y_rotation as int),
        )),
{
}

/// The models of a block are drawn one after the other.
pub proof fn lemma_models_are_drawn_in_order(
    context: MeshContext,
    x: int,
    y: int,
    z: int,
    state: StateModels,
    models: Seq<ModelApplication>,
    n: int,
)
    requires
        0 <= n < models.len(),
    ensures
        models_quads(context, x, y, z, state, models, 0) == Seq::<MeshQuad>::empty(),
        ({
            let before = models_quads(context, x, y, z, state, models, n);
            let after = models_quads(context, x, y, z, state, models, n + 1);
            let own = model_quads(
                context,
                x,
                y,
                z,
                state,
                models[n],
                models[n].faces@.len() as int,
            );
            after.take(before.len() as int) == before && after.skip(before.len() as int) == own
        }),
{
    let before = models_quads(context, x, y, z, state, models, n);
    let after = models_quads(context, x, y, z, state, models, n + 1);
    assert(after.take(before.len() as int) =~= before);
    assert(after.skip(before.len() as int) =~= model_quads(
        context,
        x,
        y,
        z,
        state,
        models[n],
        models[n].faces@.len() as int,
    ));
}

/// The faces that ask for a neighbor are all that name a side.
pub proof fn lemma_faces_that_name_a_side_are_counted(faces: Seq<ModelFace>, n: int)
    requires
        0 <= n <= faces.len(),
    ensures
        cullable(faces, n) == faces.take(n).filter(|face: ModelFace| face.cullface is Some).len(),
    decreases n,
{
    reveal(Seq::filter);
    let named = |face: ModelFace| face.cullface is Some;
    if n > 0 {
        lemma_faces_that_name_a_side_are_counted(faces, n - 1);
        assert(faces.take(n).drop_last() =~= faces.take(n - 1));
        assert(faces.take(n).last() == faces[n - 1]);
    } else {
        assert(faces.take(0).filter(named) =~= Seq::empty());
    }
}

/// The faces of a fluid lie where its block stands and are not moved. They have the light
/// of the fluid on all corners, no shade, and its sides are seen from within too.
pub proof fn lemma_fluid_faces_are_drawn_evenly(
    context: MeshContext,
    x: i32,
    y: i32,
    z: i32,
    fluid: FluidState,
    face: FluidQuad,
)
    ensures
        ({
            let quad = fluid_mesh_quad(context, x as int, y as int, z as int, fluid, face);
            let light = fluid_light(context, fluid.kind, x as int, y as int, z as int) as u8;
            &&& quad.x == x && quad.y == y && quad.z == z
            &&& quad.geometry == face.geometry && quad.direction == face.direction && quad.clipped
                == face.clipped
            &&& quad.offset == ModelOffset::Unmoved
            &&& quad.first == (CornerShade { occlusion: 0, light })
            &&& quad.second == quad.first && quad.third == quad.first && quad.fourth == quad.first
            &&& quad.two_sided <==> face.direction != Direction::Up && face.direction
                != Direction::Down
            &&& quad.render_layer == fluid_layer(fluid.kind)
            &&& quad.tint == tint_spec(
                context,
                fluid_tint(fluid.kind),
                x as int,
                y as int,
                z as int,
            ) as u32
        }),
{
}

/// A block is enclosed where its neighbors hide it on every side.
pub proof fn lemma_enclosed_blocks_are_hidden_on_all_sides(
    context: MeshContext,
    x: int,
    y: int,
    z: int,
)
    ensures
        enclosed(context, x, y, z) <==> forall|direction: Direction| #[trigger]
            hidden(context, x, y, z, direction),
{
    if enclosed(context, x, y, z) {
        assert forall|direction: Direction| #[trigger] hidden(context, x, y, z, direction) by {
            match direction {
                Direction::Down => {},
                Direction::Up => {},
                Direction::North => {},
                Direction::South => {},
                Direction::West => {},
                Direction::East => {},
            }
        }
    }
}

/// The fluid in a block is drawn before the block.
pub proof fn lemma_fluids_are_drawn_before_their_block(
    context: MeshContext,
    x: int,
    y: int,
    z: int,
    state: StateModels,
    fluid_faces: Seq<FluidQuad>,
)
    ensures
        ({
            let quads = block_quads(context, x, y, z, state, fluid_faces);
            let models = picked_models(state, x, y, z);
            let own = models_quads(context, x, y, z, state, models, models.len() as int);
            &&& state.fluid is None ==> quads == own
            &&& state.fluid matches Some(fluid) ==> {
                &&& quads.len() == fluid_faces.len() + own.len()
                &&& forall|i: int|
                    0 <= i < fluid_faces.len() ==> #[trigger] quads[i] == fluid_mesh_quad(
                        context,
                        x,
                        y,
                        z,
                        fluid,
                        fluid_faces[i],
                    )
                &&& quads.skip(fluid_faces.len() as int) == own
            }
        }),
{
    let quads = block_quads(context, x, y, z, state, fluid_faces);
    let models = picked_models(state, x, y, z);
    let own = models_quads(context, x, y, z, state, models, models.len() as int);
    if state.fluid is Some {
        assert(quads.skip(fluid_faces.len() as int) =~= own);
    }
}

/// A cube is asked for its six neighbors, and any other block for those of the faces that
/// name a side. For each of its parts a model is chosen.
pub proof fn lemma_neighbors_that_are_asked_are_counted(
    context: MeshContext,
    mesh: MeshView,
    x: int,
    y: int,
    z: int,
    state: StateModels,
    fluid_faces: Seq<FluidQuad>,
)
    requires
        !state.is_nothing(),
        mesh.statistics.neighbor_checks + models_cullable(
            picked_models(state, x, y, z),
            picked_models(state, x, y, z).len() as int,
        ) + 6 <= u64::MAX,
        mesh.statistics.model_selections + state.parts@.len() <= u64::MAX,
    ensures
        visited(context, mesh, x, y, z, state, fluid_faces) matches Some(next) ==> {
            let models = picked_models(state, x, y, z);
            &&& state.full_opaque_cube ==> next.statistics.neighbor_checks
                == mesh.statistics.neighbor_checks + 6
            &&& !state.full_opaque_cube ==> next.statistics.neighbor_checks
                == mesh.statistics.neighbor_checks + models_cullable(models, models.len() as int)
            &&& is_meshed(context, x, y, z, state) ==> next.statistics.model_selections
                == mesh.statistics.model_selections + state.parts@.len()
        },
{
    let models = picked_models(state, x, y, z);
    lemma_cullable_is_a_count(models, models.len() as int);
    reveal(visited);
    if is_meshed(context, x, y, z, state) {
        let neighbors = if state.full_opaque_cube {
            bumped_by(mesh.statistics.neighbor_checks, 6)
        } else {
            mesh.statistics.neighbor_checks
        };
        let started = MeshView {
            statistics: MeshStatistics {
                positions_visited: bumped(mesh.statistics.positions_visited),
                non_air_blocks: bumped(mesh.statistics.non_air_blocks),
                model_processed: bumped(mesh.statistics.model_processed),
                model_selections: bumped_by(
                    mesh.statistics.model_selections,
                    state.parts@.len() as int,
                ),
                neighbor_checks: if state.full_opaque_cube {
                    neighbors
                } else {
                    bumped_by(neighbors, models_cullable(models, models.len() as int))
                },
                ..mesh.statistics
            },
            ..mesh
        };
        lemma_quads_change_their_count_alone(
            started,
            block_quads(context, x, y, z, state, fluid_faces),
        );
    }
}

proof fn lemma_cullable_is_a_count(models: Seq<ModelApplication>, n: int)
    requires
        0 <= n <= models.len(),
    ensures
        models_cullable(models, n) >= 0,
    decreases n,
{
    if n > 0 {
        lemma_cullable_is_a_count(models, n - 1);
        let faces = models[n - 1].faces@;
        lemma_faces_that_name_a_side_are_counted(faces, faces.len() as int);
    }
}

proof fn lemma_quads_change_their_count_alone(mesh: MeshView, quads: Seq<MeshQuad>)
    ensures
        with_quads(mesh, quads) matches Some(next) ==> next.statistics == (MeshStatistics {
            quads_emitted: next.statistics.quads_emitted,
            ..mesh.statistics
        }),
    decreases quads.len(),
{
    if quads.len() > 0 {
        lemma_quads_change_their_count_alone(mesh, quads.drop_last());
    }
}

} // verus!
