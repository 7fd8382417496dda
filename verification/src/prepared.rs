//! Preparation of the models of block states: their meaning, their place in the
//! atlas and the materials of banners.

use crate::atlas::{known_region, TextureAtlasData};
use crate::direction::{rotate_blockstate_direction, rotated, Direction};
use crate::error::{malformation, malformed, BlockResourceError, Failure};
use crate::identifiers::{identifier_path, path_of};
use crate::resources::{
    AtlasRegion, FaceShape, FluidState, ModelApplication, ModelFace, RenderLayer, StateModels,
    TextureMaterial, TintKind, WeightedApplications,
};
use crate::semantics::{
    layer_of, model_offset_26_1_2, offset_of, render_layer_26_1_2, tint_kind_26_1_2, tint_of,
};
use crate::text::same_text;
use vstd::prelude::*;

verus! {

/// How one face of a model changes, given how the model is turned.
pub type FaceRule = spec_fn(u16, u16, ModelFace) -> ModelFace;

/// A change of one face of a model.
pub trait FaceChange {
    spec fn ready(&self) -> bool;

    spec fn rule(&self) -> FaceRule;

    fn change(&self, x_rotation: u16, y_rotation: u16, face: &mut ModelFace)
        requires
            self.ready(),
        ensures
            *final(face) == (self.rule())(x_rotation, y_rotation, *old(face)),
    ;
}

/// The faces of `after` are those of `before`, each changed.
pub open spec fn faces_changed(
    rule: FaceRule,
    x_rotation: u16,
    y_rotation: u16,
    before: Seq<ModelFace>,
    after: Seq<ModelFace>,
) -> bool {
    &&& after.len() == before.len()
    &&& forall|k: int|
        0 <= k < after.len() ==> #[trigger] after[k] == rule(
            x_rotation,
            y_rotation,
            before[k],
        )
}

/// `after` is `before` with its faces changed; where the change settles the
/// model, it is no longer turned.
pub open spec fn model_changed(
    rule: FaceRule,
    settles: bool,
    before: ModelApplication,
    after: ModelApplication,
) -> bool {
    &&& faces_changed(rule, before.x_rotation, before.y_rotation, before.faces@, after.faces@)
    &&& after.boxes == before.boxes
    &&& after.ambient_occlusion == before.ambient_occlusion
    &&& if settles {
        after.x_rotation == 0 && after.y_rotation == 0 && !after.uvlock
    } else {
        after.x_rotation == before.x_rotation && after.y_rotation == before.y_rotation
            && after.uvlock == before.uvlock
    }
}

pub open spec fn entries_changed(
    rule: FaceRule,
    settles: bool,
    before: Seq<(u32, ModelApplication)>,
    after: Seq<(u32, ModelApplication)>,
) -> bool {
    &&& after.len() == before.len()
    &&& forall|j: int|
        0 <= j < after.len() ==> (#[trigger] after[j]).0 == before[j].0 && model_changed(
            rule,
            settles,
            before[j].1,
            after[j].1,
        )
}

/// `after` holds the models of `before`, with the same weights and changed faces.
pub open spec fn parts_changed(
    rule: FaceRule,
    settles: bool,
    before: Seq<WeightedApplications>,
    after: Seq<WeightedApplications>,
) -> bool {
    &&& after.len() == before.len()
    &&& forall|i: int|
        0 <= i < after.len() ==> (#[trigger] after[i]).total_weight == before[i].total_weight
            && entries_changed(rule, settles, before[i].entries@, after[i].entries@)
}

fn change_model<C: FaceChange>(change: &C, settles: bool, model: &mut ModelApplication)
    requires
        change.ready(),
    ensures
        model_changed(change.rule(), settles, *old(model), *final(model)),
{
    let x_rotation: u16 = model.x_rotation;
    let y_rotation: u16 = model.y_rotation;
    let mut k: usize = 0;
    while k < model.faces.len()
        invariant
            change.ready(),
            k <= model.faces@.len(),
            model.faces@.len() == old(model).faces@.len(),
            model.boxes == old(model).boxes,
            model.ambient_occlusion == old(model).ambient_occlusion,
            model.x_rotation == x_rotation,
            model.y_rotation == y_rotation,
            model.uvlock == old(model).uvlock,
            x_rotation == old(model).x_rotation,
            y_rotation == old(model).y_rotation,
            forall|n: int|
                0 <= n < k ==> #[trigger] model.faces@[n] == (change.rule())(
                    x_rotation,
                    y_rotation,
                    old(model).faces@[n],
                ),
            forall|n: int|
                k <= n < model.faces@.len() ==> #[trigger] model.faces@[n] == old(model).faces@[n],
        decreases model.faces@.len() - k,
    {
        change.change(x_rotation, y_rotation, &mut model.faces[k]);
        k += 1;
    }
    if settles {
        model.x_rotation = 0;
        model.y_rotation = 0;
        model.uvlock = false;
    }
}

fn change_entries<C: FaceChange>(
    change: &C,
    settles: bool,
    entries: &mut Vec<(u32, ModelApplication)>,
)
    requires
        change.ready(),
    ensures
        entries_changed(change.rule(), settles, old(entries)@, final(entries)@),
{
    let mut j: usize = 0;
    while j < entries.len()
        invariant
            change.ready(),
            j <= entries@.len(),
            entries@.len() == old(entries)@.len(),
            forall|n: int|
                0 <= n < j ==> (#[trigger] entries@[n]).0 == old(entries)@[n].0 && model_changed(
                    change.rule(),
                    settles,
                    old(entries)@[n].1,
                    entries@[n].1,
                ),
            forall|n: int| j <= n < entries@.len() ==> #[trigger] entries@[n] == old(entries)@[n],
        decreases entries@.len() - j,
    {
        change_model(change, settles, &mut entries[j].1);
        j += 1;
    }
}

/// Changes every face of every model of a block state.
fn change_parts<C: FaceChange>(
    change: &C,
    settles: bool,
    parts: &mut Vec<WeightedApplications>,
)
    requires
        change.ready(),
    ensures
        parts_changed(change.rule(), settles, old(parts)@, final(parts)@),
{
    let mut i: usize = 0;
    while i < parts.len()
        invariant
            change.ready(),
            i <= parts@.len(),
            parts@.len() == old(parts)@.len(),
            forall|n: int|
                0 <= n < i ==> (#[trigger] parts@[n]).total_weight == old(parts)@[n].total_weight
                    && entries_changed(
                    change.rule(),
                    settles,
                    old(parts)@[n].entries@,
                    parts@[n].entries@,
                ),
            forall|n: int| i <= n < parts@.len() ==> #[trigger] parts@[n] == old(parts)@[n],
        decreases parts@.len() - i,
    {
        change_entries(change, settles, &mut parts[i].entries);
        i += 1;
    }
}

/// The faces of a block have its layer and tint.
pub open spec fn appearance_rule(path: Seq<char>, properties: Seq<(String, String)>) -> FaceRule {
    |x_rotation: u16, y_rotation: u16, face: ModelFace|
        ModelFace {
            render_layer: layer_of(path),
            tint_kind: match face.tint_index {
                Some(index) => tint_of(path, properties, index),
                None => TintKind::Untinted,
            },
            ..face
        }
}

pub struct Appearance<'a> {
    pub path: &'a str,
    pub properties: &'a Vec<(String, String)>,
    pub layer: RenderLayer,
}

impl<'a> FaceChange for Appearance<'a> {
    open spec fn ready(&self) -> bool {
        self.layer == layer_of(self.path@)
    }

    open spec fn rule(&self) -> FaceRule {
        appearance_rule(self.path@, self.properties@)
    }

    fn change(&self, x_rotation: u16, y_rotation: u16, face: &mut ModelFace) {
        face.render_layer = self.layer;
        face.tint_kind = match face.tint_index {
            Some(index) => tint_kind_26_1_2(self.path, self.properties, index),
            None => TintKind::Untinted,
        };
    }
}

/// What a block state is besides its looks.
#[derive(Clone, Copy, Debug, PartialEq, Eq, Structural)]
pub struct BlockEnvironment {
    pub fluid: Option<FluidState>,
    pub emissive: bool,
}

/// The fields that do not describe how a state looks are kept.
pub open spec fn same_nature(before: StateModels, after: StateModels) -> bool {
    &&& after.fluid == before.fluid
    &&& after.fluid_surface_solid == before.fluid_surface_solid
    &&& after.emissive == before.emissive
    &&& after.model_offset == before.model_offset
}

/// Gives the models of a state of a block their meaning. A block is solid for
/// fluid surfaces where its shape is and it holds no fluid.
pub fn apply_state_semantics(
    models: &mut StateModels,
    identifier: &str,
    properties: &Vec<(String, String)>,
    environment: BlockEnvironment,
    solid_shape: bool,
)
    ensures
        parts_changed(
            appearance_rule(path_of(identifier@), properties@),
            false,
            old(models).parts@,
            final(models).parts@,
        ),
        final(models).full_opaque_cube == old(models).full_opaque_cube,
        final(models).fluid == environment.fluid,
        final(models).fluid_surface_solid == (environment.fluid is None && solid_shape),
        final(models).emissive == environment.emissive,
        final(models).model_offset == offset_of(path_of(identifier@)),
{
    let path: &str = identifier_path(identifier);
    let layer: RenderLayer = render_layer_26_1_2(path);
    let appearance: Appearance<'_> = Appearance { path, properties, layer };
    change_parts(&appearance, false, &mut models.parts);
    models.fluid = environment.fluid;
    models.fluid_surface_solid = environment.fluid.is_none() && solid_shape;
    models.emissive = environment.emissive;
    models.model_offset = model_offset_26_1_2(path);
}

pub open spec fn turned(direction: Option<Direction>, x_rotation: u16, y_rotation: u16) -> Option<
    Direction,
> {
    match direction {
        Some(direction) => Some(rotated(direction, x_rotation as int, y_rotation as int)),
        None => None,
    }
}

pub open spec fn seen_layer(layer: RenderLayer, region: AtlasRegion) -> RenderLayer {
    if layer == RenderLayer::Opaque && region.layer == RenderLayer::Cutout {
        RenderLayer::Cutout
    } else {
        layer
    }
}

/// The faces of a model are put in their place: turned, and in the atlas. A face
/// whose texture is not opaque is cut out. `shapes` are those of the turned faces,
/// by their geometry.
pub open spec fn placement_rule(atlas: TextureAtlasData, shapes: Seq<FaceShape>) -> FaceRule {
    |x_rotation: u16, y_rotation: u16, face: ModelFace|
        {
            let region = atlas.region_for(face.texture@);
            ModelFace {
                direction: rotated(face.direction, x_rotation as int, y_rotation as int),
                cullface: turned(face.cullface, x_rotation, y_rotation),
                atlas_region: region,
                render_layer: seen_layer(face.render_layer, region),
                shape: if face.geometry < shapes.len() {
                    shapes[face.geometry as int]
                } else {
                    face.shape
                },
                ..face
            }
        }
}

pub struct Placement<'a> {
    pub atlas: &'a TextureAtlasData,
    pub shapes: &'a Vec<FaceShape>,
}

impl<'a> FaceChange for Placement<'a> {
    open spec fn ready(&self) -> bool {
        self.atlas.regions.well_formed()
    }

    open spec fn rule(&self) -> FaceRule {
        placement_rule(*self.atlas, self.shapes@)
    }

    fn change(&self, x_rotation: u16, y_rotation: u16, face: &mut ModelFace) {
        face.direction = rotate_blockstate_direction(face.direction, x_rotation, y_rotation);
        face.cullface = match face.cullface {
            Some(direction) => Some(
                rotate_blockstate_direction(direction, x_rotation, y_rotation),
            ),
            None => None,
        };
        let region: AtlasRegion = self.atlas.region(face.texture.as_str());
        face.atlas_region = region;
        if face.render_layer == RenderLayer::Opaque && region.layer == RenderLayer::Cutout {
            face.render_layer = RenderLayer::Cutout;
        }
        if face.geometry < self.shapes.len() {
            face.shape = self.shapes[face.geometry];
        }
    }
}

/// Whether a face hides the neighbour on one side.
pub open spec fn closes(face: ModelFace, direction: Direction) -> bool {
    face.cullface == Some(direction) && face.shape.covers_boundary
}

pub open spec fn is_closed(faces: Seq<ModelFace>, direction: Direction) -> bool {
    exists|k: int| 0 <= k < faces.len() && closes(#[trigger] faces[k], direction)
}

/// Whether a model is a full cube: six faces, one for each side, that cover it.
pub open spec fn full_cube(model: ModelApplication) -> bool {
    &&& model.x_rotation == 0
    &&& model.y_rotation == 0
    &&& model.faces@.len() == 6
    &&& is_closed(model.faces@, Direction::Down)
    &&& is_closed(model.faces@, Direction::Up)
    &&& is_closed(model.faces@, Direction::North)
    &&& is_closed(model.faces@, Direction::South)
    &&& is_closed(model.faces@, Direction::West)
    &&& is_closed(model.faces@, Direction::East)
}

fn closed_by(faces: &Vec<ModelFace>, direction: Direction) -> (yes: bool)
    ensures
        yes == is_closed(faces@, direction),
{
    let mut k: usize = 0;
    while k < faces.len()
        invariant
            k <= faces@.len(),
            forall|n: int| 0 <= n < k ==> !closes(#[trigger] faces@[n], direction),
        decreases faces@.len() - k,
    {
        if faces[k].shape.covers_boundary {
            if let Some(cullface) = faces[k].cullface {
                if cullface == direction {
                    assert(closes(faces@[k as int], direction));
                    return true;
                }
            }
        }
        k += 1;
    }
    false
}

pub fn is_full_cube(model: &ModelApplication) -> (yes: bool)
    ensures
        yes == full_cube(*model),
{
    model.x_rotation == 0 && model.y_rotation == 0 && model.faces.len() == 6 && closed_by(
        &model.faces,
        Direction::Down,
    ) && closed_by(&model.faces, Direction::Up) && closed_by(&model.faces, Direction::North)
        && closed_by(&model.faces, Direction::South) && closed_by(&model.faces, Direction::West)
        && closed_by(&model.faces, Direction::East)
}

pub open spec fn all_opaque(faces: Seq<ModelFace>) -> bool {
    forall|k: int| 0 <= k < faces.len() ==> (#[trigger] faces[k]).render_layer == RenderLayer::Opaque
}

pub open spec fn all_opaque_cubes(entries: Seq<(u32, ModelApplication)>) -> bool {
    forall|j: int|
        0 <= j < entries.len() ==> full_cube((#[trigger] entries[j]).1) && all_opaque(
            entries[j].1.faces@,
        )
}

/// Whether a state is one part, every model of which is an opaque full cube.
pub open spec fn is_opaque_cube(parts: Seq<WeightedApplications>) -> bool {
    parts.len() == 1 && all_opaque_cubes(parts[0].entries@)
}

fn opaque_faces(faces: &Vec<ModelFace>) -> (yes: bool)
    ensures
        yes == all_opaque(faces@),
{
    let mut k: usize = 0;
    while k < faces.len()
        invariant
            k <= faces@.len(),
            forall|n: int| 0 <= n < k ==> (#[trigger] faces@[n]).render_layer == RenderLayer::Opaque,
        decreases faces@.len() - k,
    {
        if faces[k].render_layer != RenderLayer::Opaque {
            return false;
        }
        k += 1;
    }
    true
}

fn opaque_cubes(entries: &Vec<(u32, ModelApplication)>) -> (yes: bool)
    ensures
        yes == all_opaque_cubes(entries@),
{
    let mut j: usize = 0;
    while j < entries.len()
        invariant
            j <= entries@.len(),
            forall|n: int|
                0 <= n < j ==> full_cube((#[trigger] entries@[n]).1) && all_opaque(
                    entries@[n].1.faces@,
                ),
        decreases entries@.len() - j,
    {
        if !(is_full_cube(&entries[j].1) && opaque_faces(&entries[j].1.faces)) {
            assert(!(full_cube(entries@[j as int].1) && all_opaque(entries@[j as int].1.faces@)));
            return false;
        }
        j += 1;
    }
    true
}

/// Prepares the models of a state for drawing: no model is turned any more, and
/// every face is in the atlas.
pub fn prepare_runtime_state(
    models: &mut StateModels,
    atlas: &TextureAtlasData,
    shapes: &Vec<FaceShape>,
)
    requires
        atlas.regions.well_formed(),
    ensures
        parts_changed(
            placement_rule(*atlas, shapes@),
            true,
            old(models).parts@,
            final(models).parts@,
        ),
        final(models).full_opaque_cube == is_opaque_cube(final(models).parts@),
        same_nature(*old(models), *final(models)),
{
    change_parts(&Placement { atlas, shapes }, true, &mut models.parts);
    models.full_opaque_cube = models.parts.len() == 1 && opaque_cubes(&models.parts[0].entries);
}

/// A prepared face is settled: to prepare it again changes nothing.
pub proof fn lemma_preparation_settles(
    atlas: TextureAtlasData,
    shapes: Seq<FaceShape>,
    x_rotation: u16,
    y_rotation: u16,
    face: ModelFace,
)
    ensures
        ({
            let rule = placement_rule(atlas, shapes);
            let once = rule(x_rotation, y_rotation, face);
            rule(0, 0, once) == once
        }),
{
    let once = (placement_rule(atlas, shapes))(x_rotation, y_rotation, face);
    assert(rotated(once.direction, 0, 0) == once.direction);
    match once.cullface {
        Some(direction) => {
            assert(rotated(direction, 0, 0) == direction);
        },
        None => {},
    }
}

/// Whether a face is the flag of a banner.
pub open spec fn is_flag(face: ModelFace) -> bool {
    face.texture@ == "minecraft:entity/banner/banner_base"@ && face.tint_index == Some(0u32)
}

pub fn shows_flag(face: &ModelFace) -> (yes: bool)
    ensures
        yes == is_flag(*face),
{
    match face.tint_index {
        Some(index) => index == 0 && same_text(
            face.texture.as_str(),
            "minecraft:entity/banner/banner_base",
        ),
        None => false,
    }
}

/// The flag of a banner is drawn from the banner atlas.
pub open spec fn flag_rule(region: AtlasRegion) -> FaceRule {
    |x_rotation: u16, y_rotation: u16, face: ModelFace|
        if is_flag(face) {
            ModelFace {
                atlas_region: region,
                material: TextureMaterial::BannerPattern,
                ..face
            }
        } else {
            face
        }
}

pub struct FlagMaterial {
    pub region: AtlasRegion,
}

impl FaceChange for FlagMaterial {
    open spec fn ready(&self) -> bool {
        true
    }

    open spec fn rule(&self) -> FaceRule {
        flag_rule(self.region)
    }

    fn change(&self, x_rotation: u16, y_rotation: u16, face: &mut ModelFace) {
        if shows_flag(face) {
            face.atlas_region = self.region;
            face.material = TextureMaterial::BannerPattern;
        }
    }
}

pub open spec fn faces_have_flag(faces: Seq<ModelFace>) -> bool {
    exists|k: int| 0 <= k < faces.len() && is_flag(#[trigger] faces[k])
}

pub open spec fn entries_have_flag(entries: Seq<(u32, ModelApplication)>) -> bool {
    exists|j: int| 0 <= j < entries.len() && faces_have_flag((#[trigger] entries[j]).1.faces@)
}

/// Whether any face of a state is the flag of a banner.
pub open spec fn has_flag(parts: Seq<WeightedApplications>) -> bool {
    exists|i: int| 0 <= i < parts.len() && entries_have_flag((#[trigger] parts[i]).entries@)
}

fn flag_in_faces(faces: &Vec<ModelFace>) -> (yes: bool)
    ensures
        yes == faces_have_flag(faces@),
{
    let mut k: usize = 0;
    while k < faces.len()
        invariant
            k <= faces@.len(),
            forall|n: int| 0 <= n < k ==> !is_flag(#[trigger] faces@[n]),
        decreases faces@.len() - k,
    {
        if shows_flag(&faces[k]) {
            assert(is_flag(faces@[k as int]));
            return true;
        }
        k += 1;
    }
    false
}

fn flag_in_entries(entries: &Vec<(u32, ModelApplication)>) -> (yes: bool)
    ensures
        yes == entries_have_flag(entries@),
{
    let mut j: usize = 0;
    while j < entries.len()
        invariant
            j <= entries@.len(),
            forall|n: int| 0 <= n < j ==> !faces_have_flag((#[trigger] entries@[n]).1.faces@),
        decreases entries@.len() - j,
    {
        if flag_in_faces(&entries[j].1.faces) {
            assert(faces_have_flag(entries@[j as int].1.faces@));
            return true;
        }
        j += 1;
    }
    false
}

fn flag_in_parts(parts: &Vec<WeightedApplications>) -> (yes: bool)
    ensures
        yes == has_flag(parts@),
{
    let mut i: usize = 0;
    while i < parts.len()
        invariant
            i <= parts@.len(),
            forall|n: int| 0 <= n < i ==> !entries_have_flag((#[trigger] parts@[n]).entries@),
        decreases parts@.len() - i,
    {
        if flag_in_entries(&parts[i].entries) {
            assert(entries_have_flag(parts@[i as int].entries@));
            return true;
        }
        i += 1;
    }
    false
}

/// The flag cannot be drawn: its sprite is not in the atlas.
pub open spec fn flag_failure() -> Failure {
    malformation(
        "banner pattern atlas"@,
        "minecraft:entity/banner/banner_base"@,
        "base sprite is missing"@,
    )
}

/// Draws the flags of banners from the banner atlas. It fails where there is a
/// flag and no sprite for it; nothing is changed then.
pub fn bind_banner_base_material(
    models: &mut StateModels,
    banner_atlas: &TextureAtlasData,
) -> (result: Result<(), BlockResourceError>)
    requires
        banner_atlas.regions.well_formed(),
    ensures
        final(models).full_opaque_cube == old(models).full_opaque_cube,
        same_nature(*old(models), *final(models)),
        match known_region(banner_atlas.regions@, "minecraft:entity/banner/banner_base"@) {
            Some(region) => result is Ok && parts_changed(
                flag_rule(region),
                false,
                old(models).parts@,
                final(models).parts@,
            ),
            None => final(models).parts@ == old(models).parts@ && match result {
                Ok(_) => !has_flag(old(models).parts@),
                Err(error) => has_flag(old(models).parts@) && error@ == flag_failure(),
            },
        },
{
    match banner_atlas.exact_region("minecraft:entity/banner/banner_base") {
        Some(region) => {
            change_parts(&FlagMaterial { region }, false, &mut models.parts);
            Ok(())
        },
        None => {
            if flag_in_parts(&models.parts) {
                Err(
                    malformed(
                        "banner pattern atlas",
                        "minecraft:entity/banner/banner_base",
                        "base sprite is missing",
                    ),
                )
            } else {
                Ok(())
            }
        },
    }
}

/// All faces of a block get the layer of the block and the tint of their number, and keep
/// everything else.
pub proof fn lemma_faces_look_like_their_block(
    path: Seq<char>,
    properties: Seq<(String, String)>,
    x_rotation: u16,
    y_rotation: u16,
    face: ModelFace,
)
    ensures
        ({
            let after = appearance_rule(path, properties)(x_rotation, y_rotation, face);
            &&& after.render_layer == layer_of(path)
            &&& face.tint_index is None ==> after.tint_kind == TintKind::Untinted
            &&& face.tint_index matches Some(index) ==> after.tint_kind == tint_of(
                path,
                properties,
                index,
            )
            &&& after == (ModelFace {
                render_layer: after.render_layer,
                tint_kind: after.tint_kind,
                ..face
            })
        }),
{
}

/// A face is turned with its model, and so is the side that hides it. It shows its own
/// region of the atlas, and has holes where its texture has and it hides nothing else by
/// that.
pub proof fn lemma_faces_turn_with_their_model(
    atlas: TextureAtlasData,
    shapes: Seq<FaceShape>,
    x_rotation: u16,
    y_rotation: u16,
    face: ModelFace,
)
    ensures
        ({
            let after = placement_rule(atlas, shapes)(x_rotation, y_rotation, face);
            &&& after.direction == rotated(face.direction, x_rotation as int, y_rotation as int)
            &&& face.cullface is None ==> after.cullface is None
            &&& face.cullface matches Some(side) ==> after.cullface == Some(
                rotated(side, x_rotation as int, y_rotation as int),
            )
            &&& after.atlas_region == atlas.region_for(face.texture@)
            &&& after.geometry == face.geometry && after.texture == face.texture
                && after.tint_index == face.tint_index && after.tint_kind == face.tint_kind
                && after.material == face.material && after.directional_shade
                == face.directional_shade
            &&& face.geometry < shapes.len() ==> after.shape == shapes[face.geometry as int]
            &&& face.geometry >= shapes.len() ==> after.shape == face.shape
            &&& after.render_layer == face.render_layer || (face.render_layer is Opaque
                && after.render_layer is Cutout)
            &&& face.render_layer is Opaque ==> (after.render_layer is Cutout
                <==> after.atlas_region.layer is Cutout)
        }),
{
}

/// A full cube is not turned and has six faces, and on every side one that covers it.
pub proof fn lemma_full_cubes_cover_all_sides(model: ModelApplication)
    ensures
        full_cube(model) <==> model.x_rotation == 0 && model.y_rotation == 0 && model.faces@.len()
            == 6 && forall|direction: Direction| #[trigger] is_closed(model.faces@, direction),
        forall|direction: Direction| #[trigger]
            is_closed(model.faces@, direction) <==> exists|k: int|
                0 <= k < model.faces@.len() && (#[trigger] model.faces@[k]).cullface == Some(
                    direction,
                ) && model.faces@[k].shape.covers_boundary,
{
    if full_cube(model) {
        assert forall|direction: Direction| #[trigger] is_closed(model.faces@, direction) by {
            match direction {
                Direction::Down => {},
                Direction::Up => {},
                Direction::North => {},
                Direction::South => {},
                Direction::West => {},
                Direction::East => {},
            }
        }
    }
    assert forall|direction: Direction| #[trigger]
        is_closed(model.faces@, direction) <==> exists|k: int|
            0 <= k < model.faces@.len() && (#[trigger] model.faces@[k]).cullface == Some(direction)
                && model.faces@[k].shape.covers_boundary by {
        if is_closed(model.faces@, direction) {
            let k = choose|k: int|
                0 <= k < model.faces@.len() && closes(#[trigger] model.faces@[k], direction);
            assert(model.faces@[k].cullface == Some(direction));
        }
        if exists|k: int|
            0 <= k < model.faces@.len() && (#[trigger] model.faces@[k]).cullface == Some(direction)
                && model.faces@[k].shape.covers_boundary {
            let k = choose|k: int|
                0 <= k < model.faces@.len() && (#[trigger] model.faces@[k]).cullface == Some(
                    direction,
                ) && model.faces@[k].shape.covers_boundary;
            assert(closes(model.faces@[k], direction));
        }
    }
}

/// A block is an opaque cube where it has one part alone, and each model that may be drawn
/// for it is a full cube without a hole.
pub proof fn lemma_opaque_cubes_have_no_holes(
    parts: Seq<WeightedApplications>,
    j: int,
    k: int,
)
    requires
        is_opaque_cube(parts),
        0 <= j < parts[0].entries@.len(),
        0 <= k < parts[0].entries@[j].1.faces@.len(),
    ensures
        parts.len() == 1,
        full_cube(parts[0].entries@[j].1),
        parts[0].entries@[j].1.faces@[k].render_layer is Opaque,
{
    assert(full_cube(parts[0].entries@[j].1) && all_opaque(parts[0].entries@[j].1.faces@));
}

/// Only the flag of a banner changes its region and material, and nothing else of it.
pub proof fn lemma_only_flags_are_painted(
    region: AtlasRegion,
    x_rotation: u16,
    y_rotation: u16,
    face: ModelFace,
)
    ensures
        ({
            let after = flag_rule(region)(x_rotation, y_rotation, face);
            let flag = face.texture@ == "minecraft:entity/banner/banner_base"@ && face.tint_index
                == Some(0u32);
            &&& !flag ==> after == face
            &&& flag ==> after.atlas_region == region && after.material
                == TextureMaterial::BannerPattern && after == (ModelFace {
                atlas_region: region,
                material: TextureMaterial::BannerPattern,
                ..face
            })
        }),
{
}

/// A model that is settled is drawn as it stands; one that is not keeps its turns. Its
/// boxes and its shading stay either way.
pub proof fn lemma_settled_models_are_not_turned(
    rule: FaceRule,
    before: ModelApplication,
    after: ModelApplication,
    settles: bool,
)
    requires
        model_changed(rule, settles, before, after),
    ensures
        after.boxes == before.boxes && after.ambient_occlusion == before.ambient_occlusion,
        after.faces@.len() == before.faces@.len(),
        forall|k: int|
            0 <= k < after.faces@.len() ==> #[trigger] after.faces@[k] == rule(
                before.x_rotation,
                before.y_rotation,
                before.faces@[k],
            ),
        settles ==> after.x_rotation == 0 && after.y_rotation == 0 && !after.uvlock,
        !settles ==> after.x_rotation == before.x_rotation && after.y_rotation == before.y_rotation
            && after.uvlock == before.uvlock,
{
}

} // verus!
