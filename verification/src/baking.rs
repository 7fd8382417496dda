//! Faces of models, and the models of block states made of them.

use crate::blockstate::{add_weight, added_weight, ModelReference, ReferenceModel};
use crate::direction::{direction_named, parse_direction, uv_axes, Direction, Vector};
use crate::error::{malformation, malformed, BlockResourceError, Failure};
use crate::models::{
    resolve_texture, texture_for, ElementTurn, ElementWire, FaceWire, Textures,
    MAX_FLUID_OCCLUSION_BOXES,
};
use crate::names::NameMap;
use crate::prepared::{closes, full_cube, is_closed, is_full_cube};
use crate::resources::{
    AtlasRegion, FaceShape, ModelApplication, ModelFace, ModelOffset, RenderLayer, StateModels,
    TextureMaterial, TintKind, WeightedApplications,
};
use crate::selection::weight_sum;
use crate::text::same_text;
use vstd::prelude::*;

verus! {

/// What a model says of one of its faces.
pub struct FaceModel {
    pub geometry: usize,
    pub direction: Direction,
    pub shape: FaceShape,
    pub texture: Seq<char>,
    pub cullface: Option<Direction>,
    pub tint_index: Option<u32>,
    pub directional_shade: bool,
}

/// The region of a face that is not in an atlas yet.
pub open spec fn no_region() -> AtlasRegion {
    AtlasRegion { x: 0, y: 0, width: 0, height: 0, layer: RenderLayer::Opaque }
}

/// `face` is a face of a model that nothing was done to yet: it is opaque, has no
/// tint, and is not in an atlas.
pub open spec fn is_face(face: ModelFace, model: FaceModel) -> bool {
    &&& face.geometry == model.geometry
    &&& face.direction == model.direction
    &&& face.shape == model.shape
    &&& face.texture@ == model.texture
    &&& face.cullface == model.cullface
    &&& face.tint_index == model.tint_index
    &&& face.directional_shade == model.directional_shade
    &&& face.atlas_region == no_region()
    &&& face.material == TextureMaterial::Terrain
    &&& face.tint_kind == TintKind::Untinted
    &&& face.render_layer == RenderLayer::Opaque
}

pub open spec fn are_faces(faces: Seq<ModelFace>, models: Seq<FaceModel>) -> bool {
    &&& faces.len() == models.len()
    &&& forall|i: int| 0 <= i < faces.len() ==> is_face(#[trigger] faces[i], models[i])
}

/// Why an element cannot be turned as it asks.
pub open spec fn turn_failure(turn: Option<ElementTurn>) -> Option<Failure> {
    match turn {
        Some(turn) => if !turn.angle_supported {
            Some(malformation("model"@, "element rotation"@, "unsupported angle"@))
        } else if turn.axis@ != "x"@ && turn.axis@ != "y"@ && turn.axis@ != "z"@ {
            Some(malformation("model"@, "element rotation"@, "unknown axis"@))
        } else {
            None
        },
        None => None,
    }
}

fn check_turn(turn: &Option<ElementTurn>) -> (result: Result<(), BlockResourceError>)
    ensures
        match (result, turn_failure(*turn)) {
            (Ok(_), None) => true,
            (Err(error), Some(failure)) => error@ == failure,
            _ => false,
        },
{
    match turn {
        Some(turn) => {
            if !turn.angle_supported {
                return Err(malformed("model", "element rotation", "unsupported angle"));
            }
            let axis: &str = turn.axis.as_str();
            if !same_text(axis, "x") && !same_text(axis, "y") && !same_text(axis, "z") {
                return Err(malformed("model", "element rotation", "unknown axis"));
            }
            Ok(())
        },
        None => Ok(()),
    }
}

pub open spec fn cull_direction(cullface: Option<String>) -> Option<Direction> {
    match cullface {
        Some(name) => direction_named(name@),
        None => None,
    }
}

/// The face that an element has in a direction.
pub open spec fn face_of(
    element: ElementWire,
    name: Seq<char>,
    wire: FaceWire,
    textures: Textures,
) -> Result<FaceModel, Failure> {
    match direction_named(name) {
        None => Err(malformation("model"@, "face"@, "unknown direction"@)),
        Some(direction) => match turn_failure(element.turn) {
            Some(failure) => Err(failure),
            None => match texture_for(textures, wire.texture@) {
                Err(failure) => Err(failure),
                Ok(texture) => Ok(
                    FaceModel {
                        geometry: wire.geometry,
                        direction,
                        shape: wire.shape,
                        texture,
                        cullface: cull_direction(wire.cullface),
                        tint_index: wire.tintindex,
                        directional_shade: element.shade,
                    },
                ),
            },
        },
    }
}

/// The first `n` faces of an element.
pub open spec fn element_faces(element: ElementWire, textures: Textures, n: int) -> Result<
    Seq<FaceModel>,
    Failure,
>
    decreases n,
{
    if n <= 0 {
        Ok(Seq::empty())
    } else {
        match element_faces(element, textures, n - 1) {
            Err(failure) => Err(failure),
            Ok(faces) => match face_of(
                element,
                element.faces@[n - 1].0@,
                element.faces@[n - 1].1,
                textures,
            ) {
                Err(failure) => Err(failure),
                Ok(face) => Ok(faces.push(face)),
            },
        }
    }
}

/// The faces of the first `n` elements of a model, element by element.
pub open spec fn model_faces(elements: Seq<ElementWire>, textures: Textures, n: int) -> Result<
    Seq<FaceModel>,
    Failure,
>
    decreases n,
{
    if n <= 0 {
        Ok(Seq::empty())
    } else {
        match model_faces(elements, textures, n - 1) {
            Err(failure) => Err(failure),
            Ok(faces) => if !elements[n - 1].in_bounds {
                Err(malformation("model"@, "element"@, "element bounds are invalid"@))
            } else {
                match element_faces(
                    elements[n - 1],
                    textures,
                    elements[n - 1].faces@.len() as int,
                ) {
                    Err(failure) => Err(failure),
                    Ok(more) => Ok(faces + more),
                }
            },
        }
    }
}

proof fn lemma_face_failure_persists(element: ElementWire, textures: Textures, k: int, n: int)
    requires
        0 <= k <= n,
        element_faces(element, textures, k) is Err,
    ensures
        element_faces(element, textures, n) == element_faces(element, textures, k),
    decreases n - k,
{
    if k < n {
        lemma_face_failure_persists(element, textures, k, n - 1);
    }
}

proof fn lemma_element_failure_persists(
    elements: Seq<ElementWire>,
    textures: Textures,
    k: int,
    n: int,
)
    requires
        0 <= k <= n,
        model_faces(elements, textures, k) is Err,
    ensures
        model_faces(elements, textures, n) == model_faces(elements, textures, k),
    decreases n - k,
{
    if k < n {
        lemma_element_failure_persists(elements, textures, k, n - 1);
    }
}

fn bake_face(
    element: &ElementWire,
    name: &str,
    wire: &FaceWire,
    textures: &NameMap<String>,
) -> (result: Result<ModelFace, BlockResourceError>)
    requires
        textures.well_formed(),
    ensures
        match (result, face_of(*element, name@, *wire, textures@)) {
            (Ok(face), Ok(model)) => is_face(face, model),
            (Err(error), Err(failure)) => error@ == failure,
            _ => false,
        },
{
    let direction: Direction = match parse_direction(name) {
        Some(direction) => direction,
        None => return Err(malformed("model", "face", "unknown direction")),
    };
    match check_turn(&element.turn) {
        Ok(_) => {},
        Err(error) => return Err(error),
    }
    let texture: String = match resolve_texture(wire.texture.as_str(), textures) {
        Ok(texture) => texture,
        Err(error) => return Err(error),
    };
    let cullface: Option<Direction> = match &wire.cullface {
        Some(name) => parse_direction(name.as_str()),
        None => None,
    };
    Ok(
        ModelFace {
            geometry: wire.geometry,
            direction,
            shape: wire.shape,
            texture,
            atlas_region: AtlasRegion {
                x: 0,
                y: 0,
                width: 0,
                height: 0,
                layer: RenderLayer::Opaque,
            },
            material: TextureMaterial::Terrain,
            cullface,
            tint_index: wire.tintindex,
            tint_kind: TintKind::Untinted,
            render_layer: RenderLayer::Opaque,
            directional_shade: element.shade,
        },
    )
}

fn bake_element(
    element: &ElementWire,
    textures: &NameMap<String>,
    faces: &mut Vec<ModelFace>,
    Ghost(earlier): Ghost<Seq<FaceModel>>,
) -> (result: Result<(), BlockResourceError>)
    requires
        textures.well_formed(),
        are_faces(old(faces)@, earlier),
    ensures
        match (result, element_faces(*element, textures@, element.faces@.len() as int)) {
            (Ok(_), Ok(models)) => are_faces(final(faces)@, earlier + models),
            (Err(error), Err(failure)) => error@ == failure,
            _ => false,
        },
{
    let mut i: usize = 0;
    let ghost mut models: Seq<FaceModel> = Seq::empty();
    assert(earlier + models =~= earlier);
    while i < element.faces.len()
        invariant
            i <= element.faces@.len(),
            textures.well_formed(),
            element_faces(*element, textures@, i as int) == Ok::<Seq<FaceModel>, Failure>(models),
            are_faces(faces@, earlier + models),
        decreases element.faces@.len() - i,
    {
        match bake_face(
            element,
            element.faces[i].0.as_str(),
            &element.faces[i].1,
            textures,
        ) {
            Ok(face) => {
                let ghost before = faces@;
                let ghost model = face_of(
                    *element,
                    element.faces@[i as int].0@,
                    element.faces@[i as int].1,
                    textures@,
                )->Ok_0;
                faces.push(face);
                proof {
                    let longer = models.push(model);
                    assert forall|k: int| 0 <= k < faces@.len() implies is_face(
                        #[trigger] faces@[k],
                        (earlier + longer)[k],
                    ) by {
                        if k < before.len() {
                            assert(is_face(before[k], (earlier + models)[k]));
                            assert((earlier + longer)[k] == (earlier + models)[k]);
                        }
                    }
                    models = longer;
                }
            },
            Err(error) => {
                proof {
                    lemma_face_failure_persists(
                        *element,
                        textures@,
                        i + 1,
                        element.faces@.len() as int,
                    );
                }
                return Err(error);
            },
        }
        i += 1;
    }
    Ok(())
}

/// The faces of a model.
pub fn bake_model(elements: &Vec<ElementWire>, textures: &NameMap<String>) -> (result: Result<
    Vec<ModelFace>,
    BlockResourceError,
>)
    requires
        textures.well_formed(),
    ensures
        match (result, model_faces(elements@, textures@, elements@.len() as int)) {
            (Ok(faces), Ok(models)) => are_faces(faces@, models),
            (Err(error), Err(failure)) => error@ == failure,
            _ => false,
        },
{
    let mut faces: Vec<ModelFace> = Vec::new();
    let ghost mut models: Seq<FaceModel> = Seq::empty();
    let mut i: usize = 0;
    while i < elements.len()
        invariant
            i <= elements@.len(),
            textures.well_formed(),
            model_faces(elements@, textures@, i as int) == Ok::<Seq<FaceModel>, Failure>(models),
            are_faces(faces@, models),
        decreases elements@.len() - i,
    {
        if !elements[i].in_bounds {
            proof {
                lemma_element_failure_persists(
                    elements@,
                    textures@,
                    i + 1,
                    elements@.len() as int,
                );
            }
            return Err(malformed("model", "element", "element bounds are invalid"));
        }
        match bake_element(&elements[i], textures, &mut faces, Ghost(models)) {
            Ok(_) => {
                proof {
                    models = models + element_faces(
                        elements@[i as int],
                        textures@,
                        elements@[i as int].faces@.len() as int,
                    )->Ok_0;
                }
            },
            Err(error) => {
                proof {
                    lemma_element_failure_persists(
                        elements@,
                        textures@,
                        i + 1,
                        elements@.len() as int,
                    );
                }
                return Err(error);
            },
        }
        i += 1;
    }
    Ok(faces)
}

/// The elements among the first `n` that are not turned.
pub open spec fn level_elements(elements: Seq<ElementWire>, n: int) -> Seq<int>
    decreases n,
{
    if n <= 0 {
        Seq::empty()
    } else {
        let before = level_elements(elements, n - 1);
        if elements[n - 1].turn is None {
            before.push(n - 1)
        } else {
            before
        }
    }
}

pub open spec fn indices(places: Seq<usize>) -> Seq<int> {
    places.map_values(|place: usize| place as int)
}

/// The elements whose boxes hold fluids back: those that are not turned, up to a
/// limit.
pub open spec fn solid_elements(elements: Seq<ElementWire>) -> Seq<int> {
    let level = level_elements(elements, elements.len() as int);
    if level.len() <= MAX_FLUID_OCCLUSION_BOXES {
        level
    } else {
        level.take(MAX_FLUID_OCCLUSION_BOXES as int)
    }
}

proof fn lemma_level_elements_grow(elements: Seq<ElementWire>, k: int, n: int)
    requires
        0 <= k <= n,
    ensures
        level_elements(elements, k).len() <= level_elements(elements, n).len(),
        level_elements(elements, n).take(level_elements(elements, k).len() as int)
            == level_elements(elements, k),
    decreases n - k,
{
    if k < n {
        lemma_level_elements_grow(elements, k, n - 1);
        let shorter = level_elements(elements, k);
        assert(level_elements(elements, n).take(shorter.len() as int) =~= level_elements(
            elements,
            n - 1,
        ).take(shorter.len() as int));
    } else {
        assert(level_elements(elements, k).take(level_elements(elements, k).len() as int)
            =~= level_elements(elements, k));
    }
}

/// The elements of a model whose boxes hold fluids back.
pub fn model_solid_boxes(elements: &Vec<ElementWire>) -> (places: Vec<usize>)
    ensures
        indices(places@) == solid_elements(elements@),
{
    let mut places: Vec<usize> = Vec::new();
    let mut i: usize = 0;
    assert(indices(places@) =~= Seq::<int>::empty());
    while i < elements.len() && places.len() < MAX_FLUID_OCCLUSION_BOXES
        invariant
            i <= elements@.len(),
            places@.len() <= MAX_FLUID_OCCLUSION_BOXES,
            indices(places@) == level_elements(elements@, i as int),
        decreases elements@.len() - i,
    {
        if elements[i].turn.is_none() {
            let ghost before = places@;
            places.push(i);
            assert(indices(places@) =~= indices(before).push(i as int));
        }
        i += 1;
    }
    proof {
        lemma_level_elements_grow(elements@, i as int, elements@.len() as int);
        assert(indices(places@).len() == places@.len());
        if i < elements@.len() {
            let level = level_elements(elements@, elements@.len() as int);
            assert(level.take(MAX_FLUID_OCCLUSION_BOXES as int) =~= indices(places@));
        }
    }
    places
}

/// A model whose faces are made. Its solid boxes are held by the presentation
/// layer under `boxes`.
#[derive(Debug)]
pub struct BakedModel {
    pub faces: Vec<ModelFace>,
    pub boxes: usize,
    pub ambient_occlusion: bool,
}

/// The model as a block state applies it.
pub open spec fn application_of(reference: ReferenceModel, model: BakedModel) -> ModelApplication {
    ModelApplication {
        faces: model.faces,
        boxes: model.boxes,
        x_rotation: reference.x,
        y_rotation: reference.y,
        uvlock: reference.uvlock,
        ambient_occlusion: model.ambient_occlusion,
    }
}

/// Gathers the models of a block state, group by group.
#[derive(Debug)]
pub struct StateBuilder {
    pub parts: Vec<WeightedApplications>,
    pub entries: Vec<(u32, ModelApplication)>,
    pub total_weight: u32,
}

pub open spec fn all_full_cubes(entries: Seq<(u32, ModelApplication)>) -> bool {
    forall|j: int| 0 <= j < entries.len() ==> full_cube((#[trigger] entries[j]).1)
}

fn full_cubes(entries: &Vec<(u32, ModelApplication)>) -> (yes: bool)
    ensures
        yes == all_full_cubes(entries@),
{
    let mut j: usize = 0;
    while j < entries.len()
        invariant
            j <= entries@.len(),
            forall|n: int| 0 <= n < j ==> full_cube((#[trigger] entries@[n]).1),
        decreases entries@.len() - j,
    {
        if !is_full_cube(&entries[j].1) {
            assert(!full_cube(entries@[j as int].1));
            return false;
        }
        j += 1;
    }
    true
}

/// The total weight is the sum of the weights, and fits in an `i32`.
pub open spec fn is_balanced(entries: Seq<(u32, ModelApplication)>, total_weight: u32) -> bool {
    total_weight == weight_sum(entries, entries.len() as int) && total_weight <= i32::MAX
}

/// Every part has models, and their total weight is right.
pub open spec fn parts_balanced(parts: Seq<WeightedApplications>) -> bool {
    forall|i: int|
        0 <= i < parts.len() ==> (#[trigger] parts[i]).entries@.len() > 0 && is_balanced(
            parts[i].entries@,
            parts[i].total_weight,
        )
}

proof fn lemma_weight_sum_of_longer(
    entries: Seq<(u32, ModelApplication)>,
    entry: (u32, ModelApplication),
    n: int,
)
    requires
        0 <= n <= entries.len(),
    ensures
        weight_sum(entries.push(entry), n) == weight_sum(entries, n),
    decreases n,
{
    if n > 0 {
        lemma_weight_sum_of_longer(entries, entry, n - 1);
    }
}

impl StateBuilder {
    pub open spec fn well_formed(self) -> bool {
        parts_balanced(self.parts@) && is_balanced(self.entries@, self.total_weight)
    }

    pub fn new() -> (builder: Self)
        ensures
            builder.well_formed(),
            builder.parts@.len() == 0,
            builder.entries@.len() == 0,
            builder.total_weight == 0,
    {
        StateBuilder { parts: Vec::new(), entries: Vec::new(), total_weight: 0 }
    }

    /// Adds a model to the current group. It fails where the weights of the group
    /// grow too large.
    pub fn add_model(&mut self, reference: &ModelReference, model: BakedModel) -> (result: Result<
        (),
        BlockResourceError,
    >)
        ensures
            old(self).well_formed() ==> final(self).well_formed(),
            match (result, added_weight(old(self).total_weight, reference@)) {
                (Ok(_), Ok(total)) => {
                    &&& final(self).total_weight == total
                    &&& final(self).parts@ == old(self).parts@
                    &&& final(self).entries@ == old(self).entries@.push(
                        (reference.weight, application_of(reference@, model)),
                    )
                },
                (Err(error), Err(failure)) => error@ == failure && *final(self) == *old(self),
                _ => false,
            },
    {
        match add_weight(self.total_weight, reference) {
            Ok(total) => {
                proof {
                    lemma_weight_sum_of_longer(
                        self.entries@,
                        (reference.weight, application_of(reference@, model)),
                        self.entries@.len() as int,
                    );
                }
                self.total_weight = total;
                self.entries.push(
                    (
                        reference.weight,
                        ModelApplication {
                            faces: model.faces,
                            boxes: model.boxes,
                            x_rotation: reference.x,
                            y_rotation: reference.y,
                            uvlock: reference.uvlock,
                            ambient_occlusion: model.ambient_occlusion,
                        },
                    ),
                );
                Ok(())
            },
            Err(error) => Err(error),
        }
    }

    /// Ends the current group. A group without models is dropped.
    pub fn end_group(&mut self)
        ensures
            old(self).well_formed() ==> final(self).well_formed(),
            final(self).entries@.len() == 0,
            final(self).total_weight == 0,
            if old(self).entries@.len() == 0 {
                final(self).parts@ == old(self).parts@
            } else {
                final(self).parts@ == old(self).parts@.push(
                    WeightedApplications {
                        entries: old(self).entries,
                        total_weight: old(self).total_weight,
                    },
                )
            },
    {
        let mut entries: Vec<(u32, ModelApplication)> = Vec::new();
        std::mem::swap(&mut entries, &mut self.entries);
        if entries.len() > 0 {
            self.parts.push(WeightedApplications { entries, total_weight: self.total_weight });
        }
        self.total_weight = 0;
    }

    /// The models of the state.
    pub fn finish(self) -> (models: StateModels)
        ensures
            self.well_formed() ==> parts_balanced(models.parts@),
            models.parts@ == self.parts@,
            models.full_opaque_cube == (self.parts@.len() == 1 && all_full_cubes(
                self.parts@[0].entries@,
            )),
            models.fluid is None,
            !models.fluid_surface_solid,
            !models.emissive,
            models.model_offset == ModelOffset::Unmoved,
    {
        let full_opaque_cube: bool = self.parts.len() == 1 && full_cubes(&self.parts[0].entries);
        StateModels {
            parts: self.parts,
            full_opaque_cube,
            fluid: None,
            fluid_surface_solid: false,
            emissive: false,
            model_offset: ModelOffset::Unmoved,
        }
    }
}

/// The corners of a side of a box: for each corner and axis, whether it is the upper
/// end. The first corner has the least texture coordinates, and the second the
/// greatest along the sprite's height.
pub open spec fn unit_corners(direction: Direction) -> [[bool; 3]; 4] {
    match direction {
        Direction::East => [
            [true, true, true],
            [true, false, true],
            [true, false, false],
            [true, true, false],
        ],
        Direction::West => [
            [false, true, false],
            [false, false, false],
            [false, false, true],
            [false, true, true],
        ],
        Direction::Up => [
            [false, true, false],
            [false, true, true],
            [true, true, true],
            [true, true, false],
        ],
        Direction::Down => [
            [false, false, true],
            [false, false, false],
            [true, false, false],
            [true, false, true],
        ],
        Direction::South => [
            [false, true, true],
            [false, false, true],
            [true, false, true],
            [true, true, true],
        ],
        Direction::North => [
            [true, true, false],
            [true, false, false],
            [false, false, false],
            [false, true, false],
        ],
    }
}

pub fn face_corners(direction: Direction) -> (corners: [[bool; 3]; 4])
    ensures
        corners == unit_corners(direction),
{
    match direction {
        Direction::East => [
            [true, true, true],
            [true, false, true],
            [true, false, false],
            [true, true, false],
        ],
        Direction::West => [
            [false, true, false],
            [false, false, false],
            [false, false, true],
            [false, true, true],
        ],
        Direction::Up => [
            [false, true, false],
            [false, true, true],
            [true, true, true],
            [true, true, false],
        ],
        Direction::Down => [
            [false, false, true],
            [false, false, false],
            [true, false, false],
            [true, false, true],
        ],
        Direction::South => [
            [false, true, true],
            [false, false, true],
            [true, false, true],
            [true, true, true],
        ],
        Direction::North => [
            [true, true, false],
            [true, false, false],
            [false, false, false],
            [false, true, false],
        ],
    }
}

/// A corner of a side of the unit cube.
pub open spec fn unit_corner(direction: Direction, corner: int) -> Vector {
    let upper = unit_corners(direction)@[corner]@;
    let place = |axis: int| if upper[axis] {
        1int
    } else {
        0
    };
    (place(0), place(1), place(2))
}

pub open spec fn difference(a: Vector, b: Vector) -> Vector {
    (a.0 - b.0, a.1 - b.1, a.2 - b.2)
}

pub open spec fn cross(a: Vector, b: Vector) -> Vector {
    (a.1 * b.2 - a.2 * b.1, a.2 * b.0 - a.0 * b.2, a.0 * b.1 - a.1 * b.0)
}

/// The corners of a side follow the axes of its texture, and go round it so that
/// the side is seen from outside.
pub proof fn lemma_corners_follow_the_texture(direction: Direction)
    ensures
        difference(unit_corner(direction, 3), unit_corner(direction, 0)) == uv_axes(direction).0,
        difference(unit_corner(direction, 2), unit_corner(direction, 1)) == uv_axes(direction).0,
        difference(unit_corner(direction, 0), unit_corner(direction, 1)) == uv_axes(direction).1,
        difference(unit_corner(direction, 3), unit_corner(direction, 2)) == uv_axes(direction).1,
        cross(
            difference(unit_corner(direction, 1), unit_corner(direction, 0)),
            difference(unit_corner(direction, 2), unit_corner(direction, 0)),
        ) == direction.step(),
{
    match direction {
        Direction::Down => {
            lemma_cross((0int, 0int, -1int), (1int, 0int, -1int));
        },
        Direction::Up => {
            lemma_cross((0int, 0int, 1int), (1int, 0int, 1int));
        },
        Direction::North => {
            lemma_cross((0int, -1int, 0int), (-1int, -1int, 0int));
        },
        Direction::South => {
            lemma_cross((0int, -1int, 0int), (1int, -1int, 0int));
        },
        Direction::West => {
            lemma_cross((0int, -1int, 0int), (0int, -1int, 1int));
        },
        Direction::East => {
            lemma_cross((0int, -1int, 0int), (0int, -1int, -1int));
        },
    }
}

proof fn lemma_cross(a: Vector, b: Vector)
    requires
        -1 <= a.0 <= 1 && -1 <= a.1 <= 1 && -1 <= a.2 <= 1,
        -1 <= b.0 <= 1 && -1 <= b.1 <= 1 && -1 <= b.2 <= 1,
    ensures
        cross(a, b) == (
            signed(a.1, b.2) - signed(a.2, b.1),
            signed(a.2, b.0) - signed(a.0, b.2),
            signed(a.0, b.1) - signed(a.1, b.0),
        ),
{
    lemma_signed(a.1, b.2);
    lemma_signed(a.2, b.1);
    lemma_signed(a.2, b.0);
    lemma_signed(a.0, b.2);
    lemma_signed(a.0, b.1);
    lemma_signed(a.1, b.0);
}

/// `b`, zero or `-b`, as `a` is positive, zero or negative.
spec fn signed(a: int, b: int) -> int {
    if a > 0 {
        b
    } else if a < 0 {
        -b
    } else {
        0
    }
}

proof fn lemma_signed(a: int, b: int)
    requires
        -1 <= a <= 1,
    ensures
        a * b == signed(a, b),
{
    assert(1 * b == b && 0 * b == 0 && -1 * b == -b) by (nonlinear_arith);
}

/// A side of the cube that stands for what has no model.
pub open spec fn missing_side(direction: Direction, geometry: usize) -> FaceModel {
    FaceModel {
        geometry,
        direction,
        shape: FaceShape { upper: unit_corners(direction), covers_boundary: true },
        texture: "cubic:missing"@,
        cullface: Some(direction),
        tint_index: None,
        directional_shade: true,
    }
}

/// The sides of that cube, in the order of their names.
pub open spec fn missing_sides(geometry: int) -> Seq<FaceModel> {
    seq![
        missing_side(Direction::Down, geometry as usize),
        missing_side(Direction::East, (geometry + 1) as usize),
        missing_side(Direction::North, (geometry + 2) as usize),
        missing_side(Direction::South, (geometry + 3) as usize),
        missing_side(Direction::Up, (geometry + 4) as usize),
        missing_side(Direction::West, (geometry + 5) as usize),
    ]
}

fn missing_face(direction: Direction, geometry: usize) -> (face: ModelFace)
    ensures
        is_face(face, missing_side(direction, geometry)),
{
    ModelFace {
        geometry,
        direction,
        shape: FaceShape { upper: face_corners(direction), covers_boundary: true },
        texture: "cubic:missing".to_owned(),
        atlas_region: AtlasRegion { x: 0, y: 0, width: 0, height: 0, layer: RenderLayer::Opaque },
        material: TextureMaterial::Terrain,
        cullface: Some(direction),
        tint_index: None,
        tint_kind: TintKind::Untinted,
        render_layer: RenderLayer::Opaque,
        directional_shade: true,
    }
}

/// What stands for a block state without a model: an opaque cube with the missing
/// texture. Its corners are held under `geometry` and the five that follow.
pub fn fallback_state(geometry: usize, boxes: usize) -> (models: StateModels)
    requires
        geometry + 5 <= usize::MAX,
    ensures
        parts_balanced(models.parts@),
        models.parts@.len() == 1,
        models.parts@[0].total_weight == 1,
        models.parts@[0].entries@.len() == 1,
        models.parts@[0].entries@[0].0 == 1,
        are_faces(models.parts@[0].entries@[0].1.faces@, missing_sides(geometry as int)),
        models.parts@[0].entries@[0].1.boxes == boxes,
        models.parts@[0].entries@[0].1.x_rotation == 0,
        models.parts@[0].entries@[0].1.y_rotation == 0,
        !models.parts@[0].entries@[0].1.uvlock,
        models.parts@[0].entries@[0].1.ambient_occlusion,
        full_cube(models.parts@[0].entries@[0].1),
        models.full_opaque_cube,
        models.fluid_surface_solid,
        models.fluid is None,
        !models.emissive,
        models.model_offset == ModelOffset::Unmoved,
{
    let mut faces: Vec<ModelFace> = Vec::new();
    faces.push(missing_face(Direction::Down, geometry));
    faces.push(missing_face(Direction::East, geometry + 1));
    faces.push(missing_face(Direction::North, geometry + 2));
    faces.push(missing_face(Direction::South, geometry + 3));
    faces.push(missing_face(Direction::Up, geometry + 4));
    faces.push(missing_face(Direction::West, geometry + 5));
    proof {
        lemma_sides_close(faces@, geometry as int);
    }
    let mut entries: Vec<(u32, ModelApplication)> = Vec::new();
    entries.push(
        (
            1,
            ModelApplication {
                faces,
                boxes,
                x_rotation: 0,
                y_rotation: 0,
                uvlock: false,
                ambient_occlusion: true,
            },
        ),
    );
    let mut parts: Vec<WeightedApplications> = Vec::new();
    assert(weight_sum(entries@, 1) == weight_sum(entries@, 0) + 1);
    parts.push(WeightedApplications { entries, total_weight: 1 });
    StateModels {
        parts,
        full_opaque_cube: true,
        fluid_surface_solid: true,
        fluid: None,
        emissive: false,
        model_offset: ModelOffset::Unmoved,
    }
}

proof fn lemma_sides_close(faces: Seq<ModelFace>, geometry: int)
    requires
        are_faces(faces, missing_sides(geometry)),
    ensures
        is_closed(faces, Direction::Down),
        is_closed(faces, Direction::Up),
        is_closed(faces, Direction::North),
        is_closed(faces, Direction::South),
        is_closed(faces, Direction::West),
        is_closed(faces, Direction::East),
{
    assert(closes(faces[0], Direction::Down));
    assert(closes(faces[1], Direction::East));
    assert(closes(faces[2], Direction::North));
    assert(closes(faces[3], Direction::South));
    assert(closes(faces[4], Direction::Up));
    assert(closes(faces[5], Direction::West));
}

/// A face of a model keeps what its document says of it. It lies on the side that it
/// is named after, and is shaded as its element is.
pub proof fn lemma_faces_keep_what_is_written(
    element: ElementWire,
    name: Seq<char>,
    wire: FaceWire,
    textures: Textures,
)
    ensures
        face_of(element, name, wire, textures) matches Ok(face) ==> {
            &&& direction_named(name) == Some(face.direction)
            &&& texture_for(textures, wire.texture@) == Ok::<Seq<char>, Failure>(face.texture)
            &&& face.geometry == wire.geometry
            &&& face.shape == wire.shape
            &&& face.tint_index == wire.tintindex
            &&& face.directional_shade == element.shade
            &&& wire.cullface is None ==> face.cullface is None
            &&& wire.cullface matches Some(side) ==> face.cullface == direction_named(side@)
        },
        face_of(element, name, wire, textures) is Ok <==> {
            &&& direction_named(name) is Some
            &&& texture_for(textures, wire.texture@) is Ok
            &&& element.turn matches Some(turn) ==> turn.angle_supported && (turn.axis@ == "x"@
                || turn.axis@ == "y"@ || turn.axis@ == "z"@)
        },
{
}

/// An element gives one face for each that it names, in that order.
pub proof fn lemma_elements_give_their_faces(element: ElementWire, textures: Textures, n: int)
    requires
        0 <= n <= element.faces@.len(),
    ensures
        element_faces(element, textures, n) matches Ok(faces) ==> {
            &&& faces.len() == n
            &&& forall|i: int|
                0 <= i < n ==> face_of(
                    element,
                    (#[trigger] element.faces@[i]).0@,
                    element.faces@[i].1,
                    textures,
                ) == Ok::<FaceModel, Failure>(faces[i])
        },
        element_faces(element, textures, n) is Err ==> exists|i: int|
            0 <= i < n && face_of(
                element,
                (#[trigger] element.faces@[i]).0@,
                element.faces@[i].1,
                textures,
            ) is Err,
    decreases n,
{
    if n > 0 {
        lemma_elements_give_their_faces(element, textures, n - 1);
        assert(element.faces@[n - 1] == element.faces@[n - 1]);
    }
}

/// A model that is baked has the faces of all its elements, behind each other, and all
/// its elements lie within their bounds.
pub proof fn lemma_models_have_the_faces_of_their_elements(
    elements: Seq<ElementWire>,
    textures: Textures,
    n: int,
)
    requires
        0 <= n < elements.len(),
    ensures
        model_faces(elements, textures, 0) == Ok::<Seq<FaceModel>, Failure>(Seq::empty()),
        model_faces(elements, textures, n + 1) is Ok <==> model_faces(elements, textures, n) is Ok
            && elements[n].in_bounds && element_faces(
            elements[n],
            textures,
            elements[n].faces@.len() as int,
        ) is Ok,
        model_faces(elements, textures, n + 1) matches Ok(faces) ==> {
            let before = model_faces(elements, textures, n)->Ok_0;
            let own = element_faces(elements[n], textures, elements[n].faces@.len() as int)->Ok_0;
            &&& before.is_prefix_of(faces)
            &&& faces.skip(before.len() as int) == own
        },
{
    if let Ok(faces) = model_faces(elements, textures, n + 1) {
        let before = model_faces(elements, textures, n)->Ok_0;
        let own = element_faces(elements[n], textures, elements[n].faces@.len() as int)->Ok_0;
        assert(faces == before + own);
        assert(faces.skip(before.len() as int) =~= own);
        assert(before =~= faces.subrange(0, before.len() as int));
    }
}

/// What blocks a fluid are the elements that are not turned, in their order: all of them,
/// or the first thirty-two where there are more.
pub proof fn lemma_level_elements_block_fluids(elements: Seq<ElementWire>)
    ensures
        ({
            let solid = solid_elements(elements);
            &&& solid.len() <= 32
            &&& forall|i: int|
                0 <= i < solid.len() ==> 0 <= #[trigger] solid[i] < elements.len()
                    && elements[solid[i]].turn is None
            &&& forall|i: int, j: int| 0 <= i < j < solid.len() ==> solid[i] < solid[j]
            &&& forall|k: int|
                0 <= k < elements.len() && (#[trigger] elements[k]).turn is None ==> solid.contains(
                    k,
                ) || solid.len() == 32 && solid.last() < k
        }),
{
    let level = level_elements(elements, elements.len() as int);
    lemma_level_elements(elements, elements.len() as int);
    let solid = solid_elements(elements);
    assert forall|k: int|
        0 <= k < elements.len() && (#[trigger] elements[k]).turn is None implies solid.contains(k)
        || solid.len() == 32 && solid.last() < k by {
        let place = choose|i: int| 0 <= i < level.len() && level[i] == k;
        assert(level.contains(k));
        if place < solid.len() {
            assert(solid[place] == k);
        } else {
            assert(solid.last() == level[31]);
            assert(level[31] < level[place]);
        }
    }
}

proof fn lemma_level_elements(elements: Seq<ElementWire>, n: int)
    requires
        0 <= n <= elements.len(),
    ensures
        ({
            let level = level_elements(elements, n);
            &&& forall|i: int|
                0 <= i < level.len() ==> 0 <= #[trigger] level[i] < n && elements[level[i]].turn
                    is None
            &&& forall|i: int, j: int| 0 <= i < j < level.len() ==> level[i] < level[j]
            &&& forall|k: int|
                0 <= k < n && (#[trigger] elements[k]).turn is None ==> level.contains(k)
        }),
    decreases n,
{
    if n > 0 {
        lemma_level_elements(elements, n - 1);
        let before = level_elements(elements, n - 1);
        let level = level_elements(elements, n);
        assert forall|k: int| 0 <= k < n && (#[trigger] elements[k]).turn is None implies level.contains(k) by {
            if k < n - 1 {
                assert(before.contains(k));
                let i = choose|i: int| 0 <= i < before.len() && before[i] == k;
                assert(level[i] == k);
            } else {
                assert(level.last() == k);
            }
        }
    }
}

/// The corners of a side of the block lie on that side.
pub proof fn lemma_corners_lie_on_their_side(direction: Direction, corner: int)
    requires
        0 <= corner < 4,
    ensures
        direction == Direction::East ==> unit_corner(direction, corner).0 == 1,
        direction == Direction::West ==> unit_corner(direction, corner).0 == 0,
        direction == Direction::Up ==> unit_corner(direction, corner).1 == 1,
        direction == Direction::Down ==> unit_corner(direction, corner).1 == 0,
        direction == Direction::South ==> unit_corner(direction, corner).2 == 1,
        direction == Direction::North ==> unit_corner(direction, corner).2 == 0,
        forall|other: int|
            0 <= other < 4 && other != corner ==> #[trigger] unit_corner(direction, other)
                != unit_corner(direction, corner),
{
    assert(corner == 0 || corner == 1 || corner == 2 || corner == 3);
    assert forall|other: int| 0 <= other < 4 && other != corner implies #[trigger] unit_corner(
        direction,
        other,
    ) != unit_corner(direction, corner) by {
        assert(other == 0 || other == 1 || other == 2 || other == 3);
    }
}

/// What is shown for a missing model is a whole block: each side of it once, as large as
/// the block, hidden by the neighbor on that side and with the texture for what is
/// missing. Their geometries follow each other.
pub proof fn lemma_missing_models_are_whole_blocks(geometry: int, direction: Direction)
    requires
        0 <= geometry,
        geometry + 5 <= usize::MAX,
    ensures
        missing_sides(geometry).len() == 6,
        exists|i: int| 0 <= i < 6 && (#[trigger] missing_sides(geometry)[i]).direction == direction,
        forall|i: int|
            0 <= i < 6 ==> {
                &&& (#[trigger] missing_sides(geometry)[i]).geometry == geometry + i
                &&& missing_sides(geometry)[i].cullface == Some(
                    missing_sides(geometry)[i].direction,
                )
                &&& missing_sides(geometry)[i].shape.covers_boundary
                &&& missing_sides(geometry)[i].shape.upper == unit_corners(
                    missing_sides(geometry)[i].direction,
                )
                &&& missing_sides(geometry)[i].texture == "cubic:missing"@
                &&& missing_sides(geometry)[i].tint_index is None
                &&& missing_sides(geometry)[i].directional_shade
            },
{
    let sides = missing_sides(geometry);
    match direction {
        Direction::Down => assert(sides[0].direction == direction),
        Direction::East => assert(sides[1].direction == direction),
        Direction::North => assert(sides[2].direction == direction),
        Direction::South => assert(sides[3].direction == direction),
        Direction::Up => assert(sides[4].direction == direction),
        Direction::West => assert(sides[5].direction == direction),
    }
}

/// A reference shows a model turned and locked as the reference says, with the faces and
/// the shading of the model.
pub proof fn lemma_references_turn_their_models(reference: ReferenceModel, model: BakedModel)
    ensures
        application_of(reference, model).x_rotation == reference.x,
        application_of(reference, model).y_rotation == reference.y,
        application_of(reference, model).uvlock == reference.uvlock,
        application_of(reference, model).faces == model.faces,
        application_of(reference, model).boxes == model.boxes,
        application_of(reference, model).ambient_occlusion == model.ambient_occlusion,
{
}

} // verus!
