//! Models: inheritance, baking, block state semantics, preparation, and the parts of
//! models with renderers of their own.

use std::collections::{BTreeMap, BTreeSet};
use std::rc::Rc;

use cubic_render::atlas::{pack_atlas, TextureAtlasData};
use cubic_render::baking::{
    bake_model, face_corners, fallback_state, model_solid_boxes, BakedModel, StateBuilder,
};
use cubic_render::blockstate::{load_blockstate, select_groups, BlockstateDefinition};
use cubic_render::direction::{rotate_blockstate_direction, Direction};
use cubic_render::error::BlockResourceError;
use cubic_render::images::{missing_texture, DecodedImage};
use cubic_render::inheritance::{inherit, ModelResolver, ModelStep};
use cubic_render::model_part::{
    CubeDefinition, ModelPartDefinition, ModelPartQuad, PartCorner, PartDefinition, PartDirection,
    PartPose, ALL_FACES,
};
use cubic_render::models::{
    default_true, resolve_texture, ElementTurn, ElementWire, FaceWire, ModelWire, ResolvedModel,
    TextureWire, MAX_MODEL_DEPTH,
};
use cubic_render::names::{precedes, NameMap};
use cubic_render::prepared::{
    apply_state_semantics, bind_banner_base_material, is_full_cube, prepare_runtime_state,
    BlockEnvironment,
};
use cubic_render::resources::{
    AtlasRegion, FaceShape, FluidKind, FluidState, ModelFace, ModelOffset, RenderLayer,
    StateModels, TextureMaterial, TintKind,
};
use cubic_render::semantics::{model_offset_26_1_2, render_layer_26_1_2, tint_kind_26_1_2};
use cubic_render::shading::direction_shade;
use cubic_render::special::SpecialItemModel;
use cubic_render::special_parts::{
    copper_golem_world_parts, parts_of_layer, PartLayer, PlacedQuad,
};
use cubic_render::special_world::{
    direction_steps, direction_to_y_rotation, rotation_segment_degrees, special_world_model,
    special_world_parts, special_world_transform, SpecialPlacement,
};

const SHAPE: FaceShape = FaceShape {
    upper: [[false; 3]; 4],
    covers_boundary: false,
};

fn properties(pairs: &[(&str, &str)]) -> Vec<(String, String)> {
    pairs
        .iter()
        .map(|(name, value)| ((*name).to_owned(), (*value).to_owned()))
        .collect()
}

fn text(value: &serde_json::Value, name: &str) -> Option<String> {
    value.get(name).and_then(|value| value.as_str()).map(str::to_owned)
}

/// Documents by path, and what is read of them: geometry and transforms are kept
/// here, under the numbers that the models hold.
#[derive(Default)]
struct Documents {
    source: BTreeMap<String, String>,
    geometry: usize,
    transforms: Vec<serde_json::Value>,
}

impl Documents {
    fn insert(&mut self, path: &str, value: &str) {
        self.source.insert(path.to_owned(), value.to_owned());
    }

    fn read_element(&mut self, element: &serde_json::Value) -> ElementWire {
        let mut faces = Vec::new();
        for (direction, face) in element["faces"].as_object().unwrap() {
            faces.push((
                direction.clone(),
                FaceWire {
                    geometry: self.geometry,
                    shape: SHAPE,
                    texture: text(face, "texture").unwrap(),
                    cullface: text(face, "cullface"),
                    tintindex: face
                        .get("tintindex")
                        .and_then(|index| index.as_u64())
                        .map(|index| u32::try_from(index).unwrap()),
                },
            ));
            self.geometry += 1;
        }
        ElementWire {
            in_bounds: true,
            turn: None,
            shade: element
                .get("shade")
                .and_then(|shade| shade.as_bool())
                .unwrap_or(default_true()),
            faces,
        }
    }

    fn read_model(&mut self, path: &str) -> Option<Result<ModelWire, String>> {
        let value =
            serde_json::from_str::<serde_json::Value>(self.source.get(path)?.as_str()).unwrap();
        let gui = value.get("display").and_then(|display| display.get("gui"));
        let gui_transform = gui.map(|gui| {
            self.transforms.push(gui.clone());
            self.transforms.len() - 1
        });
        let elements = value.get("elements").and_then(|list| list.as_array()).cloned();
        Some(Ok(ModelWire {
            parent: text(&value, "parent"),
            textures: value
                .get("textures")
                .and_then(|textures| textures.as_object())
                .map(|textures| {
                    textures
                        .iter()
                        .map(|(name, sprite)| {
                            (
                                name.clone(),
                                TextureWire::Simple(sprite.as_str().unwrap().to_owned()),
                            )
                        })
                        .collect()
                })
                .unwrap_or_default(),
            elements: elements.map(|elements| {
                Rc::new(
                    elements
                        .iter()
                        .map(|element| self.read_element(element))
                        .collect::<Vec<_>>(),
                )
            }),
            ambientocclusion: value.get("ambientocclusion").and_then(|value| value.as_bool()),
            gui_transform,
            gui_light: text(&value, "gui_light"),
        }))
    }

    fn resolve_model(
        &mut self,
        resolver: &mut ModelResolver,
        identifier: &str,
    ) -> Result<ResolvedModel, BlockResourceError> {
        let mut step = resolver.begin(identifier);
        loop {
            match step {
                ModelStep::Resolved(model) => return Ok(model),
                ModelStep::Failed(error) => return Err(error),
                ModelStep::Read { identifier, path } => {
                    let answer = self.read_model(&path);
                    step = resolver.supply(identifier, answer);
                }
            }
        }
    }

    fn resolve_state(
        &mut self,
        definition: &BlockstateDefinition,
        properties: &[(&str, &str)],
    ) -> Result<StateModels, BlockResourceError> {
        let mut resolver = ModelResolver::new();
        let mut builder = StateBuilder::new();
        for group in select_groups(definition, &self::properties(properties)) {
            for reference in group {
                let model = self.resolve_model(&mut resolver, &reference.model)?;
                let faces = bake_model(&model.elements, &model.textures)?;
                builder.add_model(
                    reference,
                    BakedModel {
                        faces,
                        boxes: 0,
                        ambient_occlusion: model.ambient_occlusion,
                    },
                )?;
            }
            builder.end_group();
        }
        Ok(builder.finish())
    }
}

fn names(pairs: &[(&str, &str)]) -> NameMap<String> {
    let mut map = NameMap::new();
    for (name, value) in pairs {
        map.insert((*name).to_owned(), (*value).to_owned());
    }
    map
}

fn missing_atlas() -> TextureAtlasData {
    let mut images = NameMap::new();
    images.insert("cubic:missing".to_owned(), missing_texture());
    pack_atlas(&images).unwrap()
}

#[test]
fn default_and_exact_variants_resolve_the_expected_models() {
    let mut source = Documents::default();
    for name in ["default", "north"] {
        source.insert(
            &format!("assets/minecraft/models/block/{name}.json"),
            r##"{"textures":{"all":"block/stone"},"elements":[{"from":[0,0,0],"to":[16,16,16],"faces":{"north":{"texture":"#all"}}}]}"##,
        );
    }
    let definition = load_blockstate(
        Some(br#"{"variants":{"":{"model":"block/default"},"facing=north":{"model":"block/north","x":90,"y":180}}}"#.as_slice()),
        "minecraft:test",
    )
    .unwrap();
    let default = source.resolve_state(&definition, &[]).unwrap();
    let north = source
        .resolve_state(&definition, &[("facing", "north")])
        .unwrap();
    assert_eq!(
        (
            default.parts[0].entries[0].1.x_rotation,
            default.parts[0].entries[0].1.y_rotation
        ),
        (0, 0)
    );
    assert_eq!(
        (
            north.parts[0].entries[0].1.x_rotation,
            north.parts[0].entries[0].1.y_rotation
        ),
        (90, 180)
    );
}

#[test]
fn multiple_matching_multipart_entries_all_contribute_geometry() {
    let mut source = Documents::default();
    source.insert(
        "assets/minecraft/models/block/part.json",
        r##"{"textures":{"all":"block/stone"},"elements":[{"from":[0,0,0],"to":[4,16,4],"faces":{"north":{"texture":"#all"}}}]}"##,
    );
    let definition = load_blockstate(
        Some(br#"{"multipart":[{"when":{"north":"true"},"apply":{"model":"block/part"}},{"when":{"east":"true"},"apply":{"model":"block/part","y":90}}]}"#.as_slice()),
        "minecraft:test",
    )
    .unwrap();
    let state = source
        .resolve_state(&definition, &[("north", "true"), ("east", "true")])
        .unwrap();
    assert_eq!(state.parts.len(), 2);
}

#[test]
fn model_parent_and_texture_inheritance_resolve_across_levels() {
    let mut source = Documents::default();
    source.insert(
        "assets/minecraft/models/block/base.json",
        r##"{"textures":{"all":"minecraft:block/stone"},"elements":[{"from":[0,0,0],"to":[16,16,16],"faces":{"north":{"texture":"#all","cullface":"north","tintindex":0}}}]}"##,
    );
    source.insert(
        "assets/minecraft/models/block/middle.json",
        r##"{"parent":"minecraft:block/base","textures":{"side":"#all"}}"##,
    );
    source.insert(
        "assets/minecraft/models/block/child.json",
        r#"{"parent":"minecraft:block/middle"}"#,
    );
    let resolved = source
        .resolve_model(&mut ModelResolver::new(), "minecraft:block/child")
        .unwrap();
    let faces = bake_model(&resolved.elements, &resolved.textures).unwrap();
    assert_eq!(faces.len(), 1);
    assert_eq!(faces[0].texture, "minecraft:block/stone");
    assert_eq!(faces[0].cullface, Some(Direction::North));
    assert_eq!(faces[0].tint_index, Some(0));
}

#[test]
fn parent_and_texture_cycles_are_rejected() {
    let mut source = Documents::default();
    source.insert(
        "assets/minecraft/models/block/a.json",
        r#"{"parent":"minecraft:block/b"}"#,
    );
    source.insert(
        "assets/minecraft/models/block/b.json",
        r#"{"parent":"minecraft:block/a"}"#,
    );
    assert!(source
        .resolve_model(&mut ModelResolver::new(), "minecraft:block/a")
        .is_err());

    let textures = names(&[("a", "#b"), ("b", "#a")]);
    assert!(resolve_texture("#a", &textures).is_err());
}

#[test]
fn textures_are_followed_to_their_sprite() {
    let textures = names(&[("all", "minecraft:block/stone"), ("side", "#all")]);
    assert_eq!(
        resolve_texture("#side", &textures).unwrap(),
        "minecraft:block/stone"
    );
    assert_eq!(
        resolve_texture("minecraft:block/dirt", &textures).unwrap(),
        "minecraft:block/dirt"
    );
    assert!(resolve_texture("#gone", &textures).is_err());
    assert_eq!(
        TextureWire::Extended {
            sprite: "minecraft:block/glass".to_owned(),
            force_translucent: true,
        }
        .into_sprite(),
        "minecraft:block/glass"
    );
}

#[test]
fn model_inheritance_depth_and_missing_parent_are_bounded_errors() {
    let mut source = Documents::default();
    for index in 0..=MAX_MODEL_DEPTH {
        let parent = index + 1;
        source.insert(
            &format!("assets/minecraft/models/block/depth{index}.json"),
            &format!(r#"{{"parent":"minecraft:block/depth{parent}"}}"#),
        );
    }
    assert!(source
        .resolve_model(&mut ModelResolver::new(), "minecraft:block/depth0")
        .is_err());
    assert!(source
        .resolve_model(&mut ModelResolver::new(), "minecraft:block/missing")
        .is_err());
}

#[test]
fn child_gui_transform_overrides_parent_while_absence_inherits_it() {
    let mut source = Documents::default();
    source.insert(
        "assets/minecraft/models/block/parent.json",
        r#"{"display":{"gui":{"rotation":[30,225,0],"translation":[1,2,3],"scale":[0.625,0.625,0.625]}}}"#,
    );
    source.insert(
        "assets/minecraft/models/block/inherited.json",
        r#"{"parent":"minecraft:block/parent"}"#,
    );
    source.insert(
        "assets/minecraft/models/block/override.json",
        r#"{"parent":"minecraft:block/parent","display":{"gui":{"rotation":[0,90,0],"translation":[4,5,6],"scale":[1,1,1]}}}"#,
    );
    let mut resolver = ModelResolver::new();
    let inherited = source
        .resolve_model(&mut resolver, "minecraft:block/inherited")
        .unwrap()
        .gui_transform
        .unwrap();
    let overridden = source
        .resolve_model(&mut resolver, "minecraft:block/override")
        .unwrap()
        .gui_transform
        .unwrap();
    let numbers = |handle: usize, name: &str| {
        source.transforms[handle][name]
            .as_array()
            .unwrap()
            .iter()
            .map(|value| value.as_f64().unwrap())
            .collect::<Vec<_>>()
    };
    assert_eq!(numbers(inherited, "rotation"), [30.0, 225.0, 0.0]);
    assert_eq!(numbers(inherited, "translation"), [1.0, 2.0, 3.0]);
    assert_eq!(numbers(overridden, "rotation"), [0.0, 90.0, 0.0]);
    assert_eq!(numbers(overridden, "translation"), [4.0, 5.0, 6.0]);
}

#[test]
fn generated_models_are_roots_of_their_own() {
    let mut source = Documents::default();
    source.insert(
        "assets/minecraft/models/item/diamond_sword.json",
        r##"{"parent":"minecraft:item/generated","textures":{"layer0":"minecraft:item/diamond_sword"}}"##,
    );
    source.insert(
        "assets/minecraft/models/item/generated.json",
        r#"{"parent":"builtin/generated","gui_light":"front"}"#,
    );
    let mut resolver = ModelResolver::new();
    let model = source
        .resolve_model(&mut resolver, "minecraft:item/diamond_sword")
        .unwrap();
    assert_eq!(
        model.textures.get("layer0").map(String::as_str),
        Some("minecraft:item/diamond_sword")
    );
    assert!(model.elements.is_empty());
    assert!(!model.gui_light_side);
    assert!(resolver.models.get("minecraft:builtin/generated").is_some());
    assert!(resolver.models.get("minecraft:item/generated").is_some());
}

#[test]
fn a_child_keeps_the_elements_and_textures_that_it_does_not_replace() {
    let parent = ResolvedModel {
        textures: names(&[("all", "minecraft:block/stone"), ("side", "#all")]),
        elements: Rc::new(vec![]),
        ambient_occlusion: false,
        gui_transform: Some(4),
        gui_light_side: true,
    };
    let wire = ModelWire {
        parent: None,
        textures: vec![(
            "all".to_owned(),
            TextureWire::Simple("minecraft:block/dirt".to_owned()),
        )],
        elements: None,
        ambientocclusion: None,
        gui_transform: None,
        gui_light: Some("front".to_owned()),
    };
    let child = inherit(&parent, &wire, "minecraft:block/child").unwrap();
    assert_eq!(
        child.textures.get("all").map(String::as_str),
        Some("minecraft:block/dirt")
    );
    assert_eq!(child.textures.get("side").map(String::as_str), Some("#all"));
    assert!(!child.ambient_occlusion);
    assert_eq!(child.gui_transform, Some(4));
    assert!(!child.gui_light_side);
}

#[test]
fn elements_out_of_bounds_or_turned_oddly_are_refused() {
    let element = |in_bounds: bool, turn: Option<ElementTurn>| {
        vec![ElementWire {
            in_bounds,
            turn,
            shade: true,
            faces: vec![(
                "up".to_owned(),
                FaceWire {
                    geometry: 0,
                    shape: SHAPE,
                    texture: "minecraft:block/stone".to_owned(),
                    cullface: None,
                    tintindex: None,
                },
            )],
        }]
    };
    let turn = |axis: &str, angle_supported: bool| {
        Some(ElementTurn {
            angle_supported,
            axis: axis.to_owned(),
        })
    };
    let none = names(&[]);
    assert_eq!(bake_model(&element(true, None), &none).unwrap().len(), 1);
    assert!(bake_model(&element(true, turn("y", true)), &none).is_ok());
    assert!(bake_model(&element(false, None), &none).is_err());
    assert!(bake_model(&element(true, turn("w", true)), &none).is_err());
    assert!(bake_model(&element(true, turn("y", false)), &none).is_err());
}

#[test]
fn turned_elements_hold_no_fluid_back() {
    let element = |turn: Option<ElementTurn>| ElementWire {
        in_bounds: true,
        turn,
        shade: true,
        faces: vec![],
    };
    let turned = || {
        Some(ElementTurn {
            angle_supported: true,
            axis: "y".to_owned(),
        })
    };
    assert_eq!(
        model_solid_boxes(&vec![element(None), element(turned()), element(None)]),
        vec![0, 2]
    );
}

#[test]
fn a_full_cube_is_told_from_one_that_leaves_a_side_open() {
    let full = fallback_state(0, 0);
    assert!(is_full_cube(&full.parts[0].entries[0].1));
    let mut partial = fallback_state(0, 0);
    for part in &mut partial.parts {
        for (_, model) in &mut part.entries {
            for face in &mut model.faces {
                face.shape.covers_boundary = false;
            }
        }
    }
    assert!(!is_full_cube(&partial.parts[0].entries[0].1));
}

#[test]
fn preparation_turns_faces_and_puts_them_in_the_atlas_once() {
    let atlas = missing_atlas();
    let mut state = fallback_state(0, 0);
    let model = &mut state.parts[0].entries[0].1;
    model.y_rotation = 90;
    model.uvlock = true;
    let original_direction = model.faces[2].direction;
    let original_cull = model.faces[2].cullface.unwrap();
    let shapes = fallback_state(0, 0).parts[0].entries[0]
        .1
        .faces
        .iter()
        .map(|face| face.shape)
        .collect::<Vec<_>>();

    prepare_runtime_state(&mut state, &atlas, &shapes);

    let model = &state.parts[0].entries[0].1;
    assert_eq!(
        (model.x_rotation, model.y_rotation, model.uvlock),
        (0, 0, false)
    );
    assert_eq!(
        model.faces[2].direction,
        rotate_blockstate_direction(original_direction, 0, 90)
    );
    assert_eq!(
        model.faces[2].cullface,
        Some(rotate_blockstate_direction(original_cull, 0, 90))
    );
    assert_eq!(model.faces[2].atlas_region, atlas.region("cubic:missing"));
    assert!(state.full_opaque_cube);

    let once = format!("{state:?}");
    prepare_runtime_state(&mut state, &atlas, &shapes);
    assert_eq!(format!("{state:?}"), once);
}

#[test]
fn opaque_faces_with_holes_in_their_texture_are_cut_out() {
    let mut images = NameMap::new();
    images.insert(
        "cubic:missing".to_owned(),
        DecodedImage::static_frame(1, 1, vec![0; 4], true),
    );
    let atlas = pack_atlas(&images).unwrap();
    let mut state = fallback_state(0, 0);
    prepare_runtime_state(&mut state, &atlas, &vec![]);
    assert!(state.parts[0].entries[0]
        .1
        .faces
        .iter()
        .all(|face| face.render_layer == RenderLayer::Cutout));
    assert!(!state.full_opaque_cube);
}

#[test]
fn honey_model_faces_keep_the_exact_version_layered_translucent_policy() {
    let mut models = fallback_state(0, 0);
    apply_state_semantics(
        &mut models,
        "minecraft:honey_block",
        &vec![],
        BlockEnvironment {
            fluid: None,
            emissive: false,
        },
        true,
    );
    let atlas = missing_atlas();
    prepare_runtime_state(&mut models, &atlas, &vec![]);
    assert!(models.parts.iter().all(|part| {
        part.entries.iter().all(|(_, model)| {
            model
                .faces
                .iter()
                .all(|face| face.render_layer == RenderLayer::LayeredTranslucent)
        })
    }));
    assert!(!models.full_opaque_cube);
}

#[test]
fn blocks_that_hold_a_fluid_are_not_solid_for_its_surface() {
    let water = FluidState {
        kind: FluidKind::Water,
        level: 0,
        falling: false,
    };
    let mut models = fallback_state(0, 0);
    apply_state_semantics(
        &mut models,
        "minecraft:oak_slab",
        &vec![],
        BlockEnvironment {
            fluid: Some(water),
            emissive: true,
        },
        true,
    );
    assert_eq!(models.fluid, Some(water));
    assert!(!models.fluid_surface_solid);
    assert!(models.emissive);
    assert_eq!(models.model_offset, ModelOffset::Unmoved);
}

#[test]
fn exact_version_model_offsets_distinguish_short_and_double_height_grass() {
    assert_eq!(model_offset_26_1_2("short_grass"), ModelOffset::Xyz);
    assert_eq!(model_offset_26_1_2("fern"), ModelOffset::Xyz);
    assert_eq!(model_offset_26_1_2("tall_grass"), ModelOffset::Xz);
    assert_eq!(model_offset_26_1_2("large_fern"), ModelOffset::Xz);
    assert_eq!(model_offset_26_1_2("stone"), ModelOffset::Unmoved);
}

#[test]
fn exact_resource_adapter_classifies_opaque_cutout_and_translucent_materials() {
    assert_eq!(render_layer_26_1_2("stone"), RenderLayer::Opaque);
    assert_eq!(render_layer_26_1_2("short_grass"), RenderLayer::Cutout);
    assert_eq!(render_layer_26_1_2("glass"), RenderLayer::Translucent);
    assert_eq!(render_layer_26_1_2("water"), RenderLayer::Translucent);
    assert_eq!(
        render_layer_26_1_2("honey_block"),
        RenderLayer::LayeredTranslucent
    );
    assert_eq!(render_layer_26_1_2("scaffolding"), RenderLayer::Cutout);
    let empty = vec![];
    assert_eq!(tint_kind_26_1_2("grass_block", &empty, 0), TintKind::Grass);
    assert_eq!(tint_kind_26_1_2("oak_leaves", &empty, 0), TintKind::Foliage);
    assert_eq!(tint_kind_26_1_2("water", &empty, 0), TintKind::Water);
    assert_eq!(
        tint_kind_26_1_2("leaf_litter", &empty, 0),
        TintKind::DryFoliage
    );
    let age = properties(&[("age", "7")]);
    assert_eq!(
        tint_kind_26_1_2("melon_stem", &age, 0),
        TintKind::Fixed(0xe0c71c)
    );
    assert_eq!(
        tint_kind_26_1_2("attached_pumpkin_stem", &empty, 0),
        TintKind::Fixed(0xe0c71c)
    );
    assert_eq!(render_layer_26_1_2("seagrass"), RenderLayer::Cutout);
}

#[test]
fn vanilla_directional_shading_is_symmetric_by_horizontal_axis() {
    let shade = |direction| direction_shade(direction) as f32 / 10.0;
    assert_eq!(shade(Direction::Up), 1.0);
    assert_eq!(shade(Direction::Down), 0.5);
    assert_eq!(shade(Direction::North), 0.8);
    assert_eq!(shade(Direction::South), 0.8);
    assert_eq!(shade(Direction::East), 0.6);
    assert_eq!(shade(Direction::West), 0.6);
}

#[test]
fn names_are_ordered_by_their_characters() {
    assert!(precedes("a", "b"));
    assert!(precedes("a", "ab"));
    assert!(!precedes("b", "a"));
    assert!(!precedes("a", "a"));
    let mut map = NameMap::new();
    for name in ["b", "a", "c", "a"] {
        map.insert(name.to_owned(), name.len());
    }
    assert_eq!(
        map.entries
            .iter()
            .map(|(name, _)| name.as_str())
            .collect::<Vec<_>>(),
        ["a", "b", "c"]
    );
    assert_eq!(map.get("b"), Some(&1));
    assert_eq!(map.get("d"), None);
}

// Parts.

fn units(value: [i32; 3]) -> [f32; 3] {
    value.map(|axis| axis as f32 / 1_000_000.0)
}

fn pose(scale: [i32; 3]) -> PartPose {
    PartPose {
        translation: [0; 3],
        radians: [0; 3],
        twelfths: [0; 3],
        scale: scale.map(|axis| axis * 1_000_000),
    }
}

fn cube(origin: [i32; 3], size: [i32; 3], offset: [i32; 2], sheet: [i32; 2]) -> CubeDefinition {
    CubeDefinition {
        part: 0,
        origin: origin.map(|axis| axis * 1_000_000),
        size: size.map(|axis| axis * 1_000_000),
        texture_offset: offset.map(|axis| axis * 1_000_000),
        texture_size: sheet.map(|axis| axis * 1_000_000),
        deformation: 0,
        mirror: false,
        visible_faces: ALL_FACES,
    }
}

fn single(pose: PartPose, cube: CubeDefinition) -> ModelPartDefinition {
    ModelPartDefinition {
        parts: vec![PartDefinition {
            name: "part",
            parent: 0,
            pose,
            visible: true,
        }],
        cubes: vec![cube],
    }
}

fn corners(quad: &ModelPartQuad) -> [PartCorner; 4] {
    [
        quad.corners.0,
        quad.corners.1,
        quad.corners.2,
        quad.corners.3,
    ]
}

fn positions(quad: &ModelPartQuad) -> [[f32; 3]; 4] {
    corners(quad).map(|corner| [corner.x, corner.y, corner.z].map(|axis| axis as f32 / 1_000_000.0))
}

fn uvs(quad: &ModelPartQuad) -> [[f32; 2]; 4] {
    corners(quad).map(|corner| {
        [
            corner.u as f32 / quad.texture_size[0] as f32,
            corner.v as f32 / quad.texture_size[1] as f32,
        ]
    })
}

fn polygon_uv(rectangle: [f32; 4], texture_size: [f32; 2]) -> [[f32; 2]; 4] {
    let [u0, v0, u1, v1] = rectangle;
    [
        [u1 / texture_size[0], v0 / texture_size[1]],
        [u0 / texture_size[0], v0 / texture_size[1]],
        [u0 / texture_size[0], v1 / texture_size[1]],
        [u1 / texture_size[0], v1 / texture_size[1]],
    ]
}

#[test]
fn negative_scale_reverses_winding_but_preserves_uv_correspondence() {
    let quads = single(
        pose([1, -1, -1]),
        cube([0; 3], [2; 3], [0; 2], [16; 2]),
    )
    .bake();
    assert!(quads.iter().all(|quad| !quad.determinant_negative));
    assert_eq!(uvs(&quads[0])[0], [4.0 / 16.0, 0.0]);
}

#[test]
fn odd_reflection_reports_negative_determinant_and_keeps_front_winding() {
    let plain = single(pose([1; 3]), cube([0; 3], [2; 3], [0; 2], [16; 2])).bake();
    let reflected = single(pose([-1, 1, 1]), cube([0; 3], [2; 3], [0; 2], [16; 2])).bake();
    assert!(reflected.iter().all(|quad| quad.determinant_negative));
    for uv in uvs(&plain[0]) {
        assert!(uvs(&reflected[0]).contains(&uv));
    }
    assert_eq!(corners(&reflected[0])[1], corners(&plain[0])[3]);
}

#[test]
fn zero_thickness_cube_retains_its_one_sided_plane() {
    let mut plane = cube([0; 3], [14, 16, 0], [1, 0], [16; 2]);
    plane.visible_faces = PartDirection::North.bit();
    let quads = single(pose([1; 3]), plane).bake();
    assert_eq!(quads.len(), 1);
    assert_eq!(quads[0].direction, PartDirection::North);
}

#[test]
fn entity_cube_net_maps_smaller_v_to_smaller_y_on_vertical_faces() {
    let quads = single(
        pose([1; 3]),
        cube([1, 0, 1], [14, 10, 14], [0, 19], [64; 2]),
    )
    .bake();
    let north = quads
        .into_iter()
        .find(|quad| quad.direction == PartDirection::North)
        .unwrap();
    let top_v = positions(&north)
        .iter()
        .zip(uvs(&north))
        .filter(|(point, _)| point[1] == 0.0)
        .map(|(_, uv)| uv[1])
        .fold(f32::INFINITY, f32::min);
    let bottom_v = positions(&north)
        .iter()
        .zip(uvs(&north))
        .filter(|(point, _)| point[1] == 10.0)
        .map(|(_, uv)| uv[1])
        .fold(f32::NEG_INFINITY, f32::max);
    assert!(top_v < bottom_v);
}

#[test]
fn cube_polygons_match_the_vanilla_directional_vertex_and_uv_oracle() {
    let quads = single(
        pose([1; 3]),
        cube([1, 2, 3], [4, 5, 6], [10, 20], [64, 64]),
    )
    .bake();
    let p = [
        [1.0, 2.0, 3.0],
        [5.0, 2.0, 3.0],
        [5.0, 7.0, 3.0],
        [1.0, 7.0, 3.0],
        [1.0, 2.0, 9.0],
        [5.0, 2.0, 9.0],
        [5.0, 7.0, 9.0],
        [1.0, 7.0, 9.0],
    ];
    let expected = [
        (PartDirection::Down, [5, 4, 0, 1], [16.0, 20.0, 20.0, 26.0]),
        (PartDirection::Up, [2, 3, 7, 6], [20.0, 26.0, 24.0, 20.0]),
        (PartDirection::West, [0, 4, 7, 3], [10.0, 26.0, 16.0, 31.0]),
        (PartDirection::North, [1, 0, 3, 2], [16.0, 26.0, 20.0, 31.0]),
        (PartDirection::East, [5, 1, 2, 6], [20.0, 26.0, 26.0, 31.0]),
        (PartDirection::South, [4, 5, 6, 7], [26.0, 26.0, 30.0, 31.0]),
    ];
    assert_eq!(quads.len(), 6);
    for (quad, (direction, indices, rectangle)) in quads.iter().zip(expected) {
        assert_eq!(quad.direction, direction);
        assert_eq!(positions(quad), indices.map(|index: usize| p[index]));
        assert_eq!(uvs(quad), polygon_uv(rectangle, [64.0, 64.0]));
        assert_eq!(quad.normal, direction);
        assert_eq!(quad.normal.normal(), direction.normal());
    }
}

#[test]
fn mirrored_cube_reverses_vertices_and_only_mirrors_x_facing_normals() {
    let mut definition = cube([1; 3], [2, 3, 4], [0; 2], [32; 2]);
    let plain = single(pose([1; 3]), definition).bake();
    definition.mirror = true;
    let mirrored = single(pose([1; 3]), definition).bake();
    for (plain, mirrored) in plain.iter().zip(&mirrored) {
        let (x, y, z) = plain.normal.normal();
        let expected_normal =
            if matches!(plain.direction, PartDirection::West | PartDirection::East) {
                (-x, -y, -z)
            } else {
                (x, y, z)
            };
        assert_eq!(mirrored.normal.normal(), expected_normal);
        let plain_uv = uvs(plain);
        assert_eq!(
            uvs(mirrored),
            [plain_uv[3], plain_uv[2], plain_uv[1], plain_uv[0]]
        );
    }
}

#[test]
fn zero_height_cube_preserves_directional_polygon_construction() {
    let mut flat = cube([0; 3], [8, 0, 8], [0; 2], [32; 2]);
    flat.visible_faces = PartDirection::Up.bit();
    let quads = single(pose([1; 3]), flat).bake();
    assert_eq!(quads.len(), 1);
    assert_eq!(quads[0].direction, PartDirection::Up);
    assert!(positions(&quads[0]).iter().all(|point| point[1] == 0.0));
    assert_eq!(quads[0].normal.normal(), (0, 1, 0));
}

#[test]
fn hidden_parts_hide_what_hangs_on_them() {
    let part = |name: &'static str, parent: usize, visible: bool| PartDefinition {
        name,
        parent,
        pose: pose([1; 3]),
        visible,
    };
    let on = |part: usize| CubeDefinition {
        part,
        ..cube([0; 3], [1; 3], [0; 2], [16; 2])
    };
    let model = ModelPartDefinition {
        parts: vec![
            part("root", 0, true),
            part("hidden", 0, false),
            part("child", 1, true),
            part("shown", 0, true),
        ],
        cubes: vec![on(2), on(1), on(3)],
    };
    let quads = model.bake();
    assert_eq!(quads.len(), 6);
    assert!(quads.iter().all(|quad| quad.part == "shown"));
    assert!(quads.iter().all(|quad| quad.poses.len() == 2));
}

fn find_part<'a>(model: &'a ModelPartDefinition, name: &str) -> &'a PartDefinition {
    model.parts.iter().find(|part| part.name == name).unwrap()
}

#[test]
fn zombie_and_piglin_skulls_use_head_only_child_hierarchies() {
    let zombie = parts_of_layer(PartLayer::ZombieHead);
    let zombie_names = zombie
        .parts
        .iter()
        .map(|part| part.name)
        .collect::<Vec<_>>();
    assert_eq!(zombie_names, ["root", "head", "hat"]);
    for forbidden in ["body", "left_arm", "right_arm", "left_leg", "right_leg"] {
        assert!(!zombie_names.contains(&forbidden));
    }

    let piglin = parts_of_layer(PartLayer::PiglinHead);
    let left = find_part(&piglin, "left_ear");
    let right = find_part(&piglin, "right_ear");
    assert_eq!(piglin.parts[left.parent].name, "head");
    assert_eq!(piglin.parts[right.parent].name, "head");
    assert_eq!(units(left.pose.translation), [4.5, -6.0, 0.0]);
    assert_eq!(units(right.pose.translation), [-4.5, -6.0, 0.0]);
    let first_cube = |name: &str| {
        *piglin
            .cubes
            .iter()
            .find(|cube| piglin.parts[cube.part].name == name)
            .unwrap()
    };
    assert_eq!(units(first_cube("left_ear").origin), [0.0, 0.0, -2.0]);
    assert_eq!(units(first_cube("right_ear").origin), [-1.0, 0.0, -2.0]);
    assert!((left.pose.radians[2] as f32 / 10_000.0 + 0.7).abs() < 1.0e-6);
    assert!((right.pose.radians[2] as f32 / 10_000.0 - 0.7).abs() < 1.0e-6);
}

#[test]
fn placed_copper_golem_uses_exact_pose_selected_limb_pivots() {
    let cases = [
        (
            "standing",
            [0.0, -5.0, 0.0],
            [0.0, -5.0, 0.0],
            [0.0, -5.0, 0.0],
            [4.0, -6.0, 0.0],
            [-4.0, -6.0, 0.0],
            [0.0, -6.0, 0.0],
        ),
        (
            "running",
            [-1.064, -5.0, 0.0],
            [0.936, -5.0, 0.0],
            [-3.064, -5.0, 0.0],
            [4.0, -6.0, 0.0],
            [-4.0, -6.0, 0.0],
            [0.7, -5.6, -1.8],
        ),
        (
            "sitting",
            [0.0, -3.0, 2.325],
            [2.0, -2.0, -2.075],
            [-2.1, -2.1, -2.075],
            [4.0, -5.6, -1.7],
            [-4.0, -5.6, -1.8],
            [0.0, -6.0, -0.2],
        ),
        (
            "star",
            [0.0, -5.0, 0.0],
            [1.0, -5.0, 0.0],
            [-3.0, -5.0, 0.0],
            [4.0, -6.0, 0.0],
            [-4.0, -6.0, 0.0],
            [0.0, -6.0, 0.0],
        ),
    ];
    for (pose, body, left_leg, right_leg, left_arm, right_arm, head) in cases {
        let model = parts_of_layer(copper_golem_world_parts(&Some(pose.to_owned())));
        let root = &model.parts[0].pose;
        let turn = root.twelfths[2] as f32 * std::f32::consts::PI / 12.0
            + root.radians[2] as f32 / 10_000.0;
        assert!((turn - std::f32::consts::PI).abs() < 1.0e-6);
        let place = |name: &str| units(find_part(&model, name).pose.translation);
        assert_eq!(place("body"), body);
        assert_eq!(place("left_leg"), left_leg);
        assert_eq!(place("right_leg"), right_leg);
        assert_eq!(place("left_arm"), left_arm);
        assert_eq!(place("right_arm"), right_arm);
        assert_eq!(place("head"), head);
    }
}

fn special(family: &str, variant: Option<&str>, part: Option<&str>) -> SpecialItemModel {
    SpecialItemModel {
        family: family.to_owned(),
        texture: None,
        variant: variant.map(str::to_owned),
        part: part.map(str::to_owned),
    }
}

#[test]
fn shared_special_layers_preserve_hierarchy_planes_and_pose_selection() {
    let banner_parts = special("minecraft:banner", Some("white"), None)
        .model_parts()
        .bake();
    assert!(banner_parts.iter().any(|quad| quad.part == "pole"));
    assert!(banner_parts.iter().any(|quad| quad.part == "bar"));
    assert!(banner_parts.iter().any(|quad| quad.part == "flag"));

    let pot_definition = parts_of_layer(PartLayer::DecoratedPot);
    let top = find_part(&pot_definition, "top");
    let bottom = find_part(&pot_definition, "bottom");
    let front = find_part(&pot_definition, "front");
    assert_eq!(units(top.pose.translation), [1.0, 16.0, 1.0]);
    assert_eq!((top.pose.radians, top.pose.twelfths), ([0; 3], [0; 3]));
    assert_eq!(units(bottom.pose.translation), [1.0, 0.0, 1.0]);
    for name in ["top", "bottom"] {
        let cube = pot_definition
            .cubes
            .iter()
            .find(|cube| pot_definition.parts[cube.part].name == name)
            .unwrap();
        assert_eq!(cube.visible_faces, ALL_FACES);
    }
    assert_eq!(units(front.pose.translation), [1.0, 16.0, 15.0]);
    assert_eq!(
        (front.pose.radians, front.pose.twelfths),
        ([0; 3], [12, 0, 0])
    );

    let pot = pot_definition.bake();
    for side in ["front", "back", "left", "right"] {
        assert_eq!(pot.iter().filter(|quad| quad.part == side).count(), 1);
    }
    assert_eq!(pot.iter().filter(|quad| quad.part == "top").count(), 6);
    assert_eq!(pot.iter().filter(|quad| quad.part == "bottom").count(), 6);
    assert!(pot.iter().any(|quad| quad.part == "neck"));

    let statue = |pose: &str| {
        special("minecraft:copper_golem_statue", Some(pose), None)
            .model_parts()
            .bake()
    };
    let standing = statue("standing");
    let running = statue("running");
    assert_ne!(format!("{standing:?}"), format!("{running:?}"));
    assert!(running.iter().any(|quad| quad.part == "left_leg"));

    let dragon = parts_of_layer(PartLayer::DragonHead).bake();
    assert!(dragon
        .iter()
        .all(|quad| matches!(quad.part, "head" | "jaw")));
    assert!(dragon.iter().any(|quad| quad.part == "jaw"));
}

#[test]
fn special_families_are_made_of_their_own_cubes() {
    for (model, cubes) in [
        (special("minecraft:chest", None, None), 3),
        (special("minecraft:bed", None, Some("head")), 3),
        (special("minecraft:bed", None, Some("foot")), 3),
        (special("minecraft:banner", Some("black"), None), 3),
        (special("minecraft:banner", Some("black"), Some("wall")), 2),
        (special("minecraft:shulker_box", None, None), 2),
        (special("minecraft:head", Some("creeper"), None), 1),
        (special("minecraft:head", Some("dragon"), None), 7),
        (special("minecraft:head", Some("piglin"), None), 6),
        (special("minecraft:head", Some("zombie"), None), 2),
        (special("minecraft:player_head", None, None), 2),
        (special("minecraft:shield", None, None), 2),
        (special("minecraft:conduit", None, None), 1),
        (special("minecraft:decorated_pot", None, None), 8),
        (special("minecraft:copper_golem_statue", None, None), 9),
        (special("minecraft:trident", None, None), 0),
    ] {
        assert_eq!(model.model_parts().cubes.len(), cubes, "{model:?}");
    }
}

#[test]
fn halves_of_a_double_chest_leave_out_the_sides_where_they_meet() {
    for (part, hidden) in [
        ("left", PartDirection::West),
        ("right", PartDirection::East),
    ] {
        let quads = special("minecraft:chest", None, Some(part)).model_parts().bake();
        assert_eq!(quads.len(), 16);
        assert!(!quads
            .iter()
            .any(|quad| quad.part != "lock" && quad.direction == hidden));
    }
}

fn placed(count: usize) -> Vec<PlacedQuad> {
    (0..count)
        .map(|geometry| PlacedQuad {
            geometry,
            direction: Direction::North,
            shape: SHAPE,
        })
        .collect()
}

#[test]
fn chest_parts_serve_slots_and_the_world() {
    let model = special_world_model(
        "minecraft:chest",
        &properties(&[("facing", "east"), ("type", "single")]),
    )
    .unwrap();
    let quads = model.world_parts().bake();
    let parts = quads.iter().map(|quad| quad.part).collect::<BTreeSet<_>>();
    assert_eq!(parts, BTreeSet::from(["bottom", "lid", "lock"]));
    assert_eq!(quads.len(), 18);
    let faces = model
        .model_faces_from_parts(&quads, &placed(quads.len()))
        .unwrap();
    assert!(faces
        .iter()
        .all(|face| face.texture == "minecraft:entity/chest/normal"));
    let world = special_world_parts(faces, &model, 7);
    assert_eq!(world.len(), 1);
    assert_eq!(world[0].entries[0].1.faces.len(), 18);
    assert_eq!(world[0].entries[0].1.boxes, 7);
    assert!(!world[0].entries[0].1.ambient_occlusion);
}

#[test]
fn part_faces_take_the_looks_of_their_family() {
    let banner = special("minecraft:banner", Some("red"), None);
    let quads = banner.model_parts().bake();
    let faces = banner
        .model_faces_from_parts(&quads, &placed(quads.len()))
        .unwrap();
    for (quad, face) in quads.iter().zip(&faces) {
        assert_eq!(
            face.tint_index,
            if quad.part == "flag" { Some(0) } else { None }
        );
        assert_eq!(face.render_layer, RenderLayer::Cutout);
        assert!(!face.directional_shade);
    }
    let world = special_world_parts(faces, &banner, 0);
    for (quad, face) in quads.iter().zip(&world[0].entries[0].1.faces) {
        assert_eq!(
            face.tint_kind,
            if quad.part == "flag" {
                TintKind::Fixed(0xb0_2e_26)
            } else {
                TintKind::Untinted
            }
        );
    }

    let pot = special("minecraft:decorated_pot", None, None);
    let quads = pot.model_parts().bake();
    let faces = pot
        .model_faces_from_parts(&quads, &placed(quads.len()))
        .unwrap();
    for (quad, face) in quads.iter().zip(&faces) {
        let side = matches!(quad.part, "front" | "back" | "left" | "right");
        assert_eq!(
            face.texture,
            if side {
                "minecraft:entity/decorated_pot/decorated_pot_side"
            } else {
                "minecraft:entity/decorated_pot/decorated_pot_base"
            }
        );
    }

    let trident = special("minecraft:trident", None, None);
    assert!(trident.model_faces_from_parts(&vec![], &vec![]).is_err());
}

#[test]
fn placed_special_models_are_turned_to_where_they_face() {
    let facing = |name: &str| properties(&[("facing", name)]);
    assert_eq!(
        special_world_transform("chest", &facing("south"), "minecraft:chest"),
        SpecialPlacement::Chest { y_degrees: 0 }
    );
    assert_eq!(
        special_world_transform("red_bed", &facing("east"), "minecraft:bed"),
        SpecialPlacement::Bed { z_degrees: 450 }
    );
    assert_eq!(
        special_world_transform(
            "white_banner",
            &properties(&[("rotation", "5")]),
            "minecraft:banner"
        ),
        SpecialPlacement::Banner { y_tenths: -1125 }
    );
    assert_eq!(
        special_world_transform("white_wall_banner", &facing("west"), "minecraft:banner"),
        SpecialPlacement::Banner { y_tenths: -900 }
    );
    assert_eq!(
        special_world_transform("shulker_box", &facing("east"), "minecraft:shulker_box"),
        SpecialPlacement::ShulkerBox {
            x_degrees: 90,
            z_degrees: -90
        }
    );
    assert_eq!(
        special_world_transform("decorated_pot", &facing("north"), "minecraft:decorated_pot"),
        SpecialPlacement::Pot { y_degrees: 0 }
    );
    assert_eq!(
        special_world_transform("skeleton_wall_skull", &facing("north"), "minecraft:head"),
        SpecialPlacement::WallHead {
            step_x: 0,
            step_z: -1,
            y_degrees: 0
        }
    );
    assert_eq!(
        special_world_transform(
            "skeleton_skull",
            &properties(&[("rotation", "0")]),
            "minecraft:head"
        ),
        SpecialPlacement::Head { y_tenths: 0 }
    );
    assert_eq!(
        special_world_transform(
            "copper_golem_statue",
            &facing("north"),
            "minecraft:copper_golem_statue"
        ),
        SpecialPlacement::Statue { y_degrees: 0 }
    );
    assert_eq!(
        special_world_transform("conduit", &vec![], "minecraft:conduit"),
        SpecialPlacement::Conduit
    );
    assert_eq!(
        special_world_transform("stone", &vec![], "minecraft:shield"),
        SpecialPlacement::InPlace
    );
    assert_eq!(direction_to_y_rotation("west"), 90);
    assert_eq!(direction_steps("east"), (1, 0));
    for (facing, other) in [("north", "south"), ("east", "west")] {
        let turn = direction_to_y_rotation(other) - direction_to_y_rotation(facing);
        assert_eq!(turn.rem_euclid(360), 180);
        let (x, z) = direction_steps(facing);
        assert_eq!(direction_steps(other), (-x, -z));
    }
    assert_eq!(rotation_segment_degrees(&properties(&[("rotation", "15")])), 3375);
}

#[test]
fn blocks_with_renderers_of_their_own_are_recognised() {
    let model = |name: &str, pairs: &[(&str, &str)]| special_world_model(name, &properties(pairs));
    let bed = model("minecraft:red_bed", &[("part", "head")]).unwrap();
    assert_eq!(bed.family, "minecraft:bed");
    assert_eq!(bed.texture.as_deref(), Some("minecraft:red"));
    assert_eq!(bed.part.as_deref(), Some("head"));
    let chest = model("minecraft:exposed_copper_chest", &[("type", "left")]).unwrap();
    assert_eq!(
        chest.texture.as_deref(),
        Some("minecraft:copper_exposed_left")
    );
    let shulker = model("minecraft:white_shulker_box", &[]).unwrap();
    assert_eq!(shulker.texture.as_deref(), Some("minecraft:shulker_white"));
    let statue = model(
        "minecraft:waxed_oxidized_copper_golem_statue",
        &[("copper_golem_pose", "star")],
    )
    .unwrap();
    assert_eq!(
        statue.texture.as_deref(),
        Some("minecraft:textures/entity/copper_golem/copper_golem_oxidized.png")
    );
    assert_eq!(statue.variant.as_deref(), Some("star"));
    let skull = model("minecraft:wither_skeleton_wall_skull", &[]).unwrap();
    assert_eq!(skull.variant.as_deref(), Some("wither_skeleton"));
    assert_eq!(
        model("minecraft:player_head", &[]).unwrap().family,
        "minecraft:player_head"
    );
    assert_eq!(
        model("minecraft:black_wall_banner", &[]).unwrap().part.as_deref(),
        Some("wall")
    );
    assert!(model("minecraft:stone", &[]).is_none());
}

#[test]
fn flags_are_drawn_from_the_banner_atlas() {
    let mut images = NameMap::new();
    images.insert(
        "minecraft:entity/banner/banner_base".to_owned(),
        missing_texture(),
    );
    let atlas = pack_atlas(&images).unwrap();
    let face = |tint_index: Option<u32>| ModelFace {
        geometry: 0,
        direction: Direction::North,
        shape: SHAPE,
        texture: "minecraft:entity/banner/banner_base".to_owned(),
        atlas_region: AtlasRegion {
            x: 0,
            y: 0,
            width: 0,
            height: 0,
            layer: RenderLayer::Opaque,
        },
        material: TextureMaterial::Terrain,
        cullface: None,
        tint_index,
        tint_kind: TintKind::Untinted,
        render_layer: RenderLayer::Cutout,
        directional_shade: false,
    };
    let banner = special("minecraft:banner", Some("white"), None);
    let mut state = StateModels {
        parts: special_world_parts(vec![face(Some(0)), face(None)], &banner, 0),
        ..StateModels::empty()
    };
    bind_banner_base_material(&mut state, &atlas).unwrap();
    let faces = &state.parts[0].entries[0].1.faces;
    assert_eq!(faces[0].material, TextureMaterial::BannerPattern);
    assert_eq!(
        Some(faces[0].atlas_region),
        atlas.exact_region("minecraft:entity/banner/banner_base")
    );
    assert_eq!(faces[1].material, TextureMaterial::Terrain);
    assert!(bind_banner_base_material(&mut state, &missing_atlas()).is_err());
}

#[test]
fn corners_of_a_side_go_round_it_from_the_upper_left() {
    assert_eq!(
        face_corners(Direction::Up),
        [
            [false, true, false],
            [false, true, true],
            [true, true, true],
            [true, true, false],
        ]
    );
    for direction in [
        Direction::Down,
        Direction::Up,
        Direction::North,
        Direction::South,
        Direction::West,
        Direction::East,
    ] {
        let corner = |place: usize| face_corners(direction)[place].map(i32::from);
        let edge = |from: usize, to: usize| {
            let (from, to) = (corner(from), corner(to));
            [to[0] - from[0], to[1] - from[1], to[2] - from[2]]
        };
        let (a, b) = (edge(0, 1), edge(0, 2));
        assert_eq!(
            [
                a[1] * b[2] - a[2] * b[1],
                a[2] * b[0] - a[0] * b[2],
                a[0] * b[1] - a[1] * b[0],
            ],
            direction.offset()
        );
        assert_eq!(edge(0, 3), edge(1, 2));
    }
}
