//! Items: their definitions, the models that a slot shows, their icons and banners.

use std::collections::BTreeMap;

use cubic_render::atlas::{pack_atlas, TextureAtlasData};
use cubic_render::banner::{
    append_component_key, banner_pattern_faces, composed_banner_pattern_faces,
    decode_banner_pattern_layers, dye_color, gui_item_render_key, placed_banner_layers,
    special_icon_faces, BannerPatternLayer, BannerPatternLayers, BannerPatternRegistry, DeferredBannerPattern,
    PlacedPatternLayer,
};
use cubic_render::creative::{
    banner_assets, creative_icons, default_properties, pattern_registry, BlockDefinition,
    BlockState, CreativeStack,
};
use cubic_render::direction::Direction;
use cubic_render::drawing::{
    check_shown, draw_layer, icon_side, plan_item_drawing, read_item_definition, renderer_class,
    ItemDrawing,
};
use cubic_render::error::BlockResourceError;
use cubic_render::gui_models::{collect_gui_item_models_with_block_state, StaticItemModel};
use cubic_render::icons::{composite_rgba, default_item_tint, sample_icon};
use cubic_render::identifiers::{
    banner_pattern_texture, identifier_path, parse_identifier, resource_path,
};
use cubic_render::images::{decode_png, GuiSpriteData};
use cubic_render::inheritance::{ModelResolver, ModelStep};
use cubic_render::items::validate_item_model_graph;
use cubic_render::json::{Json, JsonNumber};
use cubic_render::loading::{
    audit_of, choose_models, icon_outcome, icon_variant, index_states, is_air, load_texture, state_models,
    IconOutcome, ItemIconAudit, Tally,
};
use cubic_render::models::{resolve_texture, ModelWire, ResolvedModel, TextureWire};
use cubic_render::names::NameMap;
use cubic_render::prepared::BlockEnvironment;
use cubic_render::resources::{
    AtlasRegion, FaceShape, FluidKind, FluidState, ModelFace, ModelOffset, RenderLayer,
    StateModels, TextureMaterial, TintKind,
};
use cubic_render::special::{color_named, SpecialItemModel};

fn tree(value: &serde_json::Value) -> Json {
    match value {
        serde_json::Value::Null => Json::Null,
        serde_json::Value::Bool(value) => Json::Bool(*value),
        serde_json::Value::Number(value) => Json::Number(JsonNumber {
            unsigned: value.as_u64(),
            signed: value.as_i64(),
            bits: value.as_f64().map(f64::to_bits),
        }),
        serde_json::Value::String(value) => Json::Text(value.clone()),
        serde_json::Value::Array(items) => Json::Array(items.iter().map(tree).collect()),
        serde_json::Value::Object(members) => Json::Object(
            members
                .iter()
                .map(|(name, value)| (name.clone(), tree(value)))
                .collect(),
        ),
    }
}

fn json(text: &str) -> Json {
    tree(&serde_json::from_str::<serde_json::Value>(text).unwrap())
}

fn properties(pairs: &[(&str, &str)]) -> Vec<(String, String)> {
    pairs
        .iter()
        .map(|(name, value)| ((*name).to_owned(), (*value).to_owned()))
        .collect()
}

fn rgba_png(width: u32, height: u32, rgba: &[u8]) -> Vec<u8> {
    let mut output = Vec::new();
    {
        let mut encoder = png::Encoder::new(&mut output, width, height);
        encoder.set_color(png::ColorType::Rgba);
        encoder.set_depth(png::BitDepth::Eight);
        let mut writer = encoder.write_header().expect("PNG header");
        writer.write_image_data(rgba).expect("PNG pixels");
    }
    output
}

fn collect(graph: &Json, block_state: &[(&str, &str)]) -> Vec<StaticItemModel> {
    let state = properties(block_state);
    let (collected, result) = collect_gui_item_models_with_block_state(graph, &state);
    result.unwrap();
    collected.models
}

/// Resources by path. Flat items are drawn from them as a slot shows them.
#[derive(Default)]
struct MemorySource(BTreeMap<String, Vec<u8>>);

impl MemorySource {
    fn insert(&mut self, path: &str, value: &str) {
        self.0.insert(path.to_owned(), value.as_bytes().to_vec());
    }

    fn insert_bytes(&mut self, path: &str, value: Vec<u8>) {
        self.0.insert(path.to_owned(), value);
    }

    fn read(&self, path: &str) -> Option<&[u8]> {
        self.0.get(path).map(Vec::as_slice)
    }

    fn read_model(&self, path: &str) -> Option<Result<ModelWire, String>> {
        let value = serde_json::from_slice::<serde_json::Value>(self.read(path)?).unwrap();
        let text = |name: &str| {
            value
                .get(name)
                .and_then(|value| value.as_str())
                .map(str::to_owned)
        };
        let mut textures = Vec::new();
        if let Some(members) = value.get("textures").and_then(|value| value.as_object()) {
            for (name, sprite) in members {
                textures.push((
                    name.clone(),
                    TextureWire::Simple(sprite.as_str().unwrap().to_owned()),
                ));
            }
        }
        Some(Ok(ModelWire {
            parent: text("parent"),
            textures,
            elements: None,
            ambientocclusion: None,
            gui_transform: None,
            gui_light: text("gui_light"),
        }))
    }

    fn resolve_model(
        &self,
        resolver: &mut ModelResolver,
        identifier: &str,
    ) -> Result<ResolvedModel, BlockResourceError> {
        let mut step = resolver.begin(identifier);
        loop {
            match step {
                ModelStep::Resolved(model) => return Ok(model),
                ModelStep::Failed(error) => return Err(error),
                ModelStep::Read { identifier, path } => {
                    let answer = self.read_model(&path);
                    step = resolver.supply(identifier, answer);
                }
            }
        }
    }

    fn validate(
        &self,
        resolver: &mut ModelResolver,
        graph: &Json,
    ) -> Result<(), BlockResourceError> {
        let (models, result) = validate_item_model_graph(graph);
        for model in models {
            self.resolve_model(resolver, &model)?;
        }
        result
    }

    fn load_item_icon(
        &self,
        resolver: &mut ModelResolver,
        item: &str,
        gui_scale: u32,
    ) -> Result<GuiSpriteData, BlockResourceError> {
        let path = resource_path(item, "items", "json")?;
        let definition = read_item_definition(self.read(&path), item)?;
        let graph = definition.get("model").unwrap();
        self.validate(resolver, graph)?;
        let models = collect(graph, &[]);
        check_shown(&models, item)?;
        let side = icon_side(gui_scale, item)?;
        let mut rgba = vec![0; side as usize * side as usize * 4];
        for model in models {
            let resolved = self.resolve_model(resolver, &parse_identifier(&model.model)?)?;
            let ItemDrawing::Layers(layers) =
                plan_item_drawing(&resolved.textures, !resolved.elements.is_empty())
            else {
                panic!("not flat");
            };
            for (number, texture) in layers {
                let texture = resolve_texture(&texture, &resolved.textures)?;
                let identifier = parse_identifier(&texture)?;
                let path = resource_path(&identifier, "textures", "png")?;
                let image = load_texture(self.read(&path), None, &texture)?;
                draw_layer(
                    &mut rgba,
                    &image.frames[0],
                    image.width,
                    image.height,
                    side,
                    &model.tints,
                    number,
                );
            }
        }
        Ok(GuiSpriteData {
            width: side,
            height: side,
            rgba,
        })
    }
}

#[test]
fn item_preview_is_derived_from_exact_version_definition_model_and_texture() {
    let mut source = MemorySource::default();
    source.insert(
        "assets/minecraft/items/diamond_sword.json",
        r#"{"model":{"type":"minecraft:model","model":"minecraft:item/diamond_sword"}}"#,
    );
    source.insert(
        "assets/minecraft/models/item/diamond_sword.json",
        r##"{"textures":{"layer0":"minecraft:item/diamond_sword"}}"##,
    );
    let pixels = vec![0x7f; 16 * 16 * 4];
    source.insert_bytes(
        "assets/minecraft/textures/item/diamond_sword.png",
        rgba_png(16, 16, &pixels),
    );
    let icon = source
        .load_item_icon(&mut ModelResolver::new(), "minecraft:diamond_sword", 1)
        .unwrap();
    assert_eq!((icon.width, icon.height), (16, 16));
    assert_eq!(icon.rgba, pixels);
}

#[test]
fn generated_item_parent_is_a_model_bakery_root_not_a_missing_json_resource() {
    let mut source = MemorySource::default();
    source.insert(
        "assets/minecraft/items/diamond_sword.json",
        r#"{"model":{"type":"minecraft:model","model":"minecraft:item/diamond_sword"}}"#,
    );
    source.insert(
        "assets/minecraft/models/item/diamond_sword.json",
        r##"{"parent":"minecraft:item/generated","textures":{"layer0":"minecraft:item/diamond_sword"}}"##,
    );
    source.insert(
        "assets/minecraft/models/item/generated.json",
        r#"{"parent":"builtin/generated","gui_light":"front"}"#,
    );
    let pixels = vec![0xa5; 16 * 16 * 4];
    source.insert_bytes(
        "assets/minecraft/textures/item/diamond_sword.png",
        rgba_png(16, 16, &pixels),
    );
    let mut resolver = ModelResolver::new();
    let icon = source
        .load_item_icon(&mut resolver, "minecraft:diamond_sword", 1)
        .unwrap();
    assert_eq!(icon.rgba, pixels);
    assert!(resolver.models.get("minecraft:builtin/generated").is_some());
}

#[test]
fn gui_item_raster_dimensions_follow_physical_gui_scale_without_upscaling() {
    let mut source = MemorySource::default();
    source.insert(
        "assets/minecraft/items/test.json",
        r#"{"model":{"type":"minecraft:model","model":"minecraft:item/test"}}"#,
    );
    source.insert(
        "assets/minecraft/models/item/test.json",
        r##"{"parent":"builtin/generated","textures":{"layer0":"minecraft:item/test"}}"##,
    );
    let mut pixels = vec![0_u8; 16 * 16 * 4];
    for y in 0..16_usize {
        for x in 0..16_usize {
            let offset = (y * 16 + x) * 4;
            pixels[offset..offset + 4].copy_from_slice(&[x as u8, y as u8, 0, 255]);
        }
    }
    source.insert_bytes(
        "assets/minecraft/textures/item/test.png",
        rgba_png(16, 16, &pixels),
    );
    let mut resolver = ModelResolver::new();
    for scale in 1_u32..=4 {
        let icon = source
            .load_item_icon(&mut resolver, "minecraft:test", scale)
            .unwrap();
        let size = 16 * scale;
        assert_eq!((icon.width, icon.height), (size, size));
        assert_eq!(icon.rgba.len(), (size * size * 4) as usize);
        for texel in 0..16_u32 {
            let sample_x = texel * scale + scale / 2;
            let offset = (sample_x * 4) as usize;
            assert_eq!(icon.rgba[offset], texel as u8);
        }
    }
}

#[test]
fn items_that_cannot_be_shown_are_reported() {
    let message = |result: Result<Json, BlockResourceError>| result.unwrap_err().message();
    assert_eq!(
        message(read_item_definition(None, "minecraft:stick")),
        "malformed item definition `minecraft:stick`: resource is missing"
    );
    assert_eq!(
        message(read_item_definition(Some(b"{}"), "minecraft:stick")),
        "malformed item definition `minecraft:stick`: model is missing"
    );
    assert!(message(read_item_definition(Some(b"{"), "minecraft:stick"))
        .starts_with("malformed item definition `minecraft:stick`: "));
    assert!(check_shown(&vec![], "minecraft:stick").is_err());
    assert_eq!(icon_side(4, "minecraft:stick").unwrap(), 64);
    assert!(icon_side(0, "minecraft:stick").is_err());
    assert!(icon_side(5, "minecraft:stick").is_err());
}

#[test]
fn current_item_graph_selects_gui_branches_and_bounded_static_fallbacks() {
    let graph = json(
        r#"{
            "type": "minecraft:composite",
            "models": [
                {"type": "minecraft:model", "model": "minecraft:item/plain"},
                {"type": "minecraft:condition", "property": "minecraft:using_item",
                 "on_true": {"type": "minecraft:model", "model": "minecraft:item/using"},
                 "on_false": {"type": "minecraft:model", "model": "minecraft:item/idle"}},
                {"type": "minecraft:select", "property": "minecraft:display_context",
                 "cases": [{"when": "gui", "model": {"type": "minecraft:model", "model": "minecraft:item/gui"}}],
                 "fallback": {"type": "minecraft:model", "model": "minecraft:item/fallback"}},
                {"type": "minecraft:range_dispatch", "property": "minecraft:damage",
                 "fallback": {"type": "minecraft:model", "model": "minecraft:item/range_fallback"}},
                {"type": "minecraft:special", "base": "minecraft:item/shield",
                 "model": {"type": "minecraft:shield"}}
            ]
        }"#,
    );
    let models = collect(&graph, &[]);
    assert_eq!(
        models
            .iter()
            .map(|model| model.model.as_str())
            .collect::<Vec<_>>(),
        [
            "minecraft:item/plain",
            "minecraft:item/idle",
            "minecraft:item/gui",
            "minecraft:item/range_fallback",
            "minecraft:item/shield",
        ]
    );
    assert_eq!(
        default_item_tint(&json(
            r#"{"type": "minecraft:map_color", "default": 1193046}"#
        )),
        0x12_34_56
    );
    assert_eq!(
        default_item_tint(&json(r#"{"type": "minecraft:dye", "default": 11259375}"#)),
        0xab_cd_ef
    );
    assert_eq!(
        models[4]
            .special
            .as_ref()
            .map(|model| model.family.as_str()),
        Some("minecraft:shield")
    );
}

#[test]
fn special_families_route_to_distinct_runtime_textures() {
    let cases = [
        (
            r#"{"type":"minecraft:chest","texture":"minecraft:copper"}"#,
            "minecraft:entity/chest/copper",
        ),
        (
            r#"{"type":"minecraft:bed","part":"head","texture":"minecraft:red"}"#,
            "minecraft:entity/bed/red",
        ),
        (
            r#"{"type":"minecraft:banner","color":"black"}"#,
            "minecraft:entity/banner/banner_base",
        ),
        (
            r#"{"type":"minecraft:shulker_box","texture":"minecraft:shulker_white"}"#,
            "minecraft:entity/shulker/shulker_white",
        ),
        (
            r#"{"type":"minecraft:head","kind":"creeper"}"#,
            "minecraft:entity/creeper/creeper",
        ),
        (
            r#"{"type":"minecraft:player_head"}"#,
            "minecraft:entity/player/wide/steve",
        ),
        (
            r#"{"type":"minecraft:shield"}"#,
            "minecraft:entity/shield/shield_base_nopattern",
        ),
        (
            r#"{"type":"minecraft:decorated_pot"}"#,
            "minecraft:entity/decorated_pot/decorated_pot_base",
        ),
        (
            r#"{"type":"minecraft:copper_golem_statue","texture":"minecraft:textures/entity/copper_golem/copper_golem.png"}"#,
            "minecraft:entity/copper_golem/copper_golem",
        ),
    ];
    for (wire, texture) in cases {
        let special = SpecialItemModel::from_value(&json(wire)).unwrap();
        assert_eq!(special.texture_identifier().unwrap(), texture);
    }
    assert!(SpecialItemModel::from_value(&json("[]")).is_err());
    assert!(SpecialItemModel::from_value(&json("{}")).is_err());
    let trident = SpecialItemModel::from_value(&json(r#"{"type":"minecraft:trident"}"#)).unwrap();
    assert!(trident.texture_identifier().is_err());
}

#[test]
fn banners_have_the_tint_of_the_dye_they_are_named_after() {
    let names = [
        "white",
        "orange",
        "magenta",
        "light_blue",
        "yellow",
        "lime",
        "pink",
        "gray",
        "light_gray",
        "cyan",
        "purple",
        "blue",
        "brown",
        "green",
        "red",
        "black",
    ];
    for (id, name) in names.into_iter().enumerate() {
        let wire = format!(r#"{{"type":"minecraft:banner","color":"{name}"}}"#);
        let banner = SpecialItemModel::from_value(&json(&wire)).unwrap();
        assert_eq!(banner.tint(), dye_color(u32::try_from(id).unwrap()));
    }
    assert_eq!(dye_color(16), None);
}

#[test]
fn banners_are_tinted_in_their_colour() {
    let tint = |wire: &str| SpecialItemModel::from_value(&json(wire)).unwrap().tint();
    assert_eq!(
        tint(r#"{"type":"minecraft:banner","color":"orange"}"#),
        Some(0xf9_80_1d)
    );
    assert_eq!(tint(r#"{"type":"minecraft:banner"}"#), Some(0xff_ff_ff));
    assert_eq!(tint(r#"{"type":"minecraft:shield"}"#), None);
    assert_eq!(color_named("black"), 0x1d_1d_21);
    assert_eq!(color_named("no colour"), 0xff_ff_ff);
}

#[test]
fn transformations_of_a_graph_are_listed_from_the_outside_in() {
    let graph = json(
        r#"{
            "type":"minecraft:composite",
            "transformation":{"scale":[2,2,2]},
            "models":[{
                "type":"minecraft:special",
                "base":"minecraft:item/red_bed",
                "model":{"type":"minecraft:bed","texture":"minecraft:red","part":"head"},
                "transformation":{
                    "translation":[1.0,0.5625,1.0],
                    "left_rotation":[0.0,-0.7,0.7,0.0]
                }
            },{
                "type":"minecraft:special",
                "base":"minecraft:item/red_bed",
                "model":{"type":"minecraft:bed","texture":"minecraft:red","part":"foot"},
                "transformation":{"translation":[1.0,0.5625,0.0]}
            }]
        }"#,
    );
    let state = vec![];
    let (collected, result) = collect_gui_item_models_with_block_state(&graph, &state);
    result.unwrap();
    let models = &collected.models;
    assert_eq!(models.len(), 2);
    assert_eq!(
        models[0].special.as_ref().unwrap().part.as_deref(),
        Some("head")
    );
    assert_eq!(
        models[1].special.as_ref().unwrap().part.as_deref(),
        Some("foot")
    );
    let innermost = |model: &StaticItemModel| {
        collected.transformations[*model.transformations.last().unwrap()]
            .get_items("translation")
            .unwrap()
            .iter()
            .map(|number| match number {
                Json::Number(number) => f64::from_bits(number.bits.unwrap()),
                _ => panic!("no number"),
            })
            .collect::<Vec<_>>()
    };
    assert_eq!(innermost(&models[0]), [1.0, 0.5625, 1.0]);
    assert_eq!(innermost(&models[1]), [1.0, 0.5625, 0.0]);
}

#[test]
fn range_dispatch_uses_the_default_stack_value_before_requiring_a_fallback() {
    let graph = json(
        r#"{
            "type": "minecraft:range_dispatch",
            "property": "minecraft:time",
            "entries": [
                {"threshold": 0.0, "model": {
                    "type": "minecraft:model", "model": "minecraft:item/clock_00"
                }},
                {"threshold": 0.5, "model": {
                    "type": "minecraft:model", "model": "minecraft:item/clock_01"
                }}
            ]
        }"#,
    );
    let models = collect(&graph, &[]);
    assert_eq!(models.len(), 1);
    assert_eq!(models[0].model, "minecraft:item/clock_00");
    assert_eq!(models[0].fallback_kind, None);
}

#[test]
fn block_state_select_resolves_every_light_level_and_test_block_mode() {
    let light_cases = (0..16)
        .map(|level| {
            format!(
                r#"{{"when":"{level}","model":{{"type":"minecraft:model","model":"minecraft:item/light_{level:02}"}}}}"#
            )
        })
        .collect::<Vec<_>>()
        .join(",");
    let light = json(&format!(
        r#"{{
            "type":"minecraft:select",
            "property":"minecraft:block_state",
            "block_state_property":"level",
            "cases":[{light_cases}],
            "fallback":{{"type":"minecraft:model","model":"minecraft:item/light"}}
        }}"#
    ));
    for level in 0..16 {
        let models = collect(&light, &[("level", level.to_string().as_str())]);
        assert_eq!(models.len(), 1);
        assert_eq!(models[0].model, format!("minecraft:item/light_{level:02}"));
    }

    let test_block = json(
        r#"{
            "type":"minecraft:select",
            "property":"minecraft:block_state",
            "block_state_property":"mode",
            "cases":[
                {"when":"log","model":{"type":"minecraft:model","model":"minecraft:block/test_block_log"}},
                {"when":"fail","model":{"type":"minecraft:model","model":"minecraft:block/test_block_fail"}},
                {"when":"accept","model":{"type":"minecraft:model","model":"minecraft:block/test_block_accept"}}
            ],
            "fallback":{"type":"minecraft:model","model":"minecraft:block/test_block_start"}
        }"#,
    );
    for (mode, expected) in [
        ("start", "minecraft:block/test_block_start"),
        ("log", "minecraft:block/test_block_log"),
        ("fail", "minecraft:block/test_block_fail"),
        ("accept", "minecraft:block/test_block_accept"),
    ] {
        let models = collect(&test_block, &[("mode", mode)]);
        assert_eq!(models.len(), 1);
        assert_eq!(models[0].model, expected);
    }
}

#[test]
fn malformed_graphs_are_refused_with_what_was_collected() {
    let graph = json(
        r#"{"type":"minecraft:composite","models":[
            {"type":"minecraft:model","model":"minecraft:item/plain"},
            {"type":"minecraft:unknown"}
        ]}"#,
    );
    let state = vec![];
    let (collected, result) = collect_gui_item_models_with_block_state(&graph, &state);
    assert!(result.is_err());
    assert_eq!(collected.models.len(), 1);
    let mut deep = r#"{"type":"minecraft:empty"}"#.to_owned();
    for _ in 0..40 {
        deep = format!(r#"{{"type":"minecraft:composite","models":[{deep}]}}"#);
    }
    assert!(collect_gui_item_models_with_block_state(&json(&deep), &state)
        .1
        .is_err());
    assert!(validate_item_model_graph(&json(&deep)).1.is_err());
}

#[test]
fn item_graph_audit_validates_unselected_branches_and_known_special_types() {
    let graph = json(
        r#"{
            "type": "minecraft:condition",
            "property": "minecraft:using_item",
            "on_false": {"type": "minecraft:model", "model": "minecraft:item/idle"},
            "on_true": {"type": "minecraft:model", "model": "minecraft:item/active"}
        }"#,
    );
    let mut source = MemorySource::default();
    source.insert("assets/minecraft/models/item/idle.json", r#"{}"#);
    let mut resolver = ModelResolver::new();
    assert!(source.validate(&mut resolver, &graph).is_err());

    source.insert("assets/minecraft/models/item/active.json", r#"{}"#);
    assert!(source.validate(&mut resolver, &graph).is_ok());
    assert!(source
        .validate(
            &mut resolver,
            &json(r#"{"type": "minecraft:bundle/selected_item"}"#)
        )
        .is_ok());
}

#[test]
fn layers_are_drawn_from_the_smallest_number_on() {
    let mut textures = NameMap::new();
    for (name, texture) in [
        ("layer10", "c"),
        ("layer0", "a"),
        ("particle", "p"),
        ("layer2", "b"),
        ("layerx", "x"),
    ] {
        textures.insert(name.to_owned(), texture.to_owned());
    }
    let ItemDrawing::Layers(layers) = plan_item_drawing(&textures, false) else {
        panic!("not flat");
    };
    assert_eq!(
        layers,
        [
            (0, "a".to_owned()),
            (2, "b".to_owned()),
            (10, "c".to_owned())
        ]
    );
    assert!(matches!(
        plan_item_drawing(&textures, true),
        ItemDrawing::Geometry
    ));
    let mut particle = NameMap::new();
    particle.insert("particle".to_owned(), "p".to_owned());
    assert!(matches!(
        plan_item_drawing(&particle, false),
        ItemDrawing::Particle(texture) if texture == "p"
    ));
    assert!(matches!(
        plan_item_drawing(&NameMap::new(), false),
        ItemDrawing::Geometry
    ));
    assert_eq!(renderer_class(&None, true), "baked");
    assert_eq!(renderer_class(&None, false), "generated");
}

#[test]
fn icons_are_sampled_tinted_and_laid_over_each_other() {
    let source = vec![255, 255, 255, 255, 0, 0, 0, 255];
    let icon = sample_icon(&source, 2, 1, 2, Some(0x80_40_20));
    assert_eq!(&icon[0..4], &[0x80, 0x40, 0x20, 255]);
    assert_eq!(&icon[4..8], &[0, 0, 0, 255]);
    let mut target = vec![10, 20, 30, 255];
    composite_rgba(&mut target, &vec![200, 100, 50, 255]);
    assert_eq!(target, [200, 100, 50, 255]);
    composite_rgba(&mut target, &vec![1, 2, 3, 0]);
    assert_eq!(target, [200, 100, 50, 255]);
}

// Banners.

#[test]
fn component_aware_gui_keys_are_stable_and_distinct() {
    let key = |mode: &str| gui_item_render_key("minecraft:test_block", &properties(&[("mode", mode)]));
    let start = key("start");
    let log = key("log");
    assert_ne!(start, log);
    assert_eq!(start, key("start"));
}

#[test]
fn components_are_kept_apart_in_keys() {
    let mut first = gui_item_render_key("minecraft:white_banner", &vec![]);
    let mut second = first.clone();
    append_component_key(&mut first, "minecraft:banner_patterns", &[1, 2]);
    append_component_key(&mut second, "minecraft:banner_patterns", &[1, 3]);
    assert_ne!(first, second);
    assert!(first.ends_with("0102"));
}

#[test]
fn banner_pattern_component_decodes_bounded_ordered_runtime_layers() {
    let registry = vec![
        (2, "minecraft:stripe_bottom".to_owned()),
        (24, "minecraft:rhombus".to_owned()),
    ];
    let registry = BannerPatternRegistry::GameData(&registry);
    let layers = decode_banner_pattern_layers(&[2, 25, 9, 3, 15], Some(&registry)).unwrap();
    assert_eq!(
        layers,
        BannerPatternLayers::Resolved(vec![
            BannerPatternLayer {
                texture: "minecraft:entity/banner/rhombus".to_owned(),
                tint: 0x16_9c_9c,
            },
            BannerPatternLayer {
                texture: "minecraft:entity/banner/stripe_bottom".to_owned(),
                tint: 0x1d_1d_21,
            },
        ])
    );
    assert!(decode_banner_pattern_layers(&[21], Some(&registry)).is_err());
    assert!(decode_banner_pattern_layers(&[1, 127, 0], Some(&registry)).is_err());
}

#[test]
fn banner_patterns_defer_without_registry_and_resolve_strictly_later() {
    let encoded = [2, 25, 9, 3, 15];
    let BannerPatternLayers::Deferred(deferred) =
        decode_banner_pattern_layers(&encoded, None).unwrap()
    else {
        panic!("missing registry must retain a deferred component");
    };
    assert_eq!(deferred.layers.len(), 2);

    let ordered = (0..=24)
        .map(|raw| format!("minecraft:pattern_{raw}"))
        .collect::<Vec<_>>();
    let resolved = deferred
        .resolve(&BannerPatternRegistry::Ordered(&ordered))
        .unwrap();
    assert_eq!(resolved[0].texture, "minecraft:entity/banner/pattern_24");
    assert_eq!(resolved[0].tint, 0x16_9c_9c);
    assert_eq!(resolved[1].texture, "minecraft:entity/banner/pattern_2");
    assert_eq!(resolved[1].tint, 0x1d_1d_21);

    let too_short = ordered[..2].to_vec();
    assert!(
        deferred
            .resolve(&BannerPatternRegistry::Ordered(&too_short))
            .is_err(),
        "an available registry must reject an invalid holder ID"
    );
}

#[test]
fn ominous_banner_component_matches_the_verified_runtime_layer_sequence() {
    let mut registry = (0..=36)
        .map(|raw| format!("minecraft:pattern_{raw}"))
        .collect::<Vec<_>>();
    for (raw, name) in [
        (1, "border"),
        (3, "circle"),
        (17, "half_horizontal"),
        (23, "rhombus"),
        (31, "stripe_bottom"),
        (32, "stripe_center"),
        (36, "stripe_middle"),
    ] {
        registry[raw] = format!("minecraft:{name}");
    }
    let encoded = [8, 24, 9, 32, 8, 33, 7, 2, 8, 37, 15, 18, 8, 4, 8, 2, 15];
    let BannerPatternLayers::Resolved(layers) = decode_banner_pattern_layers(
        &encoded,
        Some(&BannerPatternRegistry::Ordered(&registry)),
    )
    .unwrap() else {
        panic!("exact-version registry must resolve canonical component");
    };
    let actual = layers
        .iter()
        .map(|layer| (identifier_path(&layer.texture), layer.tint))
        .collect::<Vec<_>>();
    assert_eq!(
        actual,
        [
            ("entity/banner/rhombus", 0x16_9c_9c),
            ("entity/banner/stripe_bottom", 0x9d_9d_97),
            ("entity/banner/stripe_center", 0x47_4f_52),
            ("entity/banner/border", 0x9d_9d_97),
            ("entity/banner/stripe_middle", 0x1d_1d_21),
            ("entity/banner/half_horizontal", 0x9d_9d_97),
            ("entity/banner/circle", 0x9d_9d_97),
            ("entity/banner/border", 0x1d_1d_21),
        ]
    );
}

#[test]
fn direct_patterns_name_their_own_asset() {
    // One layer that names its asset and a translation, in white.
    let mut bytes = vec![1, 0, 17];
    bytes.extend_from_slice(b"minecraft:rhombus");
    bytes.push(3);
    bytes.extend_from_slice(b"key");
    bytes.push(0);
    let BannerPatternLayers::Deferred(deferred) =
        decode_banner_pattern_layers(&bytes, None).unwrap()
    else {
        panic!("no registry");
    };
    assert_eq!(
        deferred.layers[0].pattern,
        DeferredBannerPattern::Direct("minecraft:rhombus".to_owned())
    );
    let none = vec![];
    let resolved = deferred
        .resolve(&BannerPatternRegistry::Ordered(&none))
        .unwrap();
    assert_eq!(resolved[0].texture, "minecraft:entity/banner/rhombus");
    assert_eq!(resolved[0].tint, 0xf9_ff_fe);
    // Text that is no text is refused.
    bytes[3] = 0xff;
    assert!(decode_banner_pattern_layers(&bytes, None).is_err());
}

#[test]
fn malformed_pattern_components_are_refused() {
    for bytes in [
        [].as_slice(),
        [1].as_slice(),
        [1, 2].as_slice(),
        [1, 2, 16].as_slice(),
        [1, 2, 0, 0].as_slice(),
    ] {
        assert!(decode_banner_pattern_layers(bytes, None).is_err(), "{bytes:?}");
    }
    assert_eq!(dye_color(15), Some(0x1d_1d_21));
    assert_eq!(dye_color(16), None);
}

fn flag() -> ModelFace {
    ModelFace {
        geometry: 3,
        direction: Direction::North,
        shape: FaceShape {
            upper: [[false; 3]; 4],
            covers_boundary: false,
        },
        texture: "minecraft:entity/banner/banner_base".to_owned(),
        atlas_region: AtlasRegion {
            x: 0,
            y: 0,
            width: 1,
            height: 1,
            layer: RenderLayer::Cutout,
        },
        material: TextureMaterial::Terrain,
        cullface: None,
        tint_index: Some(0),
        tint_kind: TintKind::Untinted,
        render_layer: RenderLayer::Cutout,
        directional_shade: false,
    }
}

#[test]
fn placed_banner_and_item_banner_share_static_pattern_compositor() {
    let base = flag();
    let ignored_pole = ModelFace {
        tint_index: None,
        ..base.clone()
    };
    let layers = vec![
        BannerPatternLayer {
            texture: "minecraft:entity/banner/creeper".to_owned(),
            tint: 0xb0_2e_26,
        },
        BannerPatternLayer {
            texture: "minecraft:entity/banner/border".to_owned(),
            tint: 0x1d_1d_21,
        },
    ];
    let composed = composed_banner_pattern_faces(&vec![base.clone(), ignored_pole], &layers, 1);
    assert_eq!(composed.len(), 2);
    // The corners and texture coordinates of a face are held under its geometry.
    assert_eq!(composed[0].0.geometry, base.geometry);
    assert_eq!(composed[0].0.texture, "minecraft:entity/banner/creeper");
    assert_eq!(composed[0].0.tint_index, Some(1));
    assert_eq!(composed[0].1, 0xb0_2e_26);
    assert_eq!(composed[1].0.texture, "minecraft:entity/banner/border");
    assert_eq!(composed[1].0.tint_index, Some(2));
    assert_eq!(composed[1].1, 0x1d_1d_21);
}

#[test]
fn banner_icons_carry_their_layers_and_other_icons_do_not() {
    let special = |family: &str| SpecialItemModel {
        family: family.to_owned(),
        texture: None,
        variant: Some("red".to_owned()),
        part: None,
    };
    let layers = vec![
        BannerPatternLayer {
            texture: "minecraft:entity/banner/creeper".to_owned(),
            tint: 0xf9_80_1d,
        };
        20
    ];
    let pole = || ModelFace {
        tint_index: None,
        ..flag()
    };
    let (faces, tints) =
        special_icon_faces(&special("minecraft:banner"), vec![pole(), flag()], &layers);
    assert_eq!(faces.len(), 2 + 16);
    assert_eq!(faces[0].tint_index, None);
    assert_eq!(faces[1].texture, "minecraft:entity/banner/banner_base");
    for (number, face) in faces[2..].iter().enumerate() {
        assert_eq!(face.texture, "minecraft:entity/banner/creeper");
        assert_eq!(face.tint_index, Some(number as u32 + 1));
        assert_eq!(face.geometry, flag().geometry);
    }
    assert_eq!(tints.len(), 17);
    assert_eq!(tints[0], color_named("red"));
    assert!(tints[1..].iter().all(|tint| *tint == 0xf9_80_1d));

    let (faces, tints) = special_icon_faces(&special("minecraft:chest"), vec![flag()], &layers);
    assert_eq!(faces.len(), 1);
    assert!(tints.is_empty());
}

fn banner_atlas(assets: &[&str]) -> TextureAtlasData {
    let mut images = NameMap::new();
    let image = || decode_png(&rgba_png(2, 2, &[19, 47, 83, 255].repeat(4))).unwrap();
    images.insert("minecraft:entity/banner/banner_base".to_owned(), image());
    for asset in assets {
        images.insert(
            banner_pattern_texture(&format!("minecraft:{asset}")),
            image(),
        );
    }
    pack_atlas(&images).unwrap()
}

#[test]
fn placed_banners_draw_a_face_for_each_of_their_patterns() {
    let assets = [
        "rhombus",
        "stripe_bottom",
        "stripe_center",
        "border",
        "stripe_middle",
        "half_horizontal",
        "circle",
        "border",
    ];
    let atlas = banner_atlas(&assets);
    let base = vec![flag()];
    assert!(banner_pattern_faces(&base, &vec![], &atlas)
        .unwrap()
        .is_empty());
    let layers = assets
        .iter()
        .enumerate()
        .map(|(index, asset)| PlacedPatternLayer {
            asset_id: format!("minecraft:{asset}"),
            dye_raw_id: [9, 8, 7, 8, 15, 8, 8, 15][index],
        })
        .collect::<Vec<_>>();
    let faces = banner_pattern_faces(&base, &layers, &atlas).unwrap();
    assert_eq!(faces.len(), 8);
    for (face, asset) in faces.iter().zip(assets) {
        let sprite = format!("minecraft:entity/banner/{asset}");
        assert_eq!(face.texture, sprite);
        assert_eq!(face.material, TextureMaterial::BannerPattern);
        assert_eq!(Some(face.atlas_region), atlas.exact_region(&sprite));
        assert!(face.atlas_region.width > 0 && face.atlas_region.height > 0);
        let offset = (face.atlas_region.y as usize * atlas.width as usize
            + face.atlas_region.x as usize)
            * 4;
        assert_eq!(&atlas.rgba[offset..offset + 4], &[19, 47, 83, 255]);
    }
    assert_eq!(placed_banner_layers(&layers)[0].tint, 0x16_9c_9c);
    let unknown = PlacedPatternLayer {
        asset_id: "minecraft:not_in_banner_atlas".to_owned(),
        dye_raw_id: 0,
    };
    assert!(banner_pattern_faces(&base, &vec![unknown], &atlas).is_err());
}

// Loading.

#[test]
fn air_has_no_models_and_what_cannot_be_resolved_falls_back() {
    assert!(is_air("minecraft:air"));
    assert!(is_air("minecraft:cave_air"));
    assert!(!is_air("minecraft:stone"));
    let solid = || cubic_render::baking::fallback_state(0, 0);
    let (models, fell_back) = choose_models(true, None, solid());
    assert!(models.parts.is_empty() && !fell_back);
    let (models, fell_back) = choose_models(false, None, solid());
    assert!(models.full_opaque_cube && fell_back);
    let (models, fell_back) = choose_models(false, Some(StateModels::empty()), solid());
    assert!(models.full_opaque_cube && fell_back);
    let mut resolved = solid();
    resolved.emissive = true;
    let (models, fell_back) = choose_models(false, Some(resolved), solid());
    assert!(models.emissive && !fell_back);
}

#[test]
fn block_states_take_their_meaning_from_block_and_renderer() {
    let dry = BlockEnvironment {
        fluid: None,
        emissive: false,
    };
    let wet = BlockEnvironment {
        fluid: Some(FluidState {
            kind: FluidKind::Water,
            level: 0,
            falling: false,
        }),
        emissive: true,
    };
    let solid = || cubic_render::baking::fallback_state(0, 0);

    let (models, fell_back) =
        state_models("minecraft:air", &vec![], None, solid(), dry, false, None);
    assert!(!fell_back && models.parts.is_empty() && !models.full_opaque_cube);

    let (models, fell_back) =
        state_models("minecraft:stone", &vec![], None, solid(), dry, true, None);
    assert!(fell_back && models.full_opaque_cube && models.fluid_surface_solid);
    assert_eq!(models.parts[0].entries[0].1.faces[0].render_layer, RenderLayer::Opaque);

    let (models, fell_back) = state_models(
        "minecraft:short_grass",
        &vec![],
        Some(solid()),
        solid(),
        wet,
        true,
        None,
    );
    assert!(!fell_back && models.emissive && !models.fluid_surface_solid);
    assert_eq!(models.fluid, wet.fluid);
    assert_eq!(models.model_offset, ModelOffset::Xyz);
    assert_eq!(models.parts[0].entries[0].1.faces[0].render_layer, RenderLayer::Cutout);

    // A renderer of the block's own takes the place of its models.
    let (models, fell_back) = state_models(
        "minecraft:chest",
        &vec![],
        None,
        solid(),
        dry,
        true,
        Some(vec![]),
    );
    assert!(fell_back && models.parts.is_empty() && !models.full_opaque_cube);
}

#[test]
fn components_of_a_stack_choose_its_icon() {
    let plain = icon_variant("minecraft:light", None, None, None).unwrap();
    assert_eq!(plain.key, "minecraft:light");
    assert!(plain.layers.is_empty() && plain.deferred.is_none());

    let level = properties(&[("level", "7")]);
    let lit = icon_variant("minecraft:light", Some(&level), None, None).unwrap();
    assert_eq!(lit.key, gui_item_render_key("minecraft:light", &level));

    let encoded = [2, 25, 9, 3, 15];
    let mut key = "minecraft:white_banner".to_owned();
    append_component_key(&mut key, "banner_patterns", &encoded);
    let deferred = icon_variant("minecraft:white_banner", None, Some(&encoded), None).unwrap();
    assert_eq!(deferred.key, key);
    assert!(deferred.layers.is_empty());
    assert_eq!(deferred.deferred.unwrap().layers.len(), 2);

    let names = vec![
        (2, "minecraft:stripe_bottom".to_owned()),
        (24, "minecraft:rhombus".to_owned()),
    ];
    let registry = BannerPatternRegistry::GameData(&names);
    let known =
        icon_variant("minecraft:white_banner", None, Some(&encoded), Some(&registry)).unwrap();
    assert_eq!(known.key, key);
    assert_eq!(known.layers[0].texture, "minecraft:entity/banner/rhombus");
    assert!(known.deferred.is_none());
    assert!(icon_variant("minecraft:white_banner", None, Some(&[21]), None).is_err());
}

fn stack(item: &str) -> CreativeStack {
    CreativeStack {
        item: item.to_owned(),
        model: item.to_owned(),
        block_state: None,
        banner_patterns: None,
    }
}

#[test]
fn creative_stacks_with_components_have_icons_of_their_own() {
    let blocks = vec![BlockDefinition {
        identifier: "minecraft:white_banner".to_owned(),
        default_state_id: 8,
        states: vec![
            BlockState {
                state_id: 7,
                properties: properties(&[("rotation", "0")]),
            },
            BlockState {
                state_id: 8,
                properties: properties(&[("rotation", "8")]),
            },
        ],
    }];
    assert_eq!(
        default_properties(&blocks, "minecraft:white_banner"),
        properties(&[("rotation", "8")])
    );
    assert!(default_properties(&blocks, "minecraft:stone").is_empty());

    let encoded = vec![1, 1, 0];
    let light = CreativeStack {
        block_state: Some(Some(properties(&[("level", "7")]))),
        ..stack("minecraft:light")
    };
    let banner = CreativeStack {
        banner_patterns: Some(Some(encoded.clone())),
        ..stack("minecraft:white_banner")
    };
    // The same icon under the same key: only the first is drawn.
    let again = CreativeStack {
        item: "minecraft:stone".to_owned(),
        ..banner.clone()
    };
    // A component that could not be read changes nothing but the choice.
    let unreadable = CreativeStack {
        block_state: Some(None),
        ..stack("minecraft:test_block")
    };
    let stacks = vec![stack("minecraft:stone"), light, banner, again, unreadable];
    let names = vec!["minecraft:base".to_owned()];
    let registry = pattern_registry(None, &names);
    let icons = creative_icons(&stacks, &blocks, registry.as_ref()).unwrap();
    assert_eq!(icons.sources.entries.len(), 3);
    assert!(icons.deferred.entries.is_empty());
    let light = icons
        .sources
        .get(&gui_item_render_key("minecraft:light", &properties(&[("level", "7")])))
        .unwrap();
    assert_eq!(light.properties, properties(&[("level", "7")]));
    let mut key = "minecraft:white_banner".to_owned();
    append_component_key(&mut key, "banner_patterns", &encoded);
    let banner = icons.sources.get(&key).unwrap();
    assert_eq!(banner.properties, properties(&[("rotation", "8")]));
    assert_eq!(banner.layers[0].texture, "minecraft:entity/banner/base");
    assert!(icons.sources.get("minecraft:test_block").unwrap().properties.is_empty());

    let icons = creative_icons(&stacks, &blocks, None).unwrap();
    assert!(icons.sources.get(&key).unwrap().layers.is_empty());
    assert_eq!(icons.deferred.get(&key).unwrap().layers.len(), 1);

    let broken = vec![CreativeStack {
        banner_patterns: Some(Some(vec![21])),
        ..stack("minecraft:white_banner")
    }];
    assert!(creative_icons(&broken, &blocks, None).is_err());
}

#[test]
fn patterns_come_from_the_registry_before_the_creative_inventory() {
    let registry = vec![(4, "minecraft:rhombus".to_owned())];
    let creative = vec!["minecraft:base".to_owned()];
    assert_eq!(banner_assets(Some(&registry), Some(&creative)), ["minecraft:rhombus"]);
    assert_eq!(banner_assets(None, Some(&creative)), ["minecraft:base"]);
    assert!(banner_assets(None, None).is_empty());
    let name = |registry: Option<BannerPatternRegistry<'_>>, raw_id: u32| {
        registry.and_then(|registry| registry.identifier(raw_id).map(str::to_owned))
    };
    assert_eq!(
        name(pattern_registry(Some(&registry), &creative), 4),
        Some("minecraft:rhombus".to_owned())
    );
    assert_eq!(
        name(pattern_registry(None, &creative), 0),
        Some("minecraft:base".to_owned())
    );
    assert!(pattern_registry(None, &vec![]).is_none());
}

#[test]
fn states_are_found_by_their_numbers() {
    let states = index_states(vec![
        (1, StateModels::empty()),
        (3, StateModels::empty()),
    ])
    .unwrap();
    assert_eq!(
        states.iter().map(Option::is_some).collect::<Vec<_>>(),
        [false, true, false, true]
    );
    assert!(index_states(vec![]).is_err());
}

#[test]
fn renderers_and_icons_are_counted() {
    let mut tally = Tally::new();
    for class in ["baked", "generated", "baked"] {
        tally.record(class);
    }
    assert_eq!(tally.counts.get("baked"), Some(&2));
    assert_eq!(tally.counts.get("generated"), Some(&1));
    assert_eq!(tally.total, 3);

    let sprite = |alpha: u8| {
        Ok(GuiSpriteData {
            width: 1,
            height: 1,
            rgba: vec![0, 0, 0, alpha],
        })
    };
    assert_eq!(
        icon_outcome(&sprite(1), true),
        IconOutcome::Shown { simplified: true }
    );
    assert_eq!(icon_outcome(&sprite(0), false), IconOutcome::Transparent);
    let failed = |reason: &str| {
        icon_outcome(
            &Err(cubic_render::error::malformed("model", "minecraft:a", reason)),
            false,
        )
    };
    assert_eq!(failed("resource is missing"), IconOutcome::MissingResource);
    assert_eq!(failed("depth"), IconOutcome::Unsupported);

    let mut audit = ItemIconAudit::new(4);
    audit.record(IconOutcome::Shown { simplified: true });
    audit.record(IconOutcome::Transparent);
    audit.record(IconOutcome::MissingResource);
    audit.record(IconOutcome::Unsupported);
    assert_eq!((audit.resolved, audit.fallback), (1, 3));
    assert_eq!(audit.static_simplification, 1);
    assert_eq!(audit.missing_resource, 1);
    assert_eq!(audit.unsupported_model, 2);
    assert_eq!(audit.registered, 4);
}

#[test]
fn every_icon_is_resolved_or_falls_back() {
    let audit = audit_of(&vec![
        IconOutcome::Shown { simplified: true },
        IconOutcome::Transparent,
        IconOutcome::Shown { simplified: false },
        IconOutcome::MissingResource,
        IconOutcome::Unsupported,
    ]);
    assert_eq!((audit.registered, audit.resolved, audit.fallback), (5, 2, 3));
    assert_eq!(audit.static_simplification, 1);
    assert_eq!(audit.missing_resource, 1);
    assert_eq!(audit.unsupported_model, 2);
    assert_eq!(audit.renderer_classes.total, 0);
    assert_eq!(audit_of(&vec![]).registered, 0);
}

#[test]
fn air_has_no_models_and_no_effect() {
    let (air, fell_back) = choose_models(true, None, StateModels::empty());
    assert!(!fell_back);
    assert!(air.parts.is_empty() && air.fluid.is_none());
    assert!(!air.full_opaque_cube && !air.fluid_surface_solid && !air.emissive);
    assert_eq!(air.model_offset, ModelOffset::Unmoved);
}
