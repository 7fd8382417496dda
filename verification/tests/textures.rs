//! Images, their animations, atlases, colour maps and texts.

use std::collections::BTreeMap;

use cubic_render::animation::{
    animation_from_section, decode_texture_metadata, default_frame_time, AnimationFrameWire,
    AnimationWire,
};
use cubic_render::atlas::{pack_atlas, pixel_offset, TextureAtlasData, MAX_ATLAS_SIDE};
use cubic_render::error::BlockResourceError;
use cubic_render::identifiers::{parse_identifier, resource_path};
use cubic_render::images::{
    check_header, decode_gui_png, decode_png, load_colormap, load_gui_sprite, missing_texture,
    AnimationStep, ColorFormat, DecodedImage, GuiSpriteData, PngFrame, PngHeader,
    sprite_from_frame, texture_from_frame,
};
use cubic_render::loading::{
    atlas_textures, banner_textures, load_texture, missing_atlas, DESTROY_STAGE_COUNT,
    INVENTORY_SPRITES,
};
use cubic_render::names::NameMap;
use cubic_render::resources::{AtlasRegion, FluidKind, FluidState, RenderLayer, StateModels};
use cubic_render::translations::{load_inventory_translations, DeprecatedTranslations};

fn png(
    width: u32,
    height: u32,
    color: png::ColorType,
    depth: png::BitDepth,
    data: &[u8],
) -> Vec<u8> {
    let mut output = Vec::new();
    {
        let mut encoder = png::Encoder::new(&mut output, width, height);
        encoder.set_color(color);
        encoder.set_depth(depth);
        let mut writer = encoder.write_header().expect("PNG header");
        writer.write_image_data(data).expect("PNG pixels");
    }
    output
}

fn rgba_png(width: u32, height: u32, rgba: &[u8]) -> Vec<u8> {
    png(
        width,
        height,
        png::ColorType::Rgba,
        png::BitDepth::Eight,
        rgba,
    )
}

#[derive(Default)]
struct MemorySource(BTreeMap<String, Vec<u8>>);

impl MemorySource {
    fn insert_bytes(&mut self, path: &str, value: Vec<u8>) {
        self.0.insert(path.to_owned(), value);
    }

    fn read(&self, path: &str) -> Option<&[u8]> {
        self.0.get(path).map(Vec::as_slice)
    }

    fn load_gui_sprite(&self, name: &str) -> Result<GuiSpriteData, BlockResourceError> {
        let path = resource_path(&parse_identifier(name)?, "textures", "png")?;
        load_gui_sprite(self.read(&path), name)
    }

    fn load_texture(&self, name: &str) -> Result<DecodedImage, BlockResourceError> {
        let identifier = parse_identifier(name)?;
        let path = resource_path(&identifier, "textures", "png")?;
        let metadata = resource_path(&identifier, "textures", "png.mcmeta")?;
        load_texture(self.read(&path), self.read(&metadata), name)
    }
}

fn images(list: Vec<(&str, DecodedImage)>) -> NameMap<DecodedImage> {
    let mut map = NameMap::new();
    for (name, image) in list {
        map.insert(name.to_owned(), image);
    }
    map
}

/// The corners of a region, as fractions of the atlas.
fn bounds(atlas: &TextureAtlasData, region: AtlasRegion) -> ([f32; 2], [f32; 2]) {
    let size = [atlas.width as f32, atlas.height as f32];
    (
        [region.x as f32 / size[0], region.y as f32 / size[1]],
        [
            (region.x + region.width) as f32 / size[0],
            (region.y + region.height) as f32 / size[1],
        ],
    )
}

#[test]
fn exact_version_gui_sprite_is_loaded_without_embedding_asset_pixels() {
    let mut source = MemorySource::default();
    let pixels = (0..15 * 15)
        .flat_map(|index| {
            let value = u8::try_from(index % 256).unwrap_or(0);
            [value, 255 - value, value / 2, 255]
        })
        .collect::<Vec<_>>();
    source.insert_bytes(
        "assets/minecraft/textures/gui/sprites/hud/crosshair.png",
        rgba_png(15, 15, &pixels),
    );
    let sprite = source
        .load_gui_sprite("minecraft:gui/sprites/hud/crosshair")
        .unwrap();
    assert_eq!((sprite.width, sprite.height), (15, 15));
    assert_eq!(sprite.rgba, pixels);
}

#[test]
fn inventory_gui_resources_use_exact_runtime_paths_and_dimensions() {
    let fixtures = [
        ("gui/container/inventory", 256, 256),
        ("gui/container/generic_54", 256, 256),
        ("gui/container/furnace", 256, 256),
        ("gui/container/crafting_table", 256, 256),
        ("gui/sprites/hud/hotbar", 182, 22),
        ("gui/sprites/hud/hotbar_selection", 24, 23),
        ("gui/sprites/container/furnace/burn_progress", 24, 16),
        ("gui/sprites/container/furnace/lit_progress", 14, 14),
        ("gui/sprites/container/slot/helmet", 16, 16),
        ("gui/sprites/container/slot/chestplate", 16, 16),
        ("gui/sprites/container/slot/leggings", 16, 16),
        ("gui/sprites/container/slot/boots", 16, 16),
        ("gui/sprites/container/slot/shield", 16, 16),
        ("gui/sprites/container/slot_highlight_back", 18, 18),
        ("gui/sprites/container/slot_highlight_front", 18, 18),
        ("font/ascii", 128, 128),
    ];
    let mut source = MemorySource::default();
    for (name, width, height) in fixtures {
        source.insert_bytes(
            &format!("assets/minecraft/textures/{name}.png"),
            rgba_png(
                width,
                height,
                &vec![0x7f; width as usize * height as usize * 4],
            ),
        );
    }
    for (name, width, height) in fixtures {
        let sprite = source
            .load_gui_sprite(&format!("minecraft:{name}"))
            .unwrap();
        assert_eq!((sprite.width, sprite.height), (width, height));
        assert!(INVENTORY_SPRITES.contains(&name));
    }
}

#[test]
fn all_ten_destroy_stages_are_loaded_from_official_runtime_resource_paths() {
    let mut source = MemorySource::default();
    for stage in 0..DESTROY_STAGE_COUNT {
        source.insert_bytes(
            &format!("assets/minecraft/textures/block/destroy_stage_{stage}.png"),
            rgba_png(16, 16, &vec![stage; 16 * 16 * 4]),
        );
    }
    let stages = (0..DESTROY_STAGE_COUNT)
        .map(|stage| source.load_gui_sprite(&format!("minecraft:block/destroy_stage_{stage}")))
        .collect::<Result<Vec<_>, _>>()
        .unwrap();
    assert_eq!(stages.len(), usize::from(DESTROY_STAGE_COUNT));
    assert_eq!((stages[0].width, stages[0].height), (16, 16));
    assert_eq!(stages[9].rgba[0], 9);
}

#[test]
fn missing_sprites_and_colour_maps_are_reported() {
    let error = load_gui_sprite(None, "minecraft:hud").unwrap_err();
    assert_eq!(
        error.message(),
        "malformed GUI sprite `minecraft:hud`: resource is missing"
    );
    assert!(decode_gui_png(b"no image").is_err());
    let error = load_colormap(None, "minecraft:colormap/grass").unwrap_err();
    assert_eq!(
        error.message(),
        "malformed colormap `minecraft:colormap/grass`: resource is missing"
    );
    let small = rgba_png(2, 2, &[0; 16]);
    let error = load_colormap(Some(&small), "grass").unwrap_err();
    assert_eq!(
        error.message(),
        "malformed colormap `grass`: expected a 256 by 256 image"
    );
}

#[test]
fn colour_maps_drop_the_alpha_of_their_pixels() {
    let mut pixels = vec![255; 256 * 256 * 4];
    pixels[4..8].copy_from_slice(&[0x12, 0x34, 0x56, 0x78]);
    let bytes = rgba_png(256, 256, &pixels);
    let colors = load_colormap(Some(&bytes), "grass").unwrap();
    assert_eq!(colors.len(), 256 * 256);
    assert_eq!(colors[0], 0xff_ff_ff);
    assert_eq!(colors[1], 0x12_34_56);
}

#[test]
fn images_without_colour_or_alpha_are_expanded() {
    let rgb = decode_png(&png(
        1,
        1,
        png::ColorType::Rgb,
        png::BitDepth::Eight,
        &[1, 2, 3],
    ))
    .unwrap();
    assert_eq!(rgb.rgba, [1, 2, 3, 255]);
    assert!(!rgb.cutout);
    let gray = decode_png(&png(
        1,
        1,
        png::ColorType::Grayscale,
        png::BitDepth::Eight,
        &[9],
    ))
    .unwrap();
    assert_eq!(gray.rgba, [9, 9, 9, 255]);
    let alpha = decode_gui_png(&png(
        1,
        1,
        png::ColorType::GrayscaleAlpha,
        png::BitDepth::Eight,
        &[9, 7],
    ))
    .unwrap();
    assert_eq!(alpha.rgba, [9, 9, 9, 7]);
    // Sixteen bits a sample are cut to eight.
    let deep = decode_png(&png(
        1,
        1,
        png::ColorType::Rgb,
        png::BitDepth::Sixteen,
        &[1, 99, 2, 99, 3, 99],
    ))
    .unwrap();
    assert_eq!(deep.rgba, [1, 2, 3, 255]);
}

#[test]
fn tall_images_are_strips_of_square_frames() {
    let mut pixels = vec![1; 2 * 2 * 4];
    pixels.extend(vec![255; 2 * 2 * 4]);
    let image = decode_png(&rgba_png(2, 4, &pixels)).unwrap();
    assert_eq!((image.width, image.height), (2, 2));
    assert_eq!(image.frames.len(), 2);
    assert_eq!(image.rgba, vec![1; 16]);
    assert_eq!(image.frames[1], vec![255; 16]);
    assert!(image.cutout);
    assert!(decode_png(&rgba_png(2, 3, &[0; 24])).is_err());
}

#[test]
fn frames_that_do_not_fit_their_size_are_refused() {
    let frame = |format: ColorFormat, pixels: usize| PngFrame {
        width: 2,
        height: 2,
        format,
        pixels: vec![0; pixels],
    };
    assert!(texture_from_frame(frame(ColorFormat::Rgba, 16)).is_ok());
    assert!(texture_from_frame(frame(ColorFormat::Indexed, 4)).is_err());
    assert!(sprite_from_frame(frame(ColorFormat::Rgb, 12)).is_ok());
    assert!(sprite_from_frame(frame(ColorFormat::Indexed, 4)).is_err());
    let header = |width: u32, height: u32, size: Option<usize>| PngHeader {
        width,
        height,
        size,
    };
    assert!(check_header(header(16, 16, Some(1024)), "texture", 4096, 4096).is_ok());
    assert!(check_header(header(4097, 16, Some(1024)), "texture", 4096, 4096).is_err());
    assert!(check_header(header(16, 16, None), "texture", 4096, 4096).is_err());
}

#[test]
fn the_missing_texture_is_a_chequer() {
    let image = missing_texture();
    assert_eq!((image.width, image.height, image.cutout), (16, 16, false));
    assert_eq!(image.rgba.len(), 16 * 16 * 4);
    assert_eq!(image.rgba[0..4], image.rgba[12..16]);
    assert_ne!(image.rgba[0..4], image.rgba[16..20]);
    assert_eq!(image.frames, vec![image.rgba.clone()]);
}

#[test]
fn atlas_preserves_asymmetric_top_and_bottom_rows() {
    let asymmetric = DecodedImage::static_frame(
        2,
        2,
        [
            255, 0, 0, 255, 255, 0, 0, 255, // top row
            0, 0, 255, 255, 0, 0, 255, 255, // bottom row
        ]
        .to_vec(),
        false,
    );
    let atlas = pack_atlas(&images(vec![
        ("cubic:missing", missing_texture()),
        ("minecraft:block/asymmetric", asymmetric),
    ]))
    .unwrap();
    let (min, max) = bounds(&atlas, atlas.region("minecraft:block/asymmetric"));
    let x = (min[0] * atlas.width as f32).round() as usize;
    let top = (min[1] * atlas.height as f32).round() as usize;
    let bottom = (max[1] * atlas.height as f32).round() as usize - 1;
    let pixel = |x: usize, y: usize| {
        let offset = (y * atlas.width as usize + x) * 4;
        &atlas.rgba[offset..offset + 4]
    };
    assert_eq!(pixel(x, top), [255, 0, 0, 255]);
    assert_eq!(pixel(x, bottom), [0, 0, 255, 255]);
}

#[test]
fn full_domain_atlas_uvs_give_every_texel_equal_width_and_duplicate_edges() {
    let mut pixels = Vec::with_capacity(16 * 16 * 4);
    for y in 0_u8..16 {
        for x in 0_u8..16 {
            pixels.extend_from_slice(&[x, y, x ^ y, 255]);
        }
    }
    let atlas = pack_atlas(&images(vec![
        ("cubic:missing", missing_texture()),
        (
            "minecraft:block/pixel_grid",
            DecodedImage::static_frame(16, 16, pixels, false),
        ),
    ]))
    .unwrap();
    let (min, max) = bounds(&atlas, atlas.region("minecraft:block/pixel_grid"));
    let span_x = (max[0] - min[0]) * atlas.width as f32;
    let span_y = (max[1] - min[1]) * atlas.height as f32;
    assert_eq!(span_x, 16.0);
    assert_eq!(span_y, 16.0);

    let sample_nearest = |u: f32, v: f32| {
        let x = (u * atlas.width as f32).floor() as usize;
        let y = (v * atlas.height as f32).floor() as usize;
        let offset = (y * atlas.width as usize + x) * 4;
        <[u8; 4]>::try_from(&atlas.rgba[offset..offset + 4]).unwrap()
    };
    for y in 0_u8..16 {
        for x in 0_u8..16 {
            let face_u = (f32::from(x) + 0.5) / 16.0;
            let face_v = (f32::from(y) + 0.5) / 16.0;
            let atlas_u = min[0] + (max[0] - min[0]) * face_u;
            let atlas_v = min[1] + (max[1] - min[1]) * face_v;
            assert_eq!(sample_nearest(atlas_u, atlas_v), [x, y, x ^ y, 255]);
        }
    }

    let px = (min[0] * atlas.width as f32).round() as usize;
    let py = (min[1] * atlas.height as f32).round() as usize;
    let pixel = |x: usize, y: usize| {
        let offset = (y * atlas.width as usize + x) * 4;
        <[u8; 4]>::try_from(&atlas.rgba[offset..offset + 4]).unwrap()
    };
    assert_eq!(pixel(px - 1, py), pixel(px, py));
    assert_eq!(pixel(px + 16, py), pixel(px + 15, py));
    assert_eq!(pixel(px, py - 1), pixel(px, py));
    assert_eq!(pixel(px, py + 16), pixel(px, py + 15));
    assert_eq!(pixel(px - 1, py - 1), pixel(px, py));
    assert_eq!(pixel(px + 16, py + 16), pixel(px + 15, py + 15));
}

#[test]
fn atlas_packing_is_deterministic_guttered_and_classifies_alpha() {
    let opaque = DecodedImage::static_frame(2, 2, vec![255; 16], false);
    let mut alpha = opaque.clone();
    alpha.cutout = true;
    alpha.rgba[3] = 0;
    let images = images(vec![
        ("minecraft:block/a", opaque),
        ("minecraft:block/b", alpha),
        ("cubic:missing", missing_texture()),
    ]);
    let first = pack_atlas(&images).unwrap();
    let second = pack_atlas(&images).unwrap();
    assert_eq!(first.rgba, second.rgba);
    let keys = |atlas: &TextureAtlasData| {
        atlas
            .regions
            .entries
            .iter()
            .map(|(name, _)| name.clone())
            .collect::<Vec<_>>()
    };
    assert_eq!(keys(&first), keys(&second));
    assert_eq!(first.region("minecraft:block/a").layer, RenderLayer::Opaque);
    assert_eq!(first.region("minecraft:block/b").layer, RenderLayer::Cutout);
    let (min, max) = bounds(&first, first.region("minecraft:block/a"));
    assert!(min[0] > 0.0 && max[0] < 1.0);
}

#[test]
fn malformed_and_oversized_pngs_are_rejected() {
    assert!(decode_png(b"not png").is_err());
    let oversized = DecodedImage::static_frame(MAX_ATLAS_SIDE, MAX_ATLAS_SIDE, vec![], false);
    assert!(pack_atlas(&images(vec![
        ("cubic:missing", missing_texture()),
        ("minecraft:block/huge", oversized),
    ]))
    .is_err());
}

#[test]
fn oversized_atlases_name_their_limit() {
    let oversized = DecodedImage::static_frame(MAX_ATLAS_SIDE, MAX_ATLAS_SIDE, vec![], false);
    let error = pack_atlas(&images(vec![("minecraft:block/huge", oversized)])).unwrap_err();
    assert!(matches!(
        error,
        BlockResourceError::AtlasTooLarge { maximum: MAX_ATLAS_SIDE }
    ));
    assert_eq!(
        error.message(),
        "texture atlas exceeds the 4096-pixel side limit"
    );
}

#[test]
fn unknown_textures_are_shown_as_the_missing_one() {
    let atlas = missing_atlas().unwrap();
    assert_eq!(atlas.exact_region("minecraft:block/unknown"), None);
    assert_eq!(
        atlas.region("minecraft:block/unknown"),
        atlas.region("cubic:missing")
    );
    assert_eq!(pixel_offset(2048, 3, 2), Some((2 * 2048 + 3) * 4));
}

#[test]
fn the_missing_atlas_shows_the_missing_texture_alone() {
    let atlas = missing_atlas().unwrap();
    let image = missing_texture();
    assert_eq!((atlas.width, atlas.height), (2048, 32));
    assert_eq!(atlas.rgba.len(), 2048 * 32 * 4);
    assert!(atlas.animations.is_empty());
    let at = |rgba: &[u8], width: usize, x: usize, y: usize| {
        let first = (y * width + x) * 4;
        [rgba[first], rgba[first + 1], rgba[first + 2], rgba[first + 3]]
    };
    for y in 0_usize..32 {
        for x in 0_usize..40 {
            let expected = if x < 18 && y < 18 {
                let inner = |place: usize| place.saturating_sub(1).min(15);
                at(&image.rgba, 16, inner(x), inner(y))
            } else {
                [0; 4]
            };
            assert_eq!(at(&atlas.rgba, 2048, x, y), expected);
        }
    }
}

#[test]
fn pixels_are_addressed_in_32_bits() {
    assert_eq!(pixel_offset(1, 0, 0x3fff_ffff), Some(4_294_967_292));
    assert_eq!(pixel_offset(1, 0, 0x4000_0000), None);
    assert_eq!(pixel_offset(0x1_0000, 0, 0x1_0000), None);
    assert_eq!(pixel_offset(u32::MAX, u32::MAX, 1), None);
    assert_eq!(pixel_offset(u32::MAX, 7, 0), Some(28));
}

#[test]
fn animated_textures_keep_their_frames_in_the_atlas() {
    let mut image = decode_png(&rgba_png(1, 2, &[1, 1, 1, 255, 2, 2, 2, 255])).unwrap();
    image.animation = decode_texture_metadata(
        Some(br#"{"animation":{"frametime":5}}"#),
        image.frames.len(),
        "minecraft:block/fire",
        "fire.png.mcmeta",
    )
    .unwrap();
    let atlas = pack_atlas(&images(vec![("minecraft:block/fire", image)])).unwrap();
    assert_eq!(atlas.animations.len(), 1);
    let region = atlas.region("minecraft:block/fire");
    assert_eq!(
        (atlas.animations[0].origin_x, atlas.animations[0].origin_y),
        (region.x, region.y)
    );
    assert_eq!(atlas.animations[0].frames.len(), 2);
    assert_eq!(
        atlas.animations[0].sequence,
        vec![
            AnimationStep { frame: 0, ticks: 5 },
            AnimationStep { frame: 1, ticks: 5 },
        ]
    );
}

#[test]
fn atlases_hold_the_textures_of_states_fluids_and_the_missing_one() {
    let mut water = StateModels::empty();
    water.fluid = Some(FluidState {
        kind: FluidKind::Water,
        level: 0,
        falling: false,
    });
    let names = atlas_textures(&vec![water], &vec!["minecraft:block/extra".to_owned()]);
    let names = names
        .entries
        .iter()
        .map(|(name, _)| name.as_str())
        .collect::<Vec<_>>();
    assert_eq!(
        names,
        [
            "cubic:missing",
            "minecraft:block/extra",
            "minecraft:block/water_flow",
            "minecraft:block/water_still",
        ]
    );
    let banners = banner_textures(&vec!["minecraft:rhombus".to_owned()]);
    assert!(banners
        .get("minecraft:entity/banner/banner_base")
        .is_some());
    assert!(banners.get("minecraft:entity/banner/rhombus").is_some());
}

#[test]
fn animation_metadata_supports_default_and_explicit_bounded_sequences() {
    let default = decode_texture_metadata(
        Some(br#"{"animation":{"frametime":2}}"#),
        3,
        "minecraft:block/test",
        "assets/minecraft/textures/block/test.png.mcmeta",
    )
    .expect("default animation")
    .expect("animation section");
    assert_eq!(
        default.sequence,
        vec![
            AnimationStep { frame: 0, ticks: 2 },
            AnimationStep { frame: 1, ticks: 2 },
            AnimationStep { frame: 2, ticks: 2 },
        ]
    );
    assert!(!default.interpolate);

    let explicit = decode_texture_metadata(
        Some(
            br#"{"animation":{"frametime":4,"interpolate":true,"frames":[2,{"index":0,"time":7},1]}}"#,
        ),
        3,
        "minecraft:block/test",
        "assets/minecraft/textures/block/test.png.mcmeta",
    )
    .expect("explicit animation")
    .expect("animation section");
    assert_eq!(
        explicit.sequence,
        vec![
            AnimationStep { frame: 2, ticks: 4 },
            AnimationStep { frame: 0, ticks: 7 },
            AnimationStep { frame: 1, ticks: 4 },
        ]
    );
    assert!(explicit.interpolate);
}

#[test]
fn texture_metadata_distinguishes_absent_unrelated_and_animation_sections() {
    let texture = "minecraft:block/test";
    let path = "assets/minecraft/textures/block/test.png.mcmeta";
    assert!(decode_texture_metadata(None, 2, texture, path)
        .expect("no metadata")
        .is_none());
    assert!(decode_texture_metadata(
        Some(br#"{"texture":{"mipmap_strategy":"dark_cutout"}}"#),
        2,
        texture,
        path,
    )
    .expect("texture-only metadata")
    .is_none());
    assert!(decode_texture_metadata(
        Some(br#"{"future_section":{"enabled":true}}"#),
        2,
        texture,
        path,
    )
    .expect("unknown unrelated metadata")
    .is_none());

    let combined = decode_texture_metadata(
        Some(br#"{"animation":{"frametime":3},"texture":{"mipmap_strategy":"dark_cutout"}}"#),
        2,
        texture,
        path,
    )
    .expect("combined metadata")
    .expect("animation section");
    assert_eq!(combined.sequence[0], AnimationStep { frame: 0, ticks: 3 });
}

#[test]
fn vanilla_dark_cutout_texture_metadata_is_static_not_malformed() {
    let metadata = br#"{
  "texture": {
    "mipmap_strategy": "dark_cutout"
  }
}"#;
    assert!(decode_texture_metadata(
        Some(metadata),
        1,
        "minecraft:block/acacia_leaves",
        "assets/minecraft/textures/block/acacia_leaves.png.mcmeta",
    )
    .expect("official texture-only metadata shape")
    .is_none());
}

#[test]
fn resource_texture_loading_accepts_missing_and_non_animation_metadata() {
    let texture_path = "assets/minecraft/textures/block/test.png";
    let metadata_path = "assets/minecraft/textures/block/test.png.mcmeta";
    let png = rgba_png(1, 1, &[10, 20, 30, 255]);

    let mut without_metadata = MemorySource::default();
    without_metadata.insert_bytes(texture_path, png.clone());
    let image = without_metadata
        .load_texture("minecraft:block/test")
        .expect("texture without metadata");
    assert!(image.animation.is_none());

    let mut texture_only = MemorySource::default();
    texture_only.insert_bytes(texture_path, png);
    texture_only.insert_bytes(
        metadata_path,
        br#"{"texture":{"mipmap_strategy":"dark_cutout"}}"#.to_vec(),
    );
    let image = texture_only
        .load_texture("minecraft:block/test")
        .expect("texture with unrelated metadata");
    assert!(image.animation.is_none());
}

#[test]
fn textures_that_cannot_be_read_are_shown_as_missing() {
    let source = MemorySource::default();
    let image = source.load_texture("minecraft:block/gone").unwrap();
    assert_eq!(image.rgba, missing_texture().rgba);
    assert!(matches!(
        source.load_texture("no texture"),
        Err(BlockResourceError::Identifier { .. })
    ));
}

#[test]
fn malformed_animation_metadata_is_rejected_before_atlas_use() {
    let texture = "minecraft:block/test";
    let path = "assets/minecraft/textures/block/test.png.mcmeta";
    for metadata in [
        br#"{"animation":{"frametime":0}}"#.as_slice(),
        br#"{"animation":{"frames":[3]}}"#.as_slice(),
        br#"{"animation":{"frames":[]}}"#.as_slice(),
        br#"{"animation":"invalid"}"#.as_slice(),
    ] {
        let error = decode_texture_metadata(Some(metadata), 2, texture, path)
            .expect_err("malformed animation must fail");
        let message = error.message();
        assert!(message.contains(texture));
        assert!(message.contains(path));
        assert!(message.contains("animation"));
    }
}

#[test]
fn metadata_that_is_no_document_is_refused_at_its_root() {
    for metadata in [b"{".as_slice(), b"[]".as_slice()] {
        let error = decode_texture_metadata(Some(metadata), 1, "t", "p").unwrap_err();
        assert!(matches!(
            error,
            BlockResourceError::TextureMetadata { section: "root", .. }
        ));
    }
}

fn metadata_reason(metadata: &str) -> (&'static str, String) {
    match decode_texture_metadata(Some(metadata.as_bytes()), 1, "t", "p").unwrap_err() {
        BlockResourceError::TextureMetadata {
            section, reason, ..
        } => (section, reason),
        other => panic!("unexpected error {other:?}"),
    }
}

#[test]
fn metadata_that_is_no_object_is_named_at_its_root() {
    let (section, reason) = metadata_reason("[]");
    assert_eq!(section, "root");
    assert!(reason.starts_with("invalid type: sequence, expected a map at line 1"));
    let (section, reason) = metadata_reason("{");
    assert_eq!(section, "root");
    assert!(reason.starts_with("EOF while parsing an object at line 1"));
}

#[test]
fn a_section_that_is_no_animation_is_described() {
    for (animation, expected) in [
        (
            r#""invalid""#,
            r#"invalid type: string "invalid", expected struct AnimationWire"#,
        ),
        ("3", "invalid type: integer `3`, expected struct AnimationWire"),
        ("null", "invalid type: null, expected struct AnimationWire"),
        (
            r#"{"frametime":-1}"#,
            "invalid value: integer `-1`, expected u32",
        ),
        (
            r#"{"frametime":4294967296}"#,
            "invalid value: integer `4294967296`, expected u32",
        ),
        (
            r#"{"frametime":1.5}"#,
            "invalid type: floating point `1.5`, expected u32",
        ),
        (
            r#"{"frametime":true}"#,
            "invalid type: boolean `true`, expected u32",
        ),
        (
            r#"{"interpolate":1}"#,
            "invalid type: integer `1`, expected a boolean",
        ),
        (
            r#"{"frames":{}}"#,
            "invalid type: map, expected a sequence",
        ),
        (
            r#"{"frames":[0,[0,5]]}"#,
            "data did not match any variant of untagged enum AnimationFrameWire",
        ),
        (
            r#"{"interpolate":"x","frames":3}"#,
            "invalid type: integer `3`, expected a sequence",
        ),
        (
            "[]",
            "invalid length 2, expected struct AnimationWire with 3 elements",
        ),
        (
            "[1,2]",
            "invalid type: integer `2`, expected a boolean",
        ),
        (
            "[1,false,null,4]",
            "invalid length 4, expected fewer elements in array",
        ),
    ] {
        let (section, reason) = metadata_reason(&format!(r#"{{"animation":{animation}}}"#));
        assert_eq!(section, "animation");
        assert_eq!(reason, expected);
    }
    let listed = decode_texture_metadata(Some(br#"{"animation":[7,true,null]}"#), 2, "t", "p")
        .unwrap()
        .unwrap();
    assert!(listed.interpolate);
    assert_eq!(listed.sequence.len(), 2);
    assert_eq!(listed.sequence[1].frame, 1);
    assert_eq!(listed.sequence[1].ticks, 7);
}

#[test]
fn animation_steps_are_bounded_in_time_and_number() {
    assert_eq!(default_frame_time(), 1);
    let wire = |frametime: u32, frames: usize| AnimationWire {
        frametime,
        interpolate: false,
        frames: Some(vec![
            AnimationFrameWire {
                index: 0,
                time: None
            };
            frames
        ]),
    };
    assert!(animation_from_section(&wire(72_000, 1024), 1, "t", "p").is_ok());
    assert!(animation_from_section(&wire(72_001, 1), 1, "t", "p").is_err());
    assert!(animation_from_section(&wire(1, 1025), 1, "t", "p").is_err());
}

fn translations(
    language: &str,
    deprecated: Option<Result<DeprecatedTranslations, String>>,
) -> BTreeMap<String, String> {
    load_inventory_translations(Some(language.as_bytes()), deprecated)
        .unwrap()
        .into_iter()
        .collect()
}

#[test]
fn deprecated_language_remaps_are_applied_before_inventory_filtering() {
    let translations = translations(
        r#"{
            "item.minecraft.old_removed":"Removed",
            "item.minecraft.old_name":"Runtime Name",
            "item.minecraft.new_name":"Stale Name",
            "item.minecraft.missing_destination":"Must Disappear",
            "item.minecraft.direct":"Direct Name"
        }"#,
        Some(Ok(DeprecatedTranslations {
            removed: vec!["item.minecraft.old_removed".to_owned()],
            renamed: vec![
                (
                    "item.minecraft.absent".to_owned(),
                    "item.minecraft.missing_destination".to_owned(),
                ),
                (
                    "item.minecraft.old_name".to_owned(),
                    "item.minecraft.new_name".to_owned(),
                ),
            ],
        })),
    );
    assert_eq!(
        translations
            .get("item.minecraft.new_name")
            .map(String::as_str),
        Some("Runtime Name")
    );
    assert_eq!(
        translations
            .get("item.minecraft.direct")
            .map(String::as_str),
        Some("Direct Name")
    );
    assert!(!translations.contains_key("item.minecraft.old_name"));
    assert!(!translations.contains_key("item.minecraft.old_removed"));
    assert!(!translations.contains_key("item.minecraft.missing_destination"));
}

#[test]
fn banner_pattern_names_match_the_final_26_1_2_runtime_table() {
    let renamed = [
        ("flower", "Flower Charge Banner Pattern"),
        ("creeper", "Creeper Charge Banner Pattern"),
        ("skull", "Skull Charge Banner Pattern"),
        ("mojang", "Thing Banner Pattern"),
        ("globe", "Globe Banner Pattern"),
        ("piglin", "Snout Banner Pattern"),
        ("flow", "Flow Banner Pattern"),
        ("guster", "Guster Banner Pattern"),
    ];
    let mut language = serde_json::Map::new();
    let mut remaps = BTreeMap::new();
    for (name, value) in renamed {
        let old = format!("item.minecraft.{name}_banner_pattern.new");
        let current = format!("item.minecraft.{name}_banner_pattern");
        language.insert(
            current.clone(),
            serde_json::Value::String("Banner Pattern".to_owned()),
        );
        language.insert(old.clone(), serde_json::Value::String(value.to_owned()));
        remaps.insert(old, current);
    }
    language.insert(
        "item.minecraft.field_masoned_banner_pattern".to_owned(),
        serde_json::Value::String("Field Masoned Banner Pattern".to_owned()),
    );
    language.insert(
        "item.minecraft.bordure_indented_banner_pattern".to_owned(),
        serde_json::Value::String("Bordure Indented Banner Pattern".to_owned()),
    );
    let translations = translations(
        &serde_json::Value::Object(language).to_string(),
        Some(Ok(DeprecatedTranslations {
            removed: vec![],
            renamed: remaps.into_iter().collect(),
        })),
    );
    for (name, value) in renamed {
        assert_eq!(
            translations
                .get(&format!("item.minecraft.{name}_banner_pattern"))
                .map(String::as_str),
            Some(value)
        );
    }
    assert_eq!(
        translations
            .get("item.minecraft.field_masoned_banner_pattern")
            .map(String::as_str),
        Some("Field Masoned Banner Pattern")
    );
    assert_eq!(
        translations
            .get("item.minecraft.bordure_indented_banner_pattern")
            .map(String::as_str),
        Some("Bordure Indented Banner Pattern")
    );
}

#[test]
fn only_the_texts_of_the_interface_are_kept() {
    let long = "x".repeat(257);
    let kept = translations(
        &format!(
            r#"{{"container.furnace":"Furnace","container.barrel":"Barrel","itemGroup.combat":"Combat","block.minecraft.stone":"Stone","item.minecraft.long":"{long}"}}"#
        ),
        None,
    );
    assert_eq!(
        kept.into_iter().collect::<Vec<_>>(),
        [
            ("block.minecraft.stone".to_owned(), "Stone".to_owned()),
            ("container.furnace".to_owned(), "Furnace".to_owned()),
            ("itemGroup.combat".to_owned(), "Combat".to_owned()),
        ]
    );
}

#[test]
fn unreadable_languages_are_reported_in_turn() {
    let message = |result: Result<Vec<(String, String)>, BlockResourceError>| {
        result.unwrap_err().message()
    };
    assert_eq!(
        message(load_inventory_translations(None, None)),
        "malformed language `minecraft:en_us`: resource is missing"
    );
    assert!(
        message(load_inventory_translations(
            Some(b"{"),
            Some(Err("bad list".to_owned()))
        ))
        .starts_with("malformed language `minecraft:en_us`: ")
    );
    assert_eq!(
        message(load_inventory_translations(
            Some(b"{}"),
            Some(Err("bad list".to_owned()))
        )),
        "malformed language `minecraft:deprecated`: bad list"
    );
}
