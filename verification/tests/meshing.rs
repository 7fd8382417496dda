//! Chunk meshes: which faces are drawn, how they are lit and tinted, and fluids.

use cubic_render::baking::fallback_state;
use cubic_render::clip::{clipped_side_faces, clipped_top_cells, SideFace, SideGrid};
use cubic_render::direction::{rotate_blockstate_direction, rotate_blockstate_vector, Direction};
use cubic_render::fluid::{
    fluid_corner_height, fluid_light_level, fluid_side_height_indices,
    fluid_side_outward_is_positive, fluid_surface_flow, fluid_surface_heights, fluid_texture,
    fluid_top_uses_flowing_texture, is_two_sided, same_fluid, weighted_fluid_height, FluidCell, FluidSide,
    SurfaceHeight, FLUID_FACE_EPSILON,
};
use cubic_render::fluid_debug::{
    cells_to_log, debug_fluid_layer, indices_are_own, material_layer, side_decision, side_index,
    FluidDebugOptions, FluidSideDecision, MAX_FLUID_DEBUG_CELLS_PER_MESH,
};
use cubic_render::grid::{
    block_at, sample_light, Chunk, ChunkCoordinate, ChunkMap, ChunkSection, DimensionGeometry,
    LightLevels, PalettedContainer, RuntimeBlockStateId,
};
use cubic_render::mesher::{ChunkMesh, FluidQuad, MeshError};
use cubic_render::offset::{model_offset, ModelShift};
use cubic_render::prepared::is_full_cube;
use cubic_render::resources::{
    ClimateColors, FluidKind, FluidState, GrassColorModifier, ModelApplication, ModelOffset,
    RenderLayer, RuntimeBiome, StateModels, StateTable, TintKind, WeightedApplications,
};
use cubic_render::selection::{select_model, select_models, shows_opaque_face};
use cubic_render::shading::{
    ambient_occlusion_level, grass_color, is_occluding, neighbor_fully_occludes, tint_at,
    vertex_ambient_occlusion, vertex_face_light, MeshContext,
};
use cubic_render::statistics::{CpuTime, MeshStatistics};
use cubic_render::traversal::{fluid_cells, mesh_chunk};
use cubic_render::variant_random::{model_position_seed, position_noise, ModelVariantRandom};

const FLAT: DimensionGeometry = DimensionGeometry {
    min_y: 0,
    height: 16,
};

const HORIZONTAL: [(Direction, [i32; 2]); 4] = [
    (Direction::North, [0, -1]),
    (Direction::South, [0, 1]),
    (Direction::West, [-1, 0]),
    (Direction::East, [1, 0]),
];

/// What a mesh is made from, but for the chunks.
struct Resources {
    states: StateTable,
    biomes: Vec<RuntimeBiome>,
    climate: ClimateColors,
}

impl Resources {
    fn synthetic(air: &[usize]) -> Self {
        let mut states = vec![None; air.iter().max().map_or(0, |maximum| maximum + 1)];
        for state in air {
            states[*state] = Some(StateModels::empty());
        }
        Self {
            states: StateTable {
                states,
                fallback: fallback_state(0, 0),
            },
            biomes: vec![],
            climate: ClimateColors {
                grass: vec![0x7fb238; 256 * 256],
                foliage: vec![0x48b518; 256 * 256],
                dry_foliage: vec![0x9e814d; 256 * 256],
            },
        }
    }

    fn with(mut self, state: usize, models: StateModels) -> Self {
        if self.states.states.len() <= state {
            self.states.states.resize_with(state + 1, || None);
        }
        self.states.states[state] = Some(models);
        self
    }

    fn synthetic_non_full(air: &[usize], state: usize) -> Self {
        let mut models = fallback_state(0, 0);
        models.full_opaque_cube = false;
        Self::synthetic(air).with(state, models)
    }

    fn with_layer(self, state: usize, layer: RenderLayer) -> Self {
        let mut models = fallback_state(0, 0);
        models.full_opaque_cube = false;
        for part in &mut models.parts {
            for (_, model) in &mut part.entries {
                for face in &mut model.faces {
                    face.render_layer = layer;
                }
            }
        }
        self.with(state, models)
    }

    fn synthetic_fluids(fluids: &[(usize, FluidState)]) -> Self {
        let mut resources = Self::synthetic(&[0]);
        for (state, fluid) in fluids {
            let mut models = StateModels::empty();
            models.fluid = Some(*fluid);
            resources = resources.with(*state, models);
        }
        resources
    }

    fn context<'a>(&'a self, chunks: &'a ChunkMap, geometry: DimensionGeometry) -> MeshContext<'a> {
        MeshContext {
            chunks,
            geometry,
            states: &self.states,
            biomes: &self.biomes,
            climate: &self.climate,
        }
    }
}

fn fluid(kind: FluidKind, level: u8, falling: bool) -> FluidState {
    FluidState {
        kind,
        level,
        falling,
    }
}

fn dark() -> LightLevels {
    LightLevels { sections: vec![] }
}

fn chunk_with_biome(coordinate: ChunkCoordinate, states: Vec<u32>, biome: u32) -> Chunk {
    Chunk {
        coordinate,
        sections: vec![ChunkSection {
            non_empty_block_count: states.iter().filter(|state| **state != 0).count() as u16,
            blocks: PalettedContainer::Direct { values: states },
            biomes: PalettedContainer::Single {
                value: biome,
                entries: 64,
            },
        }],
        sky_light: dark(),
        block_light: dark(),
    }
}

fn chunk(coordinate: ChunkCoordinate, states: Vec<u32>) -> Chunk {
    chunk_with_biome(coordinate, states, 0)
}

fn only(coordinate: ChunkCoordinate, states: Vec<u32>) -> ChunkMap {
    ChunkMap {
        chunks: vec![chunk(coordinate, states)],
    }
}

fn index(x: usize, y: usize, z: usize) -> usize {
    y * 256 + z * 16 + x
}

fn at_origin(blocks: &[((usize, usize, usize), u32)]) -> ChunkMap {
    let mut states = vec![0; 4096];
    for ((x, y, z), state) in blocks {
        states[index(*x, *y, *z)] = *state;
    }
    only(ChunkCoordinate::new(0, 0), states)
}

/// The faces of fluid cells that nothing clips: the top, the open sides, the bottom.
fn unclipped(cells: &[FluidCell]) -> Vec<Vec<FluidQuad>> {
    let mut geometry = 0;
    let mut quad = |direction: Direction| {
        geometry += 1;
        FluidQuad {
            geometry,
            direction,
            clipped: false,
        }
    };
    cells
        .iter()
        .map(|cell| {
            let mut quads = Vec::new();
            if cell.top {
                quads.push(quad(Direction::Up));
            }
            for (side, direction) in [
                (&cell.north, Direction::North),
                (&cell.south, Direction::South),
                (&cell.west, Direction::West),
                (&cell.east, Direction::East),
            ] {
                if matches!(side, FluidSide::Open { .. }) {
                    quads.push(quad(direction));
                }
            }
            if cell.bottom {
                quads.push(quad(Direction::Down));
            }
            quads
        })
        .collect()
}

fn mesh(
    resources: &Resources,
    chunks: &ChunkMap,
    coordinate: ChunkCoordinate,
    geometry: DimensionGeometry,
) -> Result<ChunkMesh, MeshError> {
    let context = resources.context(chunks, geometry);
    let cells = fluid_cells(context, coordinate);
    mesh_chunk(context, coordinate, &unclipped(&cells))
}

/// The corners of a face of the cube that stands for what has no model.
fn corners(resources: &Resources, geometry: usize) -> [[bool; 3]; 4] {
    resources.states.fallback.parts[0].entries[0]
        .1
        .faces
        .iter()
        .find(|face| face.geometry == geometry)
        .unwrap()
        .shape
        .upper
}

fn positions(resources: &Resources, mesh: &ChunkMesh) -> Vec<[f32; 3]> {
    mesh.quads
        .iter()
        .flat_map(|quad| {
            corners(resources, quad.geometry).map(|upper| {
                [
                    quad.x as f32 + f32::from(u8::from(upper[0])),
                    quad.y as f32 + f32::from(u8::from(upper[1])),
                    quad.z as f32 + f32::from(u8::from(upper[2])),
                ]
            })
        })
        .collect()
}

#[test]
fn isolated_block_emits_six_faces_and_air_emits_none() {
    let mut states = vec![0; 4096];
    states[0] = 7;
    let coord = ChunkCoordinate::new(0, 0);
    let resources = Resources::synthetic(&[0]);
    let mesh = mesh(&resources, &only(coord, states), coord, FLAT).unwrap();
    assert_eq!(mesh.indices.len(), 36);
    let positions = positions(&resources, &mesh);
    for axis in 0..3 {
        let minimum = positions
            .iter()
            .map(|position| position[axis])
            .fold(f32::INFINITY, f32::min);
        let maximum = positions
            .iter()
            .map(|position| position[axis])
            .fold(f32::NEG_INFINITY, f32::max);
        assert_eq!((minimum, maximum), (0.0, 1.0));
    }
    let empty = only(coord, vec![0; 4096]);
    assert!(self::mesh(&resources, &empty, coord, FLAT)
        .unwrap()
        .indices
        .is_empty());
}

#[test]
fn quads_are_drawn_as_two_triangles_each() {
    let chunks = at_origin(&[((0, 0, 0), 7)]);
    let resources = Resources::synthetic(&[0]);
    let mesh = mesh(&resources, &chunks, ChunkCoordinate::new(0, 0), FLAT).unwrap();
    assert_eq!(mesh.quads.len(), 6);
    for quad in 0..6_u32 {
        let base = quad * 4;
        let start = quad as usize * 6;
        assert_eq!(
            &mesh.indices[start..start + 6],
            &[base, base + 1, base + 2, base, base + 2, base + 3]
        );
        assert!(indices_are_own(&mesh.indices[start..start + 6], base));
    }
    assert!(!indices_are_own(&mesh.indices[0..6], 4));
}

fn biome(raw_id: u32, water_color: u32) -> RuntimeBiome {
    RuntimeBiome {
        raw_id,
        climate_column: 127,
        climate_row: 191,
        water_color,
        foliage_color: None,
        dry_foliage_color: None,
        grass_color: None,
        grass_color_modifier: GrassColorModifier::Unmodified,
    }
}

fn rgb(color: u32) -> [f32; 3] {
    [16, 8, 0].map(|shift| ((color >> shift) & 0xff) as f32 / 255.0)
}

#[test]
fn biome_water_tint_blends_across_chunk_boundaries_and_negative_coordinates() {
    let states = vec![0; 4096];
    let left = ChunkCoordinate::new(-1, 0);
    let right = ChunkCoordinate::new(0, 0);
    let chunks = ChunkMap {
        chunks: vec![
            chunk_with_biome(left, states.clone(), 0),
            chunk_with_biome(right, states, 1),
        ],
    };
    let mut resources = Resources::synthetic(&[0]);
    resources.biomes = vec![biome(0, 0xff0000), biome(1, 0x0000ff)];
    let tint = rgb(tint_at(
        resources.context(&chunks, FLAT),
        TintKind::Water,
        -1,
        0,
        8,
    ));
    assert!((tint[0] - (153.0 / 255.0)).abs() < 0.001);
    assert_eq!(tint[1], 0.0);
    assert!((tint[2] - (102.0 / 255.0)).abs() < 0.001);
    let nothing = ChunkMap { chunks: vec![] };
    let bare = Resources::synthetic(&[]);
    assert_eq!(
        rgb(tint_at(
            bare.context(&nothing, FLAT),
            TintKind::Untinted,
            -17,
            0,
            -1,
        )),
        [1.0; 3]
    );
}

#[test]
fn grass_takes_its_colour_from_the_climate_and_the_biome() {
    let resources = Resources::synthetic(&[0]);
    let plain = biome(0, 0);
    assert_eq!(grass_color(&resources.climate, &plain, 0, 0), 0x7fb238);
    let own = RuntimeBiome {
        grass_color: Some(0x12_34_56),
        ..plain
    };
    assert_eq!(grass_color(&resources.climate, &own, 0, 0), 0x12_34_56);
    let dark_forest = RuntimeBiome {
        grass_color_modifier: GrassColorModifier::DarkForest,
        ..plain
    };
    assert_eq!(
        grass_color(&resources.climate, &dark_forest, 0, 0),
        ((0x7fb238 & 0xfe_fe_fe) + 0x28_3e_16) / 2
    );
}

#[test]
fn layered_translucent_models_use_the_separate_non_depth_writing_batch() {
    let resources = Resources::synthetic(&[0]).with_layer(7, RenderLayer::LayeredTranslucent);
    let chunks = at_origin(&[((0, 0, 0), 7)]);
    let mesh = mesh(&resources, &chunks, ChunkCoordinate::new(0, 0), FLAT).unwrap();

    assert!(mesh.indices.is_empty());
    assert!(mesh.translucent_indices.is_empty());
    assert_eq!(mesh.layered_translucent_indices.len(), 36);
    assert!(mesh
        .quads
        .iter()
        .all(|quad| material_layer(quad.render_layer) == 2));
}

#[test]
fn adjacent_blocks_and_chunk_neighbors_cull_shared_faces() {
    let mut left = vec![0; 4096];
    left[15] = 1;
    let mut right = vec![0; 4096];
    right[0] = 1;
    let a = ChunkCoordinate::new(0, 0);
    let b = ChunkCoordinate::new(1, 0);
    let chunks = ChunkMap {
        chunks: vec![chunk(a, left), chunk(b, right)],
    };
    let mesh = mesh(
        &Resources::synthetic(&[0]),
        &chunks,
        a,
        DimensionGeometry {
            min_y: -16,
            height: 16,
        },
    )
    .unwrap();
    assert_eq!(mesh.indices.len(), 30);
}

#[test]
fn unknown_states_are_renderable_and_bad_geometry_is_rejected() {
    let coord = ChunkCoordinate::new(0, 0);
    let chunks = only(coord, vec![99; 4096]);
    assert!(mesh(
        &Resources::synthetic(&[]),
        &chunks,
        coord,
        DimensionGeometry {
            min_y: 0,
            height: 32
        },
    )
    .is_err());
}

#[test]
fn chunks_with_the_wrong_number_of_sections_are_refused() {
    let coord = ChunkCoordinate::new(0, 0);
    let result = mesh(
        &Resources::synthetic(&[]),
        &only(coord, vec![99; 4096]),
        coord,
        DimensionGeometry {
            min_y: 0,
            height: 32,
        },
    );
    assert_eq!(
        result.unwrap_err(),
        MeshError::SectionCount {
            actual: 1,
            expected: 2
        }
    );
}

#[test]
fn faces_at_negative_chunk_coordinates_stay_in_their_block() {
    let mut states = vec![0; 4096];
    states[0] = 7;
    let coordinate = ChunkCoordinate::new(-1, -1);
    let resources = Resources::synthetic(&[0]);
    let mesh = mesh(&resources, &only(coordinate, states), coordinate, FLAT).unwrap();
    assert_eq!(mesh.indices.len(), 36);
    assert!(positions(&resources, &mesh)
        .iter()
        .all(|position| position[0] <= -15.0 && position[2] <= -15.0));
}

fn application(x_rotation: u16, y_rotation: u16) -> ModelApplication {
    ModelApplication {
        faces: vec![],
        boxes: 0,
        x_rotation,
        y_rotation,
        uvlock: false,
        ambient_occlusion: true,
    }
}

/// A corner of a cell, turned about the middle of the cell.
fn rotate_blockstate_corner(corner: [f32; 3], x: u16, y: u16) -> [f32; 3] {
    rotate_blockstate_vector(corner.map(|axis| (axis * 2.0 - 1.0) as i8), x, y)
        .map(|axis| (f32::from(axis) + 1.0) / 2.0)
}

#[test]
fn netherrack_style_variant_selection_matches_vanilla_position_vectors() {
    let variants = WeightedApplications {
        entries: (0_u16..16)
            .map(|index| (1, application((index % 4) * 90, (index / 4) * 90)))
            .collect(),
        total_weight: 16,
    };
    let vectors = [
        ((0, 0, 0), (270, 180)),
        ((1, 0, 0), (90, 0)),
        ((0, 1, 0), (270, 180)),
        ((0, 0, 1), (270, 90)),
        ((-17, 64, 31), (270, 270)),
        ((123, -64, -456), (180, 0)),
    ];
    for ((x, y, z), expected) in vectors {
        let mut first_random = ModelVariantRandom::at_position(x, y, z);
        let first = select_model(&variants, &mut first_random).unwrap();
        let first = &variants.entries[first].1;
        assert_eq!((first.x_rotation, first.y_rotation), expected);

        let mut repeated_random = ModelVariantRandom::at_position(x, y, z);
        let repeated = select_model(&variants, &mut repeated_random).unwrap();
        let repeated = &variants.entries[repeated].1;
        assert_eq!(
            (repeated.x_rotation, repeated.y_rotation),
            expected,
            "same state model and coordinate must choose identically"
        );
    }

    assert_eq!(model_position_seed(1, 64, 1), 50_782_340_185_060);
    assert_eq!(model_position_seed(-1, 64, -1), 50_782_340_185_060);
    assert_eq!(
        rotate_blockstate_corner([1.0, 0.0, 0.0], 0, 90),
        [1.0, 0.0, 1.0]
    );
    assert_eq!(
        rotate_blockstate_direction(Direction::North, 0, 90),
        Direction::East
    );
}

#[test]
fn weighted_ranges_and_group_draw_sequence_match_vanilla() {
    let weighted = WeightedApplications {
        entries: vec![
            (1, application(0, 0)),
            (3, application(0, 90)),
            (6, application(0, 180)),
        ],
        total_weight: 10,
    };
    let chosen = |part: &WeightedApplications, random: &mut ModelVariantRandom| {
        part.entries[select_model(part, random).unwrap()].1.y_rotation
    };
    for ((x, y, z), expected) in [
        ((0, 0, 0), 0),
        ((1, 0, 0), 90),
        ((0, 1, 0), 180),
        ((-17, 64, 31), 180),
    ] {
        let mut random = ModelVariantRandom::at_position(x, y, z);
        assert_eq!(chosen(&weighted, &mut random), expected);
    }

    let single = WeightedApplications {
        entries: vec![(1, application(0, 0))],
        total_weight: 1,
    };
    let sixteen = WeightedApplications {
        entries: (0_u16..16).map(|index| (1, application(0, index))).collect(),
        total_weight: 16,
    };
    let mut random = ModelVariantRandom::at_position(0, 0, 0);
    assert_eq!(chosen(&single, &mut random), 0);
    assert_eq!(chosen(&sixteen, &mut random), 13);
}

#[test]
fn numbers_are_drawn_below_their_bound() {
    let mut random = ModelVariantRandom::at_position(5, 6, 7);
    assert_eq!(random.next_int(0), None);
    for bound in [1, 3, 16, 100] {
        for _ in 0..50 {
            assert!(random.next_int(bound).unwrap() < bound);
        }
    }
    // A vertical neighbour sees the same noise.
    assert_eq!(position_noise(3, 7), position_noise(3, 7));
    let nothing = WeightedApplications {
        entries: vec![],
        total_weight: 0,
    };
    assert_eq!(select_model(&nothing, &mut random), None);
}

#[test]
fn dense_opaque_chunk_fast_rejects_buried_blocks_and_reports_bounded_statistics() {
    let coordinate = ChunkCoordinate::new(0, 0);
    let section = ChunkSection {
        non_empty_block_count: 4096,
        blocks: PalettedContainer::Single {
            value: 1,
            entries: 4096,
        },
        biomes: PalettedContainer::Single {
            value: 0,
            entries: 64,
        },
    };
    let chunks = ChunkMap {
        chunks: vec![Chunk {
            coordinate,
            sections: vec![section; 24],
            sky_light: dark(),
            block_light: dark(),
        }],
    };
    let mesh = mesh(
        &Resources::synthetic(&[0]),
        &chunks,
        coordinate,
        DimensionGeometry {
            min_y: -64,
            height: 384,
        },
    )
    .unwrap();
    assert_eq!(mesh.statistics.positions_visited, 98_304);
    assert_eq!(mesh.statistics.air_skipped, 0);
    assert_eq!(mesh.statistics.non_air_blocks, 98_304);
    assert_eq!(mesh.statistics.fully_occluded_fast_rejected, 74_872);
    assert_eq!(mesh.statistics.model_processed, 23_432);
    assert_eq!(mesh.statistics.geometry_emitting, 23_432);
    assert_eq!(mesh.statistics.quads_emitted, 25_088);
    // Each quad is four vertices.
    assert_eq!(mesh.quads.len() * 4, 25_088 * 4);
    assert_eq!(mesh.indices.len(), 25_088 * 6);
}

#[test]
fn non_full_models_never_take_the_opaque_full_cube_shortcut() {
    let mut states = vec![0; 4096];
    for y in 1_u8..=3 {
        for z in 1_u8..=3 {
            for x in 1_u8..=3 {
                let index = usize::from(y) * 256 + usize::from(z) * 16 + usize::from(x);
                states[index] = 2;
            }
        }
    }
    let coordinate = ChunkCoordinate::new(0, 0);
    let mesh = mesh(
        &Resources::synthetic_non_full(&[0], 2),
        &only(coordinate, states),
        coordinate,
        FLAT,
    )
    .unwrap();
    assert_eq!(mesh.statistics.non_air_blocks, 27);
    assert_eq!(mesh.statistics.fully_occluded_fast_rejected, 0);
    assert_eq!(mesh.statistics.model_processed, 27);
    assert_eq!(
        mesh.statistics.positions_visited,
        mesh.statistics.air_skipped + 27
    );
    assert!(mesh.statistics.geometry_emitting <= 27);
    assert_eq!(mesh.statistics.quads_emitted, mesh.quads.len() as u64);
}

#[test]
fn mesh_statistics_accumulate_without_overflow() {
    let mut aggregate = MeshStatistics {
        positions_visited: u64::MAX,
        air_skipped: u64::MAX,
        cpu_time: CpuTime::maximum(),
        ..MeshStatistics::new()
    };
    aggregate.accumulate(MeshStatistics {
        positions_visited: 1,
        air_skipped: 1,
        non_air_blocks: 2,
        cpu_time: CpuTime::new(1, 0),
        ..MeshStatistics::new()
    });
    assert_eq!(aggregate.positions_visited, u64::MAX);
    assert_eq!(aggregate.air_skipped, u64::MAX);
    assert_eq!(aggregate.non_air_blocks, 2);
    assert_eq!(aggregate.cpu_time, CpuTime::maximum());
}

#[test]
fn parts_draw_one_after_another_from_one_generator() {
    let part = |weight: u32, count: u16| WeightedApplications {
        entries: (0..count).map(|index| (weight, application(0, index))).collect(),
        total_weight: weight * u32::from(count),
    };
    let parts = vec![part(1, 16), part(0, 3), part(2, 5)];
    let mut together = ModelVariantRandom::at_position(3, -4, 5);
    let mut apart = together;
    let models = select_models(&parts, &mut together);
    let first = select_model(&parts[0], &mut apart).unwrap();
    assert_eq!(select_model(&parts[1], &mut apart), None);
    let last = select_model(&parts[2], &mut apart).unwrap();
    assert_eq!(together, apart);
    assert_eq!(
        models.iter().map(|model| model.y_rotation).collect::<Vec<_>>(),
        [
            parts[0].entries[first].1.y_rotation,
            parts[2].entries[last].1.y_rotation
        ]
    );
}

#[test]
fn only_the_sides_of_fluids_are_seen_from_both_sides() {
    for (direction, expected) in [
        (Direction::Up, false),
        (Direction::Down, false),
        (Direction::North, true),
        (Direction::South, true),
        (Direction::West, true),
        (Direction::East, true),
    ] {
        assert_eq!(is_two_sided(direction), expected);
    }
}

#[test]
fn times_are_added_and_compared_to_the_nanosecond() {
    let sum = CpuTime::new(1, 600_000_000).saturating_add(CpuTime::new(2, 500_000_000));
    assert_eq!(sum, CpuTime::new(4, 100_000_000));
    assert_eq!(
        CpuTime::new(1, 5).longer(CpuTime::new(1, 4)),
        CpuTime::new(1, 5)
    );
}

#[test]
fn smooth_vertex_ambient_occlusion_darkens_bounded_corner_neighbours() {
    let factor = |first: bool, second: bool, corner: bool| {
        let level = ambient_occlusion_level(first, second, corner);
        if level == 3 {
            0.55
        } else {
            1.0 - 0.15 * f32::from(level)
        }
    };
    assert_eq!(factor(false, false, false), 1.0);
    assert!((factor(true, false, false) - 0.85).abs() < 0.001);
    assert!((factor(true, false, true) - 0.70).abs() < 0.001);
    assert_eq!(factor(true, true, false), 0.55);
    assert_eq!(factor(true, true, true), 0.55);
}

#[test]
fn corners_are_shaded_and_lit_by_the_blocks_around_them() {
    let chunks = at_origin(&[((8, 1, 8), 1), ((9, 2, 8), 1)]);
    let resources = Resources::synthetic(&[0]);
    let context = resources.context(&chunks, FLAT);
    // The block beside the top face shades the corners on its side alone.
    assert_eq!(
        vertex_ambient_occlusion(context, 8, 1, 8, Direction::Up, [true, true, true]),
        1
    );
    assert_eq!(
        vertex_ambient_occlusion(context, 8, 1, 8, Direction::Up, [false, true, true]),
        0
    );
    assert!(is_occluding(context, 8, 1, 8));
    assert!(!is_occluding(context, 7, 1, 8));
    assert!(!neighbor_fully_occludes(context, 8, 1, 8, Direction::Up));
    let mut lit = at_origin(&[((8, 1, 8), 1)]);
    lit.chunks[0].sky_light = LightLevels {
        sections: vec![None, Some(vec![0xff; 2048])],
    };
    let context = resources.context(&lit, FLAT);
    assert_eq!(sample_light(&lit, FLAT, 8, 2, 8), 15);
    assert_eq!(
        vertex_face_light(context, 8, 1, 8, Direction::Up, [true, true, true]),
        15
    );
    assert_eq!(
        block_at(&lit, FLAT, 8, 1, 8),
        Some(RuntimeBlockStateId(1))
    );
    assert_eq!(block_at(&lit, FLAT, 8, 16, 8), None);
}

#[test]
fn a_face_that_fills_its_side_hides_what_is_behind_it() {
    let models = fallback_state(0, 0);
    let model = &models.parts[0].entries[0].1;
    assert!(shows_opaque_face(model, Direction::North));
    let mut open = models.clone();
    open.parts[0].entries[0].1.faces[2].render_layer = RenderLayer::Translucent;
    assert!(!shows_opaque_face(
        &open.parts[0].entries[0].1,
        Direction::North
    ));
}

#[test]
fn vanilla_model_offsets_are_deterministic_and_xyz_never_raises_vegetation() {
    let offset = |kind: ModelOffset, x: i32, z: i32| {
        let ModelShift {
            x_sixtieths,
            y_seventy_fifths,
            z_sixtieths,
        } = model_offset(kind, x, z);
        [
            x_sixtieths as f32 / 60.0,
            y_seventy_fifths as f32 / 75.0,
            z_sixtieths as f32 / 60.0,
        ]
    };
    for (x, z) in [(3, 7), (-3, -7), (-17, 31), (0, 0)] {
        let first = offset(ModelOffset::Xyz, x, z);
        assert_eq!(first, offset(ModelOffset::Xyz, x, z));
        assert!((-0.25..=0.25).contains(&first[0]));
        assert!((-0.2..=0.0).contains(&first[1]));
        assert!((-0.25..=0.25).contains(&first[2]));
        let xz = offset(ModelOffset::Xz, x, z);
        assert_eq!(xz[1], 0.0);
        assert_eq!([xz[0], xz[2]], [first[0], first[2]]);
    }
    assert_ne!(
        offset(ModelOffset::Xyz, 3, 7),
        offset(ModelOffset::Xyz, 4, 7)
    );
}

#[test]
fn encoded_domain_terrain_composition_matches_vanilla_rgba8_multiplication() {
    fn srgb_to_linear(value: f32) -> f32 {
        if value <= 0.04045 {
            value / 12.92
        } else {
            ((value + 0.055) / 1.055).powf(2.4)
        }
    }
    fn linear_to_srgb(value: f32) -> f32 {
        if value <= 0.003_130_8 {
            value * 12.92
        } else {
            1.055 * value.powf(1.0 / 2.4) - 0.055
        }
    }
    for (texture_code, tint_code) in [(0.5, 0.5), (0.8, 0.7), (0.2, 1.0)] {
        let sampled_linear = srgb_to_linear(texture_code);
        let shader_linear = srgb_to_linear(linear_to_srgb(sampled_linear) * tint_code);
        let presented_code = linear_to_srgb(shader_linear);
        assert!((presented_code - texture_code * tint_code).abs() < 1.0e-5);
    }
}

// Fluids.

fn height(value: SurfaceHeight) -> f64 {
    f64::from(value.numerator) / f64::from(value.denominator)
}

fn heights(
    values: (SurfaceHeight, SurfaceHeight, SurfaceHeight, SurfaceHeight),
) -> [f64; 4] {
    [values.0, values.1, values.2, values.3].map(height)
}

fn direction_of(flow: (i32, i32)) -> [f64; 2] {
    let (x, z) = (f64::from(flow.0), f64::from(flow.1));
    let length = x.hypot(z);
    if length == 0.0 {
        [0.0, 0.0]
    } else {
        [x / length, z / length]
    }
}

#[test]
fn fluid_faces_are_inset_from_coplanar_block_boundaries() {
    let epsilon = FLUID_FACE_EPSILON as f32 / 1000.0;
    for coordinate in [epsilon, 1.0 - epsilon, 8.0 / 9.0 - epsilon] {
        assert_ne!(coordinate, 0.0);
        assert_ne!(coordinate, 1.0);
    }
}

#[test]
fn fluid_side_top_edges_use_the_physical_corner_order_for_every_axis() {
    assert_eq!(fluid_side_height_indices(Direction::North), [0, 3]);
    assert_eq!(fluid_side_height_indices(Direction::South), [1, 2]);
    assert_eq!(fluid_side_height_indices(Direction::West), [0, 1]);
    assert_eq!(fluid_side_height_indices(Direction::East), [2, 3]);
    let heights = [0.1, 0.2, 0.3, 0.4];
    for (direction, expected) in [
        (Direction::North, [0.1, 0.4]),
        (Direction::South, [0.2, 0.3]),
        (Direction::West, [0.1, 0.2]),
        (Direction::East, [0.3, 0.4]),
    ] {
        let [left, right] = fluid_side_height_indices(direction);
        assert_eq!([heights[left], heights[right]], expected);
    }
}

#[test]
fn isolated_fluids_draw_their_top_their_sides_from_both_sides_and_their_bottom() {
    let resources = Resources::synthetic_fluids(&[(7, fluid(FluidKind::Water, 0, false))]);
    let coordinate = ChunkCoordinate::new(0, 0);
    let chunks = at_origin(&[((0, 0, 0), 7)]);
    let alone = mesh(&resources, &chunks, coordinate, FLAT).unwrap();
    assert!(alone.indices.is_empty());
    assert_eq!(alone.translucent_indices.len(), 60);
    for side in 0..4_usize {
        let indices = &alone.translucent_indices[6 + side * 12..18 + side * 12];
        let base = 4 + side as u32 * 4;
        assert_eq!(
            indices,
            &[
                base,
                base + 1,
                base + 2,
                base,
                base + 2,
                base + 3,
                base + 3,
                base + 2,
                base + 1,
                base + 3,
                base + 1,
                base,
            ]
        );
    }
    let cells = fluid_cells(resources.context(&chunks, FLAT), coordinate);
    let top = heights(cells[0].heights)
        .into_iter()
        .fold(f64::NEG_INFINITY, f64::max);
    assert!((top - (80.0 / 108.0)).abs() < 0.001);

    let adjacent = at_origin(&[((0, 0, 0), 7), ((1, 0, 0), 7)]);
    let pair = mesh(&resources, &adjacent, coordinate, FLAT).unwrap();
    assert_eq!(pair.translucent_indices.len(), 96);
}

#[test]
fn fluid_side_visibility_matrix_covers_every_horizontal_direction() {
    let base_resources = Resources::synthetic_fluids(&[(7, fluid(FluidKind::Water, 0, false))]);
    let transparent_resources =
        Resources::synthetic_fluids(&[(7, fluid(FluidKind::Water, 0, false))])
            .with_layer(9, RenderLayer::Translucent);
    let coordinate = ChunkCoordinate::new(0, 0);
    let contains_side = |resources: &Resources, chunks: &ChunkMap, direction: Direction| {
        let cells = fluid_cells(resources.context(chunks, FLAT), coordinate);
        let cell = cells
            .iter()
            .find(|cell| (cell.x, cell.y, cell.z) == (8, 1, 8))
            .unwrap();
        let side = match direction {
            Direction::North => &cell.north,
            Direction::South => &cell.south,
            Direction::West => &cell.west,
            _ => &cell.east,
        };
        matches!(side, FluidSide::Open { .. })
    };

    for (direction, [dx, dz]) in HORIZONTAL {
        let neighbor = (
            usize::try_from(8 + dx).unwrap(),
            1,
            usize::try_from(8 + dz).unwrap(),
        );
        let exposed = at_origin(&[((8, 1, 8), 7)]);
        assert!(contains_side(&base_resources, &exposed, direction));

        let same_fluid_chunks = at_origin(&[((8, 1, 8), 7), (neighbor, 7)]);
        assert!(!contains_side(&base_resources, &same_fluid_chunks, direction));

        let wall_chunks = at_origin(&[((8, 1, 8), 7), (neighbor, 9)]);
        assert!(!contains_side(&base_resources, &wall_chunks, direction));
        assert!(contains_side(
            &transparent_resources,
            &wall_chunks,
            direction
        ));
    }
}

#[test]
fn an_opaque_neighbour_hides_the_side_of_a_fluid() {
    let resources = Resources::synthetic_fluids(&[(7, fluid(FluidKind::Water, 0, false))]);
    let chunks = at_origin(&[((8, 1, 8), 7), ((9, 1, 8), 9)]);
    let mesh = mesh(&resources, &chunks, ChunkCoordinate::new(0, 0), FLAT).unwrap();
    // The top and the bottom, and three sides from both sides.
    assert_eq!(mesh.translucent_indices.len(), 48);
}

#[test]
fn fluid_top_selects_still_or_animated_flow_resource_without_remeshing() {
    assert!(!fluid_top_uses_flowing_texture((0, 0)));
    assert!(fluid_top_uses_flowing_texture((1, 0)));
    assert!(fluid_top_uses_flowing_texture((0, -1)));
}

#[test]
fn fluids_have_textures_of_their_own() {
    assert_eq!(
        fluid_texture(FluidKind::Water, false),
        "minecraft:block/water_still"
    );
    assert_eq!(
        fluid_texture(FluidKind::Lava, true),
        "minecraft:block/lava_flow"
    );
    let resources = Resources::synthetic_fluids(&[
        (7, fluid(FluidKind::Water, 0, false)),
        (8, fluid(FluidKind::Lava, 0, false)),
    ]);
    let chunks = at_origin(&[((8, 1, 8), 7), ((9, 1, 8), 8)]);
    let context = resources.context(&chunks, FLAT);
    assert!(same_fluid(context, FluidKind::Water, 8, 1, 8));
    assert!(!same_fluid(context, FluidKind::Water, 9, 1, 8));
    assert_eq!(fluid_light_level(context, FluidKind::Lava, 9, 1, 8), 15);
}

#[test]
fn source_beside_solid_ignores_the_wall_for_height_and_flow() {
    let resources = Resources::synthetic_fluids(&[(7, fluid(FluidKind::Water, 0, false))]);
    let chunks = at_origin(&[
        ((8, 1, 8), 7),
        ((7, 1, 8), 9),
        ((8, 1, 7), 9),
        ((7, 1, 7), 9),
    ]);
    let context = resources.context(&chunks, FLAT);
    let corner = height(fluid_corner_height(
        context,
        FluidKind::Water,
        8,
        1,
        8,
        -1,
        -1,
    ));
    assert!((corner - 8.0 / 9.0).abs() < 1.0e-9);
    let flow = fluid_surface_flow(context, FluidKind::Water, 8, 1, 8);
    assert_eq!(direction_of(flow), [0.0, 0.0]);
    assert!(!fluid_top_uses_flowing_texture(flow));
}

#[test]
fn source_surface_corners_ignore_one_or_two_solid_neighbours_exactly() {
    let resources = Resources::synthetic_fluids(&[(7, fluid(FluidKind::Water, 0, false))]);
    for walls in [[(7, 1, 8), (7, 1, 8)], [(7, 1, 8), (8, 1, 7)]] {
        let mut states = vec![0; 4096];
        for z in 7..=9 {
            for x in 7..=9 {
                states[index(x, 1, z)] = 7;
            }
        }
        for (x, y, z) in walls {
            states[index(x, y, z)] = 9;
        }
        let chunks = only(ChunkCoordinate::new(0, 0), states);
        let heights = heights(fluid_surface_heights(
            resources.context(&chunks, FLAT),
            FluidKind::Water,
            8,
            1,
            8,
        ));
        assert!(
            heights
                .iter()
                .all(|height| (height - 8.0 / 9.0).abs() < 1.0e-12),
            "{heights:?}"
        );
    }
}

#[test]
fn falling_columns_with_fluid_above_use_a_flat_full_surface() {
    for kind in [FluidKind::Water, FluidKind::Lava] {
        let resources = Resources::synthetic_fluids(&[
            (7, fluid(kind, 0, true)),
            (8, fluid(kind, 0, false)),
        ]);
        let chunks = at_origin(&[
            ((8, 1, 8), 7),
            ((8, 2, 8), 8),
            ((9, 1, 8), 7),
            ((9, 2, 8), 7),
        ]);
        for x in [8, 9] {
            assert_eq!(
                heights(fluid_surface_heights(
                    resources.context(&chunks, FLAT),
                    kind,
                    x,
                    1,
                    8
                )),
                [1.0; 4],
                "{kind:?} column at x={x}"
            );
        }
    }
}

#[test]
fn rendered_fluid_height_rules_match_source_flow_and_vertical_column_cases() {
    let own_height = |fluid: FluidState| f64::from(fluid.own_height()) / 9.0;
    let source = fluid(FluidKind::Water, 0, false);
    assert_eq!(own_height(source), 8.0 / 9.0);
    for level in 1..=7 {
        let flowing = fluid(FluidKind::Water, level, false);
        assert_eq!(own_height(flowing), f64::from(8 - level) / 9.0);
    }
    let falling = fluid(FluidKind::Water, 0, true);
    assert_eq!(own_height(falling), 8.0 / 9.0);
}

#[test]
fn cardinal_surface_slopes_descend_in_the_same_direction_as_flow() {
    let resources = Resources::synthetic_fluids(&[
        (7, fluid(FluidKind::Water, 0, false)),
        (8, fluid(FluidKind::Water, 7, false)),
    ]);
    for (dx, dz) in [(-1, 0), (1, 0), (0, -1), (0, 1)] {
        let chunks = at_origin(&[
            ((8, 1, 8), 7),
            (((8 + dx) as usize, 1, (8 + dz) as usize), 8),
        ]);
        let context = resources.context(&chunks, FLAT);
        let flow = fluid_surface_flow(context, FluidKind::Water, 8, 1, 8);
        assert_eq!(direction_of(flow), [f64::from(dx), f64::from(dz)]);
        let heights = [(-1, -1), (-1, 1), (1, 1), (1, -1)].map(|(x_offset, z_offset)| {
            height(fluid_corner_height(
                context,
                FluidKind::Water,
                8,
                1,
                8,
                x_offset,
                z_offset,
            ))
        });
        let high_side = if dx < 0 {
            [heights[2], heights[3]]
        } else if dx > 0 {
            [heights[0], heights[1]]
        } else if dz < 0 {
            [heights[1], heights[2]]
        } else {
            [heights[0], heights[3]]
        };
        let low_side = if dx < 0 {
            [heights[0], heights[1]]
        } else if dx > 0 {
            [heights[2], heights[3]]
        } else if dz < 0 {
            [heights[0], heights[3]]
        } else {
            [heights[1], heights[2]]
        };
        assert!(high_side.iter().sum::<f64>() > low_side.iter().sum::<f64>());
    }

    let chunks = at_origin(&[((8, 1, 8), 7), ((9, 1, 8), 8), ((8, 1, 9), 8)]);
    let diagonal = direction_of(fluid_surface_flow(
        resources.context(&chunks, FLAT),
        FluidKind::Water,
        8,
        1,
        8,
    ));
    assert!((diagonal[0] - f64::sqrt(0.5)).abs() < 1.0e-9);
    assert!((diagonal[1] - f64::sqrt(0.5)).abs() < 1.0e-9);
}

#[test]
fn fluid_corner_weighting_matches_current_renderer_rules() {
    let weighted = |samples: [Option<i32>; 4]| height(weighted_fluid_height(samples));
    assert!((weighted([Some(8), Some(0), Some(0), None]) - 80.0 / 108.0).abs() < 1.0e-9);
    assert!((weighted([Some(7); 4]) - 7.0 / 9.0).abs() < 1.0e-9);
    assert_eq!(weighted([None; 4]), 0.0);
}

#[test]
fn clipped_fluids_are_seen_where_they_end() {
    assert!(fluid_side_outward_is_positive(Direction::South));
    assert!(!fluid_side_outward_is_positive(Direction::North));
    // Two layers behind each other: the fluid fills the one behind and a solid the
    // one before it, so the face lies between them.
    let grid = SideGrid {
        columns: 1,
        rows: 1,
        layers: 2,
        open: vec![true, false],
        solid: vec![false, true],
    };
    assert_eq!(
        clipped_side_faces(&grid, Direction::South, true),
        vec![SideFace {
            column: 0,
            row: 0,
            boundary: 1
        }]
    );
    let open = SideGrid {
        columns: 1,
        rows: 1,
        layers: 2,
        open: vec![true, true],
        solid: vec![false, false],
    };
    assert_eq!(
        clipped_side_faces(&open, Direction::South, true),
        vec![SideFace {
            column: 0,
            row: 0,
            boundary: 2
        }]
    );
    assert!(clipped_side_faces(&open, Direction::South, false).is_empty());
    assert_eq!(
        clipped_top_cells(&vec![false, true, true, false], 2),
        vec![(0, 0), (1, 1)]
    );
}

#[test]
fn fluid_debug_flags_are_off_unless_they_are_set() {
    assert_eq!(
        FluidDebugOptions::from_values(None, None, None),
        FluidDebugOptions {
            face_colors: false,
            mesh_log: false,
            radius: 6,
        }
    );
    assert_eq!(
        FluidDebugOptions::from_values(Some("1"), Some("TRUE"), Some("99")),
        FluidDebugOptions {
            face_colors: true,
            mesh_log: true,
            radius: 32,
        }
    );
}

#[test]
fn fluid_debug_marks_name_the_face_and_whether_it_is_clipped() {
    for (direction, face) in [
        (Direction::Up, 1),
        (Direction::North, 2),
        (Direction::South, 3),
        (Direction::East, 4),
        (Direction::West, 5),
        (Direction::Down, 6),
    ] {
        assert_eq!(debug_fluid_layer(2, false, direction, true), 2);
        assert_eq!(debug_fluid_layer(2, true, direction, false), 2 | face << 8);
        assert_eq!(
            debug_fluid_layer(2, true, direction, true),
            2 | face << 8 | 1 << 16
        );
    }
}

#[test]
fn fluid_debug_cells_are_recorded_near_the_player_up_to_a_limit() {
    let options = FluidDebugOptions {
        face_colors: false,
        mesh_log: true,
        radius: 2,
    };
    assert!(options.records(0, Some((8, 0, 8)), 10, 0, 8));
    assert!(!options.records(0, Some((8, 0, 8)), 11, 0, 8));
    assert!(!options.records(32, Some((8, 0, 8)), 8, 0, 8));
    assert!(!FluidDebugOptions {
        mesh_log: false,
        ..options
    }
    .records(0, Some((8, 0, 8)), 8, 0, 8));
    assert_eq!(cells_to_log(2, 5), 2);
    assert_eq!(cells_to_log(5, 2), 2);
    assert_eq!(
        side_decision(3, false, false),
        FluidSideDecision::Emitted { subquads: 3 }
    );
    assert_eq!(side_decision(0, true, true), FluidSideDecision::SameFluid);
    assert_eq!(
        side_decision(0, false, true),
        FluidSideDecision::NeighborOcclusion
    );
    assert_eq!(
        side_decision(0, false, false),
        FluidSideDecision::RemovedByClipping
    );
    assert_eq!(side_index(Direction::Up), None);
    assert!(side_index(Direction::North).is_some());
}

#[test]
fn fluid_debug_cell_collection_has_a_hard_per_mesh_cap() {
    let resources = Resources::synthetic_fluids(&[(7, fluid(FluidKind::Water, 0, false))]);
    let coordinate = ChunkCoordinate::new(0, 0);
    let mut states = vec![0; 4096];
    states.iter_mut().take(64).for_each(|state| *state = 7);
    let chunks = only(coordinate, states);
    let options = FluidDebugOptions {
        face_colors: false,
        mesh_log: true,
        radius: 32,
    };
    let cells = fluid_cells(resources.context(&chunks, FLAT), coordinate);
    assert_eq!(cells.len(), 64);
    let mut recorded = 0;
    for cell in &cells {
        if options.records(recorded, Some((8, 0, 8)), cell.x, cell.y, cell.z) {
            recorded += 1;
        }
    }
    assert_eq!(recorded, MAX_FLUID_DEBUG_CELLS_PER_MESH);
}

#[test]
fn prepared_state_lookup_is_direct_and_full_cube_detection_is_conservative() {
    let resources = Resources::synthetic(&[0]);
    let state = |number: u32| resources.states.state(RuntimeBlockStateId(number));
    assert!(state(0).parts.is_empty());
    assert!(std::ptr::eq(state(7), state(7)));
    assert!(state(7).full_opaque_cube);

    // Of a cube of half the height only the bottom still covers its side.
    let mut partial = fallback_state(0, 0);
    for part in &mut partial.parts {
        for (_, model) in &mut part.entries {
            for face in &mut model.faces {
                face.shape.covers_boundary = face.direction == Direction::Down;
                for corner in &mut face.shape.upper {
                    corner[1] = corner[1] && face.direction != Direction::Down;
                }
            }
        }
    }
    assert!(!is_full_cube(&partial.parts[0].entries[0].1));
}

// What holds of every mesh.

#[test]
fn blending_one_colour_gives_that_colour() {
    let coordinate = ChunkCoordinate::new(-1, -1);
    let chunks = ChunkMap {
        chunks: vec![chunk_with_biome(coordinate, vec![0; 4096], 0)],
    };
    let mut resources = Resources::synthetic(&[0]);
    resources.biomes = vec![biome(0, 0x12_34_56)];
    for (x, z) in [(-8, -8), (-1, -1), (-16, -16)] {
        assert_eq!(
            tint_at(resources.context(&chunks, FLAT), TintKind::Water, x, 3, z),
            0x12_34_56
        );
    }
}

#[test]
fn glowing_blocks_are_bright_in_every_corner() {
    let mut lava = fallback_state(0, 0);
    lava.emissive = true;
    let resources = Resources::synthetic(&[0]).with(1, lava);
    let chunks = at_origin(&[((8, 8, 8), 1), ((9, 9, 8), 2), ((9, 8, 9), 2)]);
    let mesh = mesh(&resources, &chunks, ChunkCoordinate::new(0, 0), FLAT).unwrap();
    let glowing: Vec<_> = mesh
        .quads
        .iter()
        .filter(|quad| (quad.x, quad.y, quad.z) == (8, 8, 8))
        .collect();
    assert_eq!(glowing.len(), 6);
    for quad in glowing {
        for shade in [quad.first, quad.second, quad.third, quad.fourth] {
            assert_eq!((shade.occlusion, shade.light), (0, 15));
        }
    }
}

#[test]
fn every_face_stands_in_the_batch_of_its_layer() {
    let resources = Resources::synthetic(&[0])
        .with_layer(1, RenderLayer::Cutout)
        .with_layer(2, RenderLayer::Translucent)
        .with_layer(3, RenderLayer::LayeredTranslucent);
    let chunks = at_origin(&[((1, 1, 1), 2), ((5, 1, 1), 1), ((9, 1, 1), 3), ((13, 1, 1), 2)]);
    let mesh = mesh(&resources, &chunks, ChunkCoordinate::new(0, 0), FLAT).unwrap();
    let (mut opaque, mut translucent, mut layered) = (vec![], vec![], vec![]);
    for (number, quad) in mesh.quads.iter().enumerate() {
        let base = 4 * number as u32;
        let batch = match quad.render_layer {
            RenderLayer::Opaque | RenderLayer::Cutout => &mut opaque,
            RenderLayer::Translucent => &mut translucent,
            RenderLayer::LayeredTranslucent => &mut layered,
        };
        batch.extend([base, base + 1, base + 2, base, base + 2, base + 3]);
    }
    assert_eq!(mesh.indices, opaque);
    assert_eq!(mesh.translucent_indices, translucent);
    assert_eq!(mesh.layered_translucent_indices, layered);
    assert_eq!(translucent.len(), 2 * 36);
}

#[test]
fn blocks_of_loaded_chunks_are_found_on_either_side_of_zero() {
    for coordinate in [ChunkCoordinate::new(-2, 3), ChunkCoordinate::new(0, -1)] {
        let mut states = vec![0; 4096];
        states[index(15, 4, 1)] = 7;
        let chunks = only(coordinate, states);
        let geometry = DimensionGeometry {
            min_y: -64,
            height: 16,
        };
        assert_eq!(
            block_at(&chunks, geometry, coordinate.x * 16 + 15, -60, coordinate.z * 16 + 1),
            Some(RuntimeBlockStateId(7))
        );
    }
}

#[test]
fn surfaces_of_neighbouring_fluids_meet() {
    let levels = [0, 1, 3, 5, 7];
    let states: Vec<(usize, FluidState)> = levels
        .iter()
        .enumerate()
        .map(|(place, level)| (place + 1, fluid(FluidKind::Water, *level, false)))
        .collect();
    let resources = Resources::synthetic_fluids(&states);
    let mut blocks = vec![];
    for x in 4..9 {
        for z in 4..9 {
            blocks.push(((x, 2, z), ((3 * x + 5 * z) % 5 + 1) as u32));
        }
    }
    let chunks = at_origin(&blocks);
    let context = resources.context(&chunks, FLAT);
    let surface =
        |x: i32, z: i32| fluid_surface_heights(context, FluidKind::Water, x, 2, z);
    for x in 4..8 {
        for z in 4..8 {
            let here = surface(x, z);
            let east = surface(x + 1, z);
            let south = surface(x, z + 1);
            assert_eq!((here.2, here.3), (east.1, east.0));
            assert_eq!((here.1, here.2), (south.0, south.3));
        }
    }
}
