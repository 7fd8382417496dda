//! The walk over a chunk's blocks that makes its mesh.

use crate::fluid::{is_fluid_cell, push_fluid, FluidCell};
use crate::grid::{Chunk, ChunkCoordinate, DimensionGeometry, RuntimeBlockStateId};
use crate::mesher::{
    counts_add_up, empty_mesh, fluid_faces_of, holds_whole_faces, is_batched, is_meshed,
    lemma_visit_adds_the_faces_of_the_block, lemma_visit_is_counted, visit_block, visited, ChunkMesh,
    FluidQuad, MeshError, MeshView, MAX_CHUNK_MESH_FACES,
};
use crate::direction::Direction;
use crate::resources::{FluidState, StateModels};
use crate::shading::{interior_block, neighbor_fully_occludes, MeshContext};
use vstd::prelude::*;

verus! {

/// The position in a section of the `p`-th block, in the order Y, Z, X.
pub open spec fn local_x(p: int) -> int {
    p % 16
}

pub open spec fn local_y(p: int) -> int {
    p / 256
}

pub open spec fn local_z(p: int) -> int {
    (p / 16) % 16
}

/// The chunk and its neighbourhood lie within the coordinate range.
pub open spec fn in_world(coordinate: ChunkCoordinate, geometry: DimensionGeometry) -> bool {
    &&& -134_217_727 <= coordinate.x <= 134_217_726
    &&& -134_217_727 <= coordinate.z <= 134_217_726
    &&& i32::MIN + 2 <= geometry.min_y
    &&& geometry.min_y + geometry.height <= i32::MAX - 1
}

/// The mesh and the number of fluid blocks after the `p`-th block of a section.
pub open spec fn after_block(
    context: MeshContext,
    chunk: Chunk,
    coordinate: ChunkCoordinate,
    fluids: Seq<Vec<FluidQuad>>,
    section: int,
    p: int,
    mesh: MeshView,
    wet: int,
) -> Option<(MeshView, int)> {
    match chunk.sections@[section].block_spec(local_x(p), local_y(p), local_z(p)) {
        None => Some((mesh, wet)),
        Some(id) => {
            let state = context.states.models(id as int);
            let x = coordinate.x * 16 + local_x(p);
            let y = context.geometry.min_y + section * 16 + local_y(p);
            let z = coordinate.z * 16 + local_z(p);
            match visited(context, mesh, x, y, z, state, fluid_faces_of(fluids, wet)) {
                None => None,
                Some(next) => Some(
                    (
                        next,
                        if state.fluid is Some && is_meshed(context, x, y, z, state) {
                            wet + 1
                        } else {
                            wet
                        },
                    ),
                ),
            }
        },
    }
}

/// The mesh and the number of fluid blocks after the sections below `section`
/// and the first `p` blocks of that one. Sections without blocks are skipped.
pub open spec fn after_blocks(
    context: MeshContext,
    chunk: Chunk,
    coordinate: ChunkCoordinate,
    fluids: Seq<Vec<FluidQuad>>,
    section: int,
    p: int,
) -> Option<(MeshView, int)>
    decreases section, p,
{
    if p <= 0 {
        if section <= 0 {
            Some((empty_mesh(), 0))
        } else {
            after_blocks(context, chunk, coordinate, fluids, section - 1, 4096)
        }
    } else if section < 0 {
        None
    } else {
        match after_blocks(context, chunk, coordinate, fluids, section, p - 1) {
            None => None,
            Some((mesh, wet)) => if chunk.sections@[section].non_empty_block_count == 0 {
                Some((mesh, wet))
            } else {
                after_block(context, chunk, coordinate, fluids, section, p - 1, mesh, wet)
            },
        }
    }
}

proof fn lemma_skipped_section(
    context: MeshContext,
    chunk: Chunk,
    coordinate: ChunkCoordinate,
    fluids: Seq<Vec<FluidQuad>>,
    section: int,
    p: int,
)
    requires
        section >= 0,
        p >= 0,
        chunk.sections@[section].non_empty_block_count == 0,
    ensures
        after_blocks(context, chunk, coordinate, fluids, section, p) == after_blocks(
            context,
            chunk,
            coordinate,
            fluids,
            section,
            0,
        ),
    decreases p,
{
    if p > 0 {
        lemma_skipped_section(context, chunk, coordinate, fluids, section, p - 1);
    }
}

proof fn lemma_full_stays_full(
    context: MeshContext,
    chunk: Chunk,
    coordinate: ChunkCoordinate,
    fluids: Seq<Vec<FluidQuad>>,
    section: int,
    p: int,
    last: int,
)
    requires
        0 <= section,
        0 <= p <= 4096,
        section < last || (section == last && p == 0),
        after_blocks(context, chunk, coordinate, fluids, section, p) is None,
    ensures
        after_blocks(context, chunk, coordinate, fluids, last, 0) is None,
    decreases last - section, 4096 - p,
{
    if section < last {
        if p < 4096 {
            lemma_full_stays_full(context, chunk, coordinate, fluids, section, p + 1, last);
        } else {
            assert(after_blocks(context, chunk, coordinate, fluids, section + 1, 0)
                == after_blocks(context, chunk, coordinate, fluids, section, 4096));
            lemma_full_stays_full(context, chunk, coordinate, fluids, section + 1, 0, last);
        }
    }
}

/// Visits the `p`-th block of a section.
#[verifier::rlimit(40)]
fn visit_position(
    context: MeshContext,
    chunk: &Chunk,
    coordinate: ChunkCoordinate,
    fluids: &Vec<Vec<FluidQuad>>,
    section: usize,
    p: usize,
    mesh: &mut ChunkMesh,
    wet: u64,
) -> (result: Result<u64, MeshError>)
    requires
        in_world(coordinate, context.geometry),
        section < chunk.sections@.len(),
        chunk.sections@.len() == context.geometry.height / 16,
        p < 4096,
        old(mesh)@.well_formed(),
        wet <= section * 4096 + p,
    ensures
        match after_block(
            context,
            *chunk,
            coordinate,
            fluids@,
            section as int,
            p as int,
            old(mesh)@,
            wet as int,
        ) {
            Some((next, count)) => {
                &&& result matches Ok(more) && more == count && more <= wet + 1
                &&& final(mesh)@ == next
                &&& next.well_formed()
            },
            None => result == Err::<u64, MeshError>(
                MeshError::FaceLimit { max: MAX_CHUNK_MESH_FACES },
            ),
        },
{
    let lx: usize = p % 16;
    let ly: usize = p / 256;
    let lz: usize = (p / 16) % 16;
    let id: RuntimeBlockStateId = match chunk.sections[section].block(lx, ly, lz) {
        Some(id) => id,
        None => return Ok(wet),
    };
    let state: &StateModels = context.states.state(id);
    assert(section * 16 + 16 <= context.geometry.height);
    let x: i32 = coordinate.x * 16 + lx as i32;
    let y: i32 = (context.geometry.min_y as i64 + (section as i64) * 16 + ly as i64) as i32;
    let z: i32 = coordinate.z * 16 + lz as i32;
    assert(y == context.geometry.min_y + section * 16 + ly);
    let none: Vec<FluidQuad> = Vec::new();
    assert(none@ =~= Seq::<FluidQuad>::empty());
    let faces: &Vec<FluidQuad> = if wet < fluids.len() as u64 {
        &fluids[wet as usize]
    } else {
        &none
    };
    let meshed: bool = block_is_meshed(context, x, y, z, state);
    match visit_block(context, mesh, x, y, z, state, faces) {
        Ok(()) => {},
        Err(error) => return Err(error),
    }
    if state.fluid.is_some() && meshed {
        Ok(wet + 1)
    } else {
        Ok(wet)
    }
}

fn block_is_meshed(context: MeshContext, x: i32, y: i32, z: i32, state: &StateModels) -> (yes: bool)
    requires
        interior_block(x as int, y as int, z as int),
    ensures
        yes == is_meshed(context, x as int, y as int, z as int, *state),
{
    if state.parts.len() == 0 && state.fluid.is_none() {
        return false;
    }
    if !state.full_opaque_cube {
        return true;
    }
    !(neighbor_fully_occludes(context, x, y, z, Direction::Down) && neighbor_fully_occludes(
        context,
        x,
        y,
        z,
        Direction::Up,
    ) && neighbor_fully_occludes(context, x, y, z, Direction::North) && neighbor_fully_occludes(
        context,
        x,
        y,
        z,
        Direction::South,
    ) && neighbor_fully_occludes(context, x, y, z, Direction::West) && neighbor_fully_occludes(
        context,
        x,
        y,
        z,
        Direction::East,
    ))
}

/// The mesh of a chunk. `fluids` holds the clipped faces of its fluid blocks, in
/// the order in which [`fluid_cells`] lists them. A chunk that is not loaded has
/// an empty mesh.
pub fn mesh_chunk(
    context: MeshContext,
    coordinate: ChunkCoordinate,
    fluids: &Vec<Vec<FluidQuad>>,
) -> (result: Result<ChunkMesh, MeshError>)
    requires
        in_world(coordinate, context.geometry),
    ensures
        match context.chunks.chunk_at(coordinate.x as int, coordinate.z as int) {
            None => result matches Ok(mesh) && mesh@ == empty_mesh(),
            Some(chunk) => if chunk.sections@.len() != context.geometry.height / 16 {
                result matches Err(error) && error == (MeshError::SectionCount {
                    actual: chunk.sections@.len() as usize,
                    expected: (context.geometry.height / 16) as usize,
                })
            } else {
                match after_blocks(
                    context,
                    chunk,
                    coordinate,
                    fluids@,
                    chunk.sections@.len() as int,
                    0,
                ) {
                    Some((view, _)) => result matches Ok(mesh) && mesh@ == view,
                    None => result matches Err(error) && error == (MeshError::FaceLimit {
                        max: MAX_CHUNK_MESH_FACES,
                    }),
                }
            },
        },
        result matches Ok(mesh) ==> mesh@.well_formed() && counts_add_up(mesh@),
{
    let mut mesh: ChunkMesh = ChunkMesh::new();
    let chunk: &Chunk = match context.chunks.get(coordinate) {
        Some(chunk) => chunk,
        None => return Ok(mesh),
    };
    let expected: usize = context.geometry.section_count();
    if chunk.sections.len() != expected {
        return Err(MeshError::SectionCount { actual: chunk.sections.len(), expected });
    }
    let mut section: usize = 0;
    let mut wet: u64 = 0;
    while section < chunk.sections.len()
        invariant
            section <= chunk.sections@.len(),
            chunk.sections@.len() == context.geometry.height / 16,
            context.chunks.chunk_at(coordinate.x as int, coordinate.z as int) == Some(*chunk),
            in_world(coordinate, context.geometry),
            mesh@.well_formed(),
            wet <= section * 4096,
            after_blocks(context, *chunk, coordinate, fluids@, section as int, 0) == Some(
                (mesh@, wet as int),
            ),
        decreases chunk.sections@.len() - section,
    {
        if chunk.sections[section].non_empty_block_count == 0 {
            proof {
                lemma_skipped_section(
                    context,
                    *chunk,
                    coordinate,
                    fluids@,
                    section as int,
                    4096,
                );
            }
        } else {
            let mut p: usize = 0;
            while p < 4096
                invariant
                    p <= 4096,
                    section < chunk.sections@.len(),
                    chunk.sections@.len() == context.geometry.height / 16,
                    context.chunks.chunk_at(coordinate.x as int, coordinate.z as int) == Some(
                        *chunk,
                    ),
                    chunk.sections@[section as int].non_empty_block_count != 0,
                    in_world(coordinate, context.geometry),
                    mesh@.well_formed(),
                    wet <= section * 4096 + p,
                    after_blocks(
                        context,
                        *chunk,
                        coordinate,
                        fluids@,
                        section as int,
                        p as int,
                    ) == Some((mesh@, wet as int)),
                decreases 4096 - p,
            {
                match visit_position(
                    context,
                    chunk,
                    coordinate,
                    fluids,
                    section,
                    p,
                    &mut mesh,
                    wet,
                ) {
                    Ok(more) => {
                        wet = more;
                    },
                    Err(error) => {
                        proof {
                            lemma_full_stays_full(
                                context,
                                *chunk,
                                coordinate,
                                fluids@,
                                section as int,
                                p + 1,
                                chunk.sections@.len() as int,
                            );
                        }
                        return Err(error);
                    },
                }
                p += 1;
            }
        }
        section += 1;
        assert(after_blocks(context, *chunk, coordinate, fluids@, section as int, 0)
            == after_blocks(context, *chunk, coordinate, fluids@, section - 1, 4096));
    }
    proof {
        lemma_statistics_add_up(
            context,
            *chunk,
            coordinate,
            fluids@,
            chunk.sections@.len() as int,
            0,
        );
    }
    Ok(mesh)
}

/// A fluid block: where it lies and its fluid.
pub struct FluidPlace {
    pub x: int,
    pub y: int,
    pub z: int,
    pub fluid: FluidState,
}

/// The fluid block that the `p`-th block of a section is, if it is one that the
/// mesh shows.
pub open spec fn fluid_place(
    context: MeshContext,
    chunk: Chunk,
    coordinate: ChunkCoordinate,
    section: int,
    p: int,
) -> Option<FluidPlace> {
    match chunk.sections@[section].block_spec(local_x(p), local_y(p), local_z(p)) {
        None => None,
        Some(id) => {
            let state = context.states.models(id as int);
            let x = coordinate.x * 16 + local_x(p);
            let y = context.geometry.min_y + section * 16 + local_y(p);
            let z = coordinate.z * 16 + local_z(p);
            match state.fluid {
                Some(fluid) if is_meshed(context, x, y, z, state) => Some(
                    FluidPlace { x, y, z, fluid },
                ),
                _ => None,
            }
        },
    }
}

/// The fluid blocks in the sections below `section` and among the first `p`
/// blocks of that one, in the order of the walk.
pub open spec fn fluid_places(
    context: MeshContext,
    chunk: Chunk,
    coordinate: ChunkCoordinate,
    section: int,
    p: int,
) -> Seq<FluidPlace>
    decreases section, p,
{
    if p <= 0 {
        if section <= 0 {
            Seq::empty()
        } else {
            fluid_places(context, chunk, coordinate, section - 1, 4096)
        }
    } else if section < 0 {
        Seq::empty()
    } else {
        let before = fluid_places(context, chunk, coordinate, section, p - 1);
        if chunk.sections@[section].non_empty_block_count == 0 {
            before
        } else {
            match fluid_place(context, chunk, coordinate, section, p - 1) {
                Some(place) => before.push(place),
                None => before,
            }
        }
    }
}

/// `cells` are the fluid blocks at `places`.
pub open spec fn are_fluid_cells(
    cells: Seq<FluidCell>,
    context: MeshContext,
    places: Seq<FluidPlace>,
) -> bool {
    &&& cells.len() == places.len()
    &&& forall|i: int|
        0 <= i < cells.len() ==> {
            &&& (#[trigger] cells[i]).x == places[i].x
            &&& cells[i].y == places[i].y
            &&& cells[i].z == places[i].z
            &&& is_fluid_cell(cells[i], context, places[i].fluid)
        }
}

fn fluid_cell_at(
    context: MeshContext,
    chunk: &Chunk,
    coordinate: ChunkCoordinate,
    section: usize,
    p: usize,
) -> (cell: Option<FluidCell>)
    requires
        in_world(coordinate, context.geometry),
        section < chunk.sections@.len(),
        chunk.sections@.len() == context.geometry.height / 16,
        p < 4096,
    ensures
        match fluid_place(context, *chunk, coordinate, section as int, p as int) {
            Some(place) => cell matches Some(found) && found.x == place.x && found.y == place.y
                && found.z == place.z && is_fluid_cell(found, context, place.fluid),
            None => cell is None,
        },
{
    let lx: usize = p % 16;
    let ly: usize = p / 256;
    let lz: usize = (p / 16) % 16;
    let id: RuntimeBlockStateId = match chunk.sections[section].block(lx, ly, lz) {
        Some(id) => id,
        None => return None,
    };
    let state: &StateModels = context.states.state(id);
    assert(section * 16 + 16 <= context.geometry.height);
    let x: i32 = coordinate.x * 16 + lx as i32;
    let y: i32 = (context.geometry.min_y as i64 + (section as i64) * 16 + ly as i64) as i32;
    let z: i32 = coordinate.z * 16 + lz as i32;
    assert(y == context.geometry.min_y + section * 16 + ly);
    match state.fluid {
        Some(fluid) => if block_is_meshed(context, x, y, z, state) {
            Some(push_fluid(context, x, y, z, fluid))
        } else {
            None
        },
        None => None,
    }
}

proof fn lemma_skipped_places(
    context: MeshContext,
    chunk: Chunk,
    coordinate: ChunkCoordinate,
    section: int,
    p: int,
)
    requires
        section >= 0,
        p >= 0,
        chunk.sections@[section].non_empty_block_count == 0,
    ensures
        fluid_places(context, chunk, coordinate, section, p) == fluid_places(
            context,
            chunk,
            coordinate,
            section,
            0,
        ),
    decreases p,
{
    if p > 0 {
        lemma_skipped_places(context, chunk, coordinate, section, p - 1);
    }
}

/// The fluid blocks of a chunk that its mesh shows, in the order of the walk;
/// none where the chunk is not loaded or has the wrong number of sections.
pub fn fluid_cells(context: MeshContext, coordinate: ChunkCoordinate) -> (cells: Vec<FluidCell>)
    requires
        in_world(coordinate, context.geometry),
    ensures
        match context.chunks.chunk_at(coordinate.x as int, coordinate.z as int) {
            Some(chunk) if chunk.sections@.len() == context.geometry.height / 16 => are_fluid_cells(
                cells@,
                context,
                fluid_places(context, chunk, coordinate, chunk.sections@.len() as int, 0),
            ),
            _ => cells@.len() == 0,
        },
{
    let mut cells: Vec<FluidCell> = Vec::new();
    let chunk: &Chunk = match context.chunks.get(coordinate) {
        Some(chunk) => chunk,
        None => return cells,
    };
    if chunk.sections.len() != context.geometry.section_count() {
        return cells;
    }
    let mut section: usize = 0;
    while section < chunk.sections.len()
        invariant
            section <= chunk.sections@.len(),
            chunk.sections@.len() == context.geometry.height / 16,
            in_world(coordinate, context.geometry),
            are_fluid_cells(
                cells@,
                context,
                fluid_places(context, *chunk, coordinate, section as int, 0),
            ),
        decreases chunk.sections@.len() - section,
    {
        if chunk.sections[section].non_empty_block_count == 0 {
            proof {
                lemma_skipped_places(context, *chunk, coordinate, section as int, 4096);
            }
        } else {
            let mut p: usize = 0;
            while p < 4096
                invariant
                    p <= 4096,
                    section < chunk.sections@.len(),
                    chunk.sections@.len() == context.geometry.height / 16,
                    chunk.sections@[section as int].non_empty_block_count != 0,
                    in_world(coordinate, context.geometry),
                    are_fluid_cells(
                        cells@,
                        context,
                        fluid_places(context, *chunk, coordinate, section as int, p as int),
                    ),
                decreases 4096 - p,
            {
                match fluid_cell_at(context, chunk, coordinate, section, p) {
                    Some(cell) => {
                        cells.push(cell);
                    },
                    None => {},
                }
                p += 1;
            }
        }
        section += 1;
        assert(fluid_places(context, *chunk, coordinate, section as int, 0) == fluid_places(
            context,
            *chunk,
            coordinate,
            section - 1,
            4096,
        ));
    }
    cells
}

/// The mesh takes exactly one list of fluid faces for each fluid block that
/// [`fluid_cells`] lists, in the same order.
pub proof fn lemma_fluid_blocks_agree(
    context: MeshContext,
    chunk: Chunk,
    coordinate: ChunkCoordinate,
    fluids: Seq<Vec<FluidQuad>>,
    section: int,
    p: int,
)
    ensures
        after_blocks(context, chunk, coordinate, fluids, section, p) matches Some((_, wet)) ==> wet
            == fluid_places(context, chunk, coordinate, section, p).len(),
    decreases section, p,
{
    if p <= 0 {
        if section > 0 {
            lemma_fluid_blocks_agree(context, chunk, coordinate, fluids, section - 1, 4096);
        }
    } else if section >= 0 {
        lemma_fluid_blocks_agree(context, chunk, coordinate, fluids, section, p - 1);
    }
}

/// Every face of a chunk's mesh stands in the batch of its layer and in no other:
/// the index lists follow from the list of faces.
pub proof fn lemma_batches_follow_the_faces(
    context: MeshContext,
    chunk: Chunk,
    coordinate: ChunkCoordinate,
    fluids: Seq<Vec<FluidQuad>>,
    section: int,
    p: int,
)
    ensures
        after_blocks(context, chunk, coordinate, fluids, section, p) matches Some((mesh, _))
            ==> is_batched(mesh),
    decreases section, p,
{
    if p <= 0 {
        if section > 0 {
            lemma_batches_follow_the_faces(context, chunk, coordinate, fluids, section - 1, 4096);
        }
    } else if section >= 0 {
        lemma_batches_follow_the_faces(context, chunk, coordinate, fluids, section, p - 1);
        match after_blocks(context, chunk, coordinate, fluids, section, p - 1) {
            Some((mesh, wet)) => {
                let (lx, ly, lz) = (local_x(p - 1), local_y(p - 1), local_z(p - 1));
                match chunk.sections@[section].block_spec(lx, ly, lz) {
                    Some(id) => {
                        lemma_visit_adds_the_faces_of_the_block(
                            context,
                            mesh,
                            coordinate.x * 16 + lx,
                            context.geometry.min_y + section * 16 + ly,
                            coordinate.z * 16 + lz,
                            context.states.models(id as int),
                            fluid_faces_of(fluids, wet),
                        );
                    },
                    None => {},
                }
            },
            None => {},
        }
    }
}

/// The counters of a chunk's mesh agree: the positions visited are the air and the
/// other blocks, those other blocks are the rejected and the processed ones, at most
/// the processed ones give faces, and the emitted faces are the faces of the mesh.
pub proof fn lemma_statistics_add_up(
    context: MeshContext,
    chunk: Chunk,
    coordinate: ChunkCoordinate,
    fluids: Seq<Vec<FluidQuad>>,
    section: int,
    p: int,
)
    requires
        section >= 0,
        p >= 0,
        section * 4096 + p <= u64::MAX,
    ensures
        after_blocks(context, chunk, coordinate, fluids, section, p) matches Some((mesh, _)) ==> {
            &&& counts_add_up(mesh)
            &&& holds_whole_faces(mesh)
            &&& mesh.statistics.positions_visited <= section * 4096 + p
        },
    decreases section, p,
{
    if p <= 0 {
        if section > 0 {
            lemma_statistics_add_up(context, chunk, coordinate, fluids, section - 1, 4096);
        }
    } else {
        lemma_statistics_add_up(context, chunk, coordinate, fluids, section, p - 1);
        if let Some((mesh, wet)) = after_blocks(
            context,
            chunk,
            coordinate,
            fluids,
            section,
            p - 1,
        ) {
            let (lx, ly, lz) = (local_x(p - 1), local_y(p - 1), local_z(p - 1));
            if let Some(id) = chunk.sections@[section].block_spec(lx, ly, lz) {
                lemma_visit_is_counted(
                    context,
                    mesh,
                    coordinate.x * 16 + lx,
                    context.geometry.min_y + section * 16 + ly,
                    coordinate.z * 16 + lz,
                    context.states.models(id as int),
                    fluid_faces_of(fluids, wet),
                );
            }
        }
    }
}

/// The blocks of a section are visited row by row and layer by layer, each once: the
/// position of a block and its number in this order say the same.
pub proof fn lemma_blocks_are_visited_in_rows(p: int, x: int, y: int, z: int)
    requires
        0 <= p < 4096,
        0 <= x < 16,
        0 <= y < 16,
        0 <= z < 16,
    ensures
        0 <= local_x(p) < 16,
        0 <= local_y(p) < 16,
        0 <= local_z(p) < 16,
        (local_x(p) == x && local_y(p) == y && local_z(p) == z) <==> p == y * 256 + z * 16 + x,
{
    assert(p == local_y(p) * 256 + local_z(p) * 16 + local_x(p));
}

/// A chunk lies in the world where all its blocks and those around them have coordinates.
pub proof fn lemma_world_holds_whole_chunks(
    coordinate: ChunkCoordinate,
    geometry: DimensionGeometry,
)
    ensures
        in_world(coordinate, geometry) <==> {
            &&& i32::MIN + 16 <= 16 * coordinate.x && 16 * coordinate.x + 31 <= i32::MAX
            &&& i32::MIN + 16 <= 16 * coordinate.z && 16 * coordinate.z + 31 <= i32::MAX
            &&& i32::MIN + 2 <= geometry.min_y && geometry.min_y + geometry.height < i32::MAX
        },
{
}

/// Sections are visited from the lowest on, block by block. An empty section adds nothing,
/// and any other adds each of its blocks where it stands in the world.
pub proof fn lemma_sections_are_visited_from_below(
    context: MeshContext,
    chunk: Chunk,
    coordinate: ChunkCoordinate,
    fluids: Seq<Vec<FluidQuad>>,
    section: int,
    p: int,
)
    requires
        0 <= section < chunk.sections@.len(),
        0 <= p < 4096,
    ensures
        after_blocks(context, chunk, coordinate, fluids, 0, 0) == Some((empty_mesh(), 0int)),
        after_blocks(context, chunk, coordinate, fluids, section + 1, 0) == after_blocks(
            context,
            chunk,
            coordinate,
            fluids,
            section,
            4096,
        ),
        ({
            let before = after_blocks(context, chunk, coordinate, fluids, section, p);
            let after = after_blocks(context, chunk, coordinate, fluids, section, p + 1);
            &&& before is None ==> after is None
            &&& chunk.sections@[section].non_empty_block_count == 0 ==> after == before
            &&& before matches Some((mesh, wet)) ==> chunk.sections@[section].non_empty_block_count
                != 0 ==> (match chunk.sections@[section].block_spec(
                local_x(p),
                local_y(p),
                local_z(p),
            ) {
                None => after == before,
                Some(id) => {
                    let x = 16 * coordinate.x + p % 16;
                    let y = context.geometry.min_y + 16 * section + p / 256;
                    let z = 16 * coordinate.z + p / 16 % 16;
                    let state = context.states.models(id as int);
                    let next = visited(context, mesh, x, y, z, state, fluid_faces_of(fluids, wet));
                    &&& after is None <==> next is None
                    &&& next matches Some(next) ==> after == Some(
                        (
                            next,
                            if state.fluid is Some && is_meshed(context, x, y, z, state) {
                                wet + 1
                            } else {
                                wet
                            },
                        ),
                    )
                },
            })
        }),
{
    reveal_with_fuel(after_blocks, 2);
}

/// The fluids of a chunk are met in the order in which its blocks are visited, each where
/// its block stands.
pub proof fn lemma_fluids_are_met_where_they_stand(
    context: MeshContext,
    chunk: Chunk,
    coordinate: ChunkCoordinate,
    section: int,
    p: int,
)
    requires
        0 <= section < chunk.sections@.len(),
        0 <= p < 4096,
    ensures
        ({
            let before = fluid_places(context, chunk, coordinate, section, p);
            let after = fluid_places(context, chunk, coordinate, section, p + 1);
            &&& after.len() == before.len() || after.len() == before.len() + 1
            &&& after.take(before.len() as int) == before
            &&& after.len() > before.len() ==> {
                &&& after.last().x == 16 * coordinate.x + p % 16
                &&& after.last().y == context.geometry.min_y + 16 * section + p / 256
                &&& after.last().z == 16 * coordinate.z + p / 16 % 16
                &&& chunk.sections@[section].block_spec(
                    local_x(p),
                    local_y(p),
                    local_z(p),
                ) matches Some(id) && context.states.models(id as int).fluid == Some(
                    after.last().fluid,
                )
            }
        }),
{
    let before = fluid_places(context, chunk, coordinate, section, p);
    let after = fluid_places(context, chunk, coordinate, section, p + 1);
    assert(after.take(before.len() as int) =~= before);
}

} // verus!
