//! Chunk storage and the block, biome and light at a world position.

use vstd::prelude::*;

verus! {

#[derive(Clone, Copy, Debug, PartialEq, Eq, Structural)]
pub struct ChunkCoordinate {
    pub x: i32,
    pub z: i32,
}

impl ChunkCoordinate {
    pub fn new(x: i32, z: i32) -> (coordinate: Self)
        ensures
            coordinate.x == x && coordinate.z == z,
    {
        ChunkCoordinate { x, z }
    }
}

#[derive(Clone, Copy, Debug, PartialEq, Eq, Structural)]
pub struct RuntimeBlockStateId(pub u32);

/// The vertical extent of a dimension: its lowest block and its height.
#[derive(Clone, Copy, Debug, PartialEq, Eq, Structural)]
pub struct DimensionGeometry {
    pub min_y: i32,
    pub height: u32,
}

impl DimensionGeometry {
    pub fn section_count(&self) -> (count: usize)
        ensures
            count == self.height / 16,
    {
        (self.height / 16) as usize
    }
}

/// Values by index: one value for every index below `entries`, or a list.
#[derive(Clone, Debug)]
pub enum PalettedContainer {
    Single { value: u32, entries: usize },
    Direct { values: Vec<u32> },
}

impl PalettedContainer {
    pub open spec fn value_at(&self, index: int) -> Option<u32> {
        match self {
            PalettedContainer::Single { value, entries } => if 0 <= index < *entries {
                Some(*value)
            } else {
                None
            },
            PalettedContainer::Direct { values } => if 0 <= index < values@.len() {
                Some(values@[index])
            } else {
                None
            },
        }
    }

    pub fn get(&self, index: usize) -> (value: Option<u32>)
        ensures
            value == self.value_at(index as int),
    {
        match self {
            PalettedContainer::Single { value, entries } => if index < *entries {
                Some(*value)
            } else {
                None
            },
            PalettedContainer::Direct { values } => if index < values.len() {
                Some(values[index])
            } else {
                None
            },
        }
    }
}

/// Sixteen blocks in every direction: 4096 block states, in the order Y, Z, X,
/// and 64 biomes in cells of four blocks in the same order.
#[derive(Clone, Debug)]
pub struct ChunkSection {
    pub non_empty_block_count: u16,
    pub blocks: PalettedContainer,
    pub biomes: PalettedContainer,
}

impl ChunkSection {
    pub open spec fn block_spec(&self, x: int, y: int, z: int) -> Option<u32> {
        if 0 <= x < 16 && 0 <= y < 16 && 0 <= z < 16 {
            self.blocks.value_at(y * 256 + z * 16 + x)
        } else {
            None
        }
    }

    pub fn block(&self, x: usize, y: usize, z: usize) -> (state: Option<RuntimeBlockStateId>)
        ensures
            state matches Some(id) ==> self.block_spec(x as int, y as int, z as int) == Some(id.0),
            state is None ==> self.block_spec(x as int, y as int, z as int) is None,
    {
        if x < 16 && y < 16 && z < 16 {
            match self.blocks.get(y * 256 + z * 16 + x) {
                Some(value) => Some(RuntimeBlockStateId(value)),
                None => None,
            }
        } else {
            None
        }
    }

    pub open spec fn biome_spec(&self, x: int, y: int, z: int) -> Option<u32> {
        if 0 <= x < 4 && 0 <= y < 4 && 0 <= z < 4 {
            self.biomes.value_at(y * 16 + z * 4 + x)
        } else {
            None
        }
    }

    pub fn biome(&self, x: usize, y: usize, z: usize) -> (biome: Option<u32>)
        ensures
            biome == self.biome_spec(x as int, y as int, z as int),
    {
        if x < 4 && y < 4 && z < 4 {
            self.biomes.get(y * 16 + z * 4 + x)
        } else {
            None
        }
    }
}

/// Light levels from 0 to 15 by section, in the order Y, Z, X; a section whose
/// light is not known has none.
#[derive(Clone, Debug)]
pub struct LightLevels {
    pub sections: Vec<Option<Vec<u8>>>,
}

impl LightLevels {
    pub open spec fn level(&self, section: int, x: int, y: int, z: int) -> Option<u8> {
        if 0 <= section < self.sections@.len() {
            match self.sections@[section] {
                Some(levels) => {
                    let index = y * 256 + z * 16 + x;
                    if 0 <= index < levels@.len() {
                        Some(levels@[index])
                    } else {
                        None
                    }
                },
                None => None,
            }
        } else {
            None
        }
    }

    pub fn get(&self, section: usize, x: usize, y: usize, z: usize) -> (level: Option<u8>)
        requires
            x < 16 && y < 16 && z < 16,
        ensures
            level == self.level(section as int, x as int, y as int, z as int),
    {
        if section < self.sections.len() {
            match &self.sections[section] {
                Some(levels) => {
                    let index: usize = y * 256 + z * 16 + x;
                    if index < levels.len() {
                        Some(levels[index])
                    } else {
                        None
                    }
                },
                None => None,
            }
        } else {
            None
        }
    }
}

#[derive(Clone, Debug)]
pub struct Chunk {
    pub coordinate: ChunkCoordinate,
    pub sections: Vec<ChunkSection>,
    pub sky_light: LightLevels,
    pub block_light: LightLevels,
}

/// The chunks that a mesh may read, by coordinate.
#[derive(Clone, Debug)]
pub struct ChunkMap {
    pub chunks: Vec<Chunk>,
}

/// The first chunk at a coordinate among those from `from` on.
pub open spec fn chunk_from(chunks: Seq<Chunk>, x: int, z: int, from: int) -> Option<Chunk>
    decreases chunks.len() - from,
{
    if from < 0 || from >= chunks.len() {
        None
    } else if chunks[from].coordinate.x == x && chunks[from].coordinate.z == z {
        Some(chunks[from])
    } else {
        chunk_from(chunks, x, z, from + 1)
    }
}

impl ChunkMap {
    pub open spec fn chunk_at(&self, x: int, z: int) -> Option<Chunk> {
        chunk_from(self.chunks@, x, z, 0)
    }

    pub fn get(&self, coordinate: ChunkCoordinate) -> (chunk: Option<&Chunk>)
        ensures
            match chunk {
                Some(found) => self.chunk_at(coordinate.x as int, coordinate.z as int) == Some(
                    *found,
                ),
                None => self.chunk_at(coordinate.x as int, coordinate.z as int) is None,
            },
    {
        let mut i: usize = 0;
        while i < self.chunks.len()
            invariant
                i <= self.chunks@.len(),
                self.chunk_at(coordinate.x as int, coordinate.z as int) == chunk_from(
                    self.chunks@,
                    coordinate.x as int,
                    coordinate.z as int,
                    i as int,
                ),
            decreases self.chunks@.len() - i,
        {
            if self.chunks[i].coordinate.x == coordinate.x && self.chunks[i].coordinate.z
                == coordinate.z {
                return Some(&self.chunks[i]);
            }
            i += 1;
        }
        None
    }
}

/// The largest multiple of sixteen not above `value`, divided by sixteen.
pub fn floor_sixteenth(value: i32) -> (quotient: i32)
    ensures
        quotient == value as int / 16,
{
    if value >= 0 {
        value / 16
    } else {
        -1 - (-1 - value) / 16
    }
}

/// Where `value` lies within its run of sixteen.
pub fn within_sixteen(value: i32) -> (remainder: usize)
    ensures
        remainder == value as int % 16,
        remainder < 16,
{
    let quotient: i32 = floor_sixteenth(value);
    (value - quotient * 16) as usize
}

/// The height of `y` above the bottom of the dimension, where it lies in it.
pub open spec fn depth_in(geometry: DimensionGeometry, y: int) -> Option<int> {
    let relative = y - geometry.min_y;
    if 0 <= relative < geometry.height && relative <= i32::MAX {
        Some(relative)
    } else {
        None
    }
}

pub fn relative_height(geometry: DimensionGeometry, y: i32) -> (relative: Option<usize>)
    ensures
        match relative {
            Some(value) => depth_in(geometry, y as int) == Some(value as int),
            None => depth_in(geometry, y as int) is None,
        },
{
    match y.checked_sub(geometry.min_y) {
        Some(relative) => {
            if relative < 0 || relative as u32 >= geometry.height {
                None
            } else {
                Some(relative as usize)
            }
        },
        None => None,
    }
}

/// The state of the block at a position, where its section is loaded.
pub open spec fn state_at(
    chunks: &ChunkMap,
    geometry: DimensionGeometry,
    x: int,
    y: int,
    z: int,
) -> Option<u32> {
    match depth_in(geometry, y) {
        None => None,
        Some(relative) => match chunks.chunk_at(x / 16, z / 16) {
            None => None,
            Some(chunk) => if relative / 16 < chunk.sections@.len() {
                chunk.sections@[relative / 16].block_spec(x % 16, relative % 16, z % 16)
            } else {
                None
            },
        },
    }
}

pub fn block_at(chunks: &ChunkMap, geometry: DimensionGeometry, x: i32, y: i32, z: i32) -> (state:
    Option<RuntimeBlockStateId>)
    ensures
        state matches Some(id) ==> state_at(chunks, geometry, x as int, y as int, z as int) == Some(
            id.0,
        ),
        state is None ==> state_at(chunks, geometry, x as int, y as int, z as int) is None,
{
    let relative: usize = match relative_height(geometry, y) {
        Some(relative) => relative,
        None => return None,
    };
    let coordinate: ChunkCoordinate = ChunkCoordinate::new(floor_sixteenth(x), floor_sixteenth(z));
    let chunk: &Chunk = match chunks.get(coordinate) {
        Some(chunk) => chunk,
        None => return None,
    };
    let section: usize = relative / 16;
    if section >= chunk.sections.len() {
        return None;
    }
    chunk.sections[section].block(within_sixteen(x), relative % 16, within_sixteen(z))
}

/// The biome at a position, where its section is loaded.
pub open spec fn biome_id_at(
    chunks: &ChunkMap,
    geometry: DimensionGeometry,
    x: int,
    y: int,
    z: int,
) -> Option<u32> {
    match depth_in(geometry, y) {
        None => None,
        Some(relative) => match chunks.chunk_at(x / 16, z / 16) {
            None => None,
            Some(chunk) => if relative / 16 < chunk.sections@.len() {
                chunk.sections@[relative / 16].biome_spec(
                    (x % 16) / 4,
                    (relative % 16) / 4,
                    (z % 16) / 4,
                )
            } else {
                None
            },
        },
    }
}

pub fn biome_at(chunks: &ChunkMap, geometry: DimensionGeometry, x: i32, y: i32, z: i32) -> (biome:
    Option<u32>)
    ensures
        biome == biome_id_at(chunks, geometry, x as int, y as int, z as int),
{
    let relative: usize = match relative_height(geometry, y) {
        Some(relative) => relative,
        None => return None,
    };
    let coordinate: ChunkCoordinate = ChunkCoordinate::new(floor_sixteenth(x), floor_sixteenth(z));
    let chunk: &Chunk = match chunks.get(coordinate) {
        Some(chunk) => chunk,
        None => return None,
    };
    let section: usize = relative / 16;
    if section >= chunk.sections.len() {
        return None;
    }
    chunk.sections[section].biome(within_sixteen(x) / 4, (relative % 16) / 4, within_sixteen(z) / 4)
}

pub open spec fn larger(a: int, b: int) -> int {
    if a >= b {
        a
    } else {
        b
    }
}

pub open spec fn known_or_dark(level: Option<u8>) -> int {
    match level {
        Some(value) => value as int,
        None => 0,
    }
}

/// The light level at a position: the brighter of sky and block light, and full
/// light where neither is known.
pub open spec fn light_at(
    chunks: &ChunkMap,
    geometry: DimensionGeometry,
    x: int,
    y: int,
    z: int,
) -> int {
    match depth_in(geometry, y) {
        None => 15,
        Some(relative) => match chunks.chunk_at(x / 16, z / 16) {
            None => 15,
            Some(chunk) => {
                let sky = chunk.sky_light.level(relative / 16, x % 16, relative % 16, z % 16);
                let block = chunk.block_light.level(relative / 16, x % 16, relative % 16, z % 16);
                if sky is None && block is None {
                    15
                } else {
                    larger(known_or_dark(sky), known_or_dark(block))
                }
            },
        },
    }
}

pub fn sample_light(chunks: &ChunkMap, geometry: DimensionGeometry, x: i32, y: i32, z: i32) -> (level:
    u8)
    ensures
        level == light_at(chunks, geometry, x as int, y as int, z as int),
{
    let relative: usize = match relative_height(geometry, y) {
        Some(relative) => relative,
        None => return 15,
    };
    let coordinate: ChunkCoordinate = ChunkCoordinate::new(floor_sixteenth(x), floor_sixteenth(z));
    let chunk: &Chunk = match chunks.get(coordinate) {
        Some(chunk) => chunk,
        None => return 15,
    };
    let section: usize = relative / 16;
    let local_x: usize = within_sixteen(x);
    let local_y: usize = relative % 16;
    let local_z: usize = within_sixteen(z);
    let sky: Option<u8> = chunk.sky_light.get(section, local_x, local_y, local_z);
    let block: Option<u8> = chunk.block_light.get(section, local_x, local_y, local_z);
    match (sky, block) {
        (None, None) => 15,
        (Some(level), None) => level,
        (None, Some(level)) => level,
        (Some(sky_level), Some(block_level)) => if sky_level >= block_level {
            sky_level
        } else {
            block_level
        },
    }
}

/// A block of a loaded chunk is found at its place in the world, on either side of
/// zero.
pub proof fn lemma_loaded_block_is_found(
    chunks: &ChunkMap,
    geometry: DimensionGeometry,
    chunk: Chunk,
    section: int,
    x: int,
    y: int,
    z: int,
)
    requires
        chunks.chunk_at(chunk.coordinate.x as int, chunk.coordinate.z as int) == Some(chunk),
        0 <= section < chunk.sections@.len(),
        0 <= x < 16,
        0 <= y < 16,
        0 <= z < 16,
        section * 16 + y < geometry.height,
        section * 16 + y <= i32::MAX,
    ensures
        state_at(
            chunks,
            geometry,
            chunk.coordinate.x * 16 + x,
            geometry.min_y + section * 16 + y,
            chunk.coordinate.z * 16 + z,
        ) == chunk.sections@[section].block_spec(x, y, z),
{
}

/// A container with one value for all has it at every index, and a list has each
/// value at its own index; neither has anything beyond its end.
pub proof fn lemma_containers_hold_their_values(container: PalettedContainer, index: int)
    ensures
        match container {
            PalettedContainer::Single { value, entries } => {
                &&& container.value_at(index) is Some <==> 0 <= index < entries
                &&& container.value_at(index) matches Some(found) ==> found == value
            },
            PalettedContainer::Direct { values } => {
                &&& container.value_at(index) is Some <==> 0 <= index < values@.len()
                &&& container.value_at(index) matches Some(found) ==> found == values@[index]
            },
        },
{
}

/// The `index`-th block of a section lies `index % 16` blocks to the east, and of the
/// rows of sixteen, sixteen to a layer, it lies in the next to the south with each
/// row and in the next above with each layer. Nothing lies outside the section.
pub proof fn lemma_blocks_lie_in_rows_and_layers(section: ChunkSection, index: int)
    ensures
        0 <= index < 4096 ==> section.block_spec(index % 16, index / 256, (index / 16) % 16)
            == section.blocks.value_at(index),
        forall|x: int, y: int, z: int|
            (x < 0 || x >= 16 || y < 0 || y >= 16 || z < 0 || z >= 16)
                ==> #[trigger] section.block_spec(x, y, z) is None,
{
}

/// Biomes lie in cells of a section as blocks do, four to a row and to a layer.
pub proof fn lemma_biomes_lie_in_rows_and_layers(section: ChunkSection, index: int)
    ensures
        0 <= index < 64 ==> section.biome_spec(index % 4, index / 16, (index / 4) % 4)
            == section.biomes.value_at(index),
        forall|x: int, y: int, z: int|
            (x < 0 || x >= 4 || y < 0 || y >= 4 || z < 0 || z >= 4)
                ==> #[trigger] section.biome_spec(x, y, z) is None,
{
}

/// The `index`-th light level of a section is that of its `index`-th block, and a
/// section without light has no levels.
pub proof fn lemma_light_lies_in_rows_and_layers(light: LightLevels, section: int, index: int)
    requires
        0 <= index < 4096,
    ensures
        ({
            let level = light.level(section, index % 16, index / 256, (index / 16) % 16);
            if 0 <= section < light.sections@.len() {
                match light.sections@[section] {
                    Some(levels) => {
                        &&& level is Some <==> index < levels@.len()
                        &&& level matches Some(found) ==> found == levels@[index]
                    },
                    None => level is None,
                }
            } else {
                level is None
            }
        }),
{
}

proof fn lemma_chunk_from(chunks: Seq<Chunk>, x: int, z: int, from: int, i: int)
    requires
        0 <= from,
        forall|k: int|
            from <= k < i ==> !((#[trigger] chunks[k]).coordinate.x == x && chunks[k].coordinate.z
                == z),
        from <= i <= chunks.len(),
        i < chunks.len() ==> chunks[i].coordinate.x == x && chunks[i].coordinate.z == z,
    ensures
        chunk_from(chunks, x, z, from) == (if i < chunks.len() {
            Some(chunks[i])
        } else {
            None
        }),
    decreases i - from,
{
    if from < i {
        lemma_chunk_from(chunks, x, z, from + 1, i);
    }
}

/// The chunk at a coordinate is the first with that coordinate; there is none exactly
/// where no chunk has it.
pub proof fn lemma_chunks_are_found_by_coordinate(chunks: &ChunkMap, x: int, z: int)
    ensures
        forall|i: int|
            0 <= i < chunks.chunks@.len() && (#[trigger] chunks.chunks@[i]).coordinate.x == x
                && chunks.chunks@[i].coordinate.z == z && (forall|k: int|
                0 <= k < i ==> !((#[trigger] chunks.chunks@[k]).coordinate.x == x
                    && chunks.chunks@[k].coordinate.z == z)) ==> chunks.chunk_at(x, z) == Some(
                chunks.chunks@[i],
            ),
        chunks.chunk_at(x, z) is None <==> forall|k: int|
            0 <= k < chunks.chunks@.len() ==> !((#[trigger] chunks.chunks@[k]).coordinate.x == x
                && chunks.chunks@[k].coordinate.z == z),
{
    let all = chunks.chunks@;
    assert forall|i: int|
        0 <= i < all.len() && (#[trigger] all[i]).coordinate.x == x && all[i].coordinate.z == z
            && (forall|k: int|
            0 <= k < i ==> !((#[trigger] all[k]).coordinate.x == x && all[k].coordinate.z
                == z)) implies chunks.chunk_at(x, z) == Some(all[i]) by {
        lemma_chunk_from(all, x, z, 0, i);
    }
    if forall|k: int|
        0 <= k < all.len() ==> !((#[trigger] all[k]).coordinate.x == x && all[k].coordinate.z
            == z) {
        lemma_chunk_from(all, x, z, 0, all.len() as int);
    } else {
        lemma_some_chunk(all, x, z, 0);
    }
}

proof fn lemma_some_chunk(chunks: Seq<Chunk>, x: int, z: int, from: int)
    requires
        0 <= from,
        exists|k: int|
            from <= k < chunks.len() && (#[trigger] chunks[k]).coordinate.x == x
                && chunks[k].coordinate.z == z,
    ensures
        chunk_from(chunks, x, z, from) is Some,
    decreases chunks.len() - from,
{
    if !(chunks[from].coordinate.x == x && chunks[from].coordinate.z == z) {
        lemma_some_chunk(chunks, x, z, from + 1);
    }
}

/// The biome of a block of a loaded chunk is that of the cell of four blocks in which
/// it lies, on either side of zero.
pub proof fn lemma_loaded_biome_is_found(
    chunks: &ChunkMap,
    geometry: DimensionGeometry,
    chunk: Chunk,
    section: int,
    x: int,
    y: int,
    z: int,
)
    requires
        chunks.chunk_at(chunk.coordinate.x as int, chunk.coordinate.z as int) == Some(chunk),
        0 <= section < chunk.sections@.len(),
        0 <= x < 16,
        0 <= y < 16,
        0 <= z < 16,
        section * 16 + y < geometry.height,
        section * 16 + y <= i32::MAX,
    ensures
        biome_id_at(
            chunks,
            geometry,
            chunk.coordinate.x * 16 + x,
            geometry.min_y + section * 16 + y,
            chunk.coordinate.z * 16 + z,
        ) == chunk.sections@[section].biome_spec(x / 4, y / 4, z / 4),
{
}

/// There are no blocks and no biomes below the bottom of the dimension, from its top
/// on, or where no chunk is loaded, and all of that is fully lit.
pub proof fn lemma_nothing_is_outside(
    chunks: &ChunkMap,
    geometry: DimensionGeometry,
    x: int,
    y: int,
    z: int,
)
    requires
        y < geometry.min_y || y >= geometry.min_y + geometry.height || chunks.chunk_at(
            x / 16,
            z / 16,
        ) is None,
    ensures
        state_at(chunks, geometry, x, y, z) is None,
        biome_id_at(chunks, geometry, x, y, z) is None,
        light_at(chunks, geometry, x, y, z) == 15,
{
}

/// The light of a block of a loaded chunk is the brighter of its sky light and its
/// block light: at least as bright as each that is known, and as bright as one of
/// them. Where neither is known it is full.
pub proof fn lemma_light_is_the_brighter_one(
    chunks: &ChunkMap,
    geometry: DimensionGeometry,
    chunk: Chunk,
    section: int,
    x: int,
    y: int,
    z: int,
)
    requires
        chunks.chunk_at(chunk.coordinate.x as int, chunk.coordinate.z as int) == Some(chunk),
        0 <= section,
        0 <= x < 16,
        0 <= y < 16,
        0 <= z < 16,
        section * 16 + y < geometry.height,
        section * 16 + y <= i32::MAX,
    ensures
        ({
            let light = light_at(
                chunks,
                geometry,
                chunk.coordinate.x * 16 + x,
                geometry.min_y + section * 16 + y,
                chunk.coordinate.z * 16 + z,
            );
            let sky = chunk.sky_light.level(section, x, y, z);
            let block = chunk.block_light.level(section, x, y, z);
            &&& sky matches Some(level) ==> light >= level
            &&& block matches Some(level) ==> light >= level
            &&& sky is Some || block is Some ==> (sky matches Some(level) && light == level) || (
            block matches Some(level) && light == level)
            &&& sky is None && block is None ==> light == 15
        }),
{
}

} // verus!
