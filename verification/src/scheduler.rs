//! Which chunks are meshed, when, and whose meshes are kept.

use crate::grid::ChunkCoordinate;
use crate::statistics::{saturated, CpuTime, MeshStatistics};
use vstd::prelude::*;

verus! {

pub const MAX_PENDING_MESH_JOBS: usize = 32;

pub const MAX_MESH_RESULTS_PER_PREPARE: usize = 16;

pub const MAX_MESH_DISPATCHES_PER_PREPARE: usize = 8;

/// Four milliseconds.
pub const MESH_INTEGRATION_NANOSECONDS: u32 = 4_000_000;

pub open spec fn keys_distinct<T>(entries: Seq<(ChunkCoordinate, T)>) -> bool {
    forall|i: int, j: int|
        0 <= i < j < entries.len() ==> (#[trigger] entries[i]).0 != (#[trigger] entries[j]).0
}

pub open spec fn has_key<T>(entries: Seq<(ChunkCoordinate, T)>, key: ChunkCoordinate) -> bool {
    exists|i: int| 0 <= i < entries.len() && (#[trigger] entries[i]).0 == key
}

pub open spec fn key_place<T>(entries: Seq<(ChunkCoordinate, T)>, key: ChunkCoordinate) -> int {
    choose|i: int| 0 <= i < entries.len() && (#[trigger] entries[i]).0 == key
}

/// Values by chunk.
#[derive(Debug)]
pub struct ChunkTable<T> {
    pub entries: Vec<(ChunkCoordinate, T)>,
}

impl<T> View for ChunkTable<T> {
    type V = Map<ChunkCoordinate, T>;

    open spec fn view(&self) -> Map<ChunkCoordinate, T> {
        Map::new(
            |key: ChunkCoordinate| has_key(self.entries@, key),
            |key: ChunkCoordinate| self.entries@[key_place(self.entries@, key)].1,
        )
    }
}

proof fn lemma_entry<T>(table: ChunkTable<T>, i: int)
    requires
        table.well_formed(),
        0 <= i < table.entries@.len(),
    ensures
        table@.contains_key(table.entries@[i].0),
        table@[table.entries@[i].0] == table.entries@[i].1,
{
    let key = table.entries@[i].0;
    assert(has_key(table.entries@, key));
    let j = key_place(table.entries@, key);
    assert(table.entries@[j].0 == key);
    if i < j {
        assert(table.entries@[i].0 != table.entries@[j].0);
    } else if j < i {
        assert(table.entries@[j].0 != table.entries@[i].0);
    }
}

proof fn lemma_key<T>(table: ChunkTable<T>, key: ChunkCoordinate) -> (i: int)
    requires
        table@.contains_key(key),
    ensures
        0 <= i < table.entries@.len(),
        table.entries@[i].0 == key,
{
    assert(has_key(table.entries@, key));
    key_place(table.entries@, key)
}

impl<T> ChunkTable<T> {
    /// Every chunk is listed once.
    pub open spec fn well_formed(self) -> bool {
        keys_distinct(self.entries@)
    }

    pub fn new() -> (table: Self)
        ensures
            table.well_formed(),
            table@ == Map::<ChunkCoordinate, T>::empty(),
            table.entries@.len() == 0,
    {
        let table: ChunkTable<T> = ChunkTable { entries: Vec::new() };
        assert(table@ =~= Map::<ChunkCoordinate, T>::empty());
        table
    }

    fn find(&self, key: ChunkCoordinate) -> (at: Option<usize>)
        ensures
            match at {
                Some(at) => at < self.entries@.len() && self.entries@[at as int].0 == key,
                None => !self@.contains_key(key),
            },
    {
        let mut i: usize = 0;
        while i < self.entries.len()
            invariant
                i <= self.entries@.len(),
                forall|k: int| 0 <= k < i ==> (#[trigger] self.entries@[k]).0 != key,
            decreases self.entries@.len() - i,
        {
            if self.entries[i].0 == key {
                return Some(i);
            }
            i += 1;
        }
        None
    }

    pub fn contains(&self, key: ChunkCoordinate) -> (yes: bool)
        ensures
            yes == self@.contains_key(key),
    {
        match self.find(key) {
            Some(at) => {
                assert(has_key(self.entries@, key)) by {
                    assert(self.entries@[at as int].0 == key);
                }
                true
            },
            None => false,
        }
    }

    pub fn get(&self, key: ChunkCoordinate) -> (value: Option<&T>)
        requires
            self.well_formed(),
        ensures
            match value {
                Some(value) => self@.contains_key(key) && *value == self@[key],
                None => !self@.contains_key(key),
            },
    {
        match self.find(key) {
            Some(at) => {
                proof {
                    lemma_entry(*self, at as int);
                }
                Some(&self.entries[at].1)
            },
            None => None,
        }
    }

    pub fn insert(&mut self, key: ChunkCoordinate, value: T)
        requires
            old(self).well_formed(),
        ensures
            final(self).well_formed(),
            final(self)@ == old(self)@.insert(key, value),
            final(self).entries@.len() == old(self).entries@.len() + (if old(self)@.contains_key(
                key,
            ) {
                0int
            } else {
                1
            }),
    {
        let ghost before = *self;
        match self.find(key) {
            Some(at) => {
                proof {
                    lemma_entry(before, at as int);
                }
                self.entries.set(at, (key, value));
                proof {
                    lemma_entry(*self, at as int);
                    assert forall|k: ChunkCoordinate| #[trigger]
                        self@.contains_key(k) == before@.insert(key, value).contains_key(k) && (
                    self@.contains_key(k) ==> self@[k] == before@.insert(key, value)[k]) by {
                        if self@.contains_key(k) {
                            let i = lemma_key(*self, k);
                            lemma_entry(*self, i);
                            if i != at {
                                assert(before.entries@[i] == self.entries@[i]);
                                lemma_entry(before, i);
                            }
                        } else if before@.contains_key(k) {
                            let i = lemma_key(before, k);
                            assert(self.entries@[i].0 == k);
                            lemma_entry(*self, i);
                        }
                    }
                }
            },
            None => {
                self.entries.push((key, value));
                proof {
                    assert forall|i: int, j: int| 0 <= i < j < self.entries@.len() implies (
                    #[trigger] self.entries@[i]).0 != (#[trigger] self.entries@[j]).0 by {
                        assert(before.entries@[i] == self.entries@[i]);
                        if j < before.entries@.len() {
                            assert(before.entries@[j] == self.entries@[j]);
                        } else {
                            lemma_entry(before, i);
                        }
                    }
                    lemma_entry(*self, before.entries@.len() as int);
                    assert forall|k: ChunkCoordinate| #[trigger]
                        self@.contains_key(k) == before@.insert(key, value).contains_key(k) && (
                    self@.contains_key(k) ==> self@[k] == before@.insert(key, value)[k]) by {
                        if self@.contains_key(k) {
                            let i = lemma_key(*self, k);
                            lemma_entry(*self, i);
                            if i < before.entries@.len() {
                                assert(before.entries@[i] == self.entries@[i]);
                                lemma_entry(before, i);
                            }
                        } else if before@.contains_key(k) {
                            let i = lemma_key(before, k);
                            assert(self.entries@[i] == before.entries@[i]);
                            lemma_entry(*self, i);
                        }
                    }
                }
            },
        }
        assert(self@ =~= before@.insert(key, value));
    }

    pub fn remove(&mut self, key: ChunkCoordinate)
        requires
            old(self).well_formed(),
        ensures
            final(self).well_formed(),
            final(self)@ == old(self)@.remove(key),
            final(self).entries@.len() == old(self).entries@.len() - (if old(self)@.contains_key(
                key,
            ) {
                1int
            } else {
                0
            }),
    {
        let ghost before = *self;
        match self.find(key) {
            Some(at) => {
                proof {
                    lemma_entry(before, at as int);
                }
                let _removed = self.entries.remove(at);
                proof {
                    assert forall|i: int| 0 <= i < self.entries@.len() implies #[trigger]
                    self.entries@[i] == before.entries@[(if i < at {
                        i
                    } else {
                        i + 1
                    })] by {}
                    assert forall|i: int, j: int| 0 <= i < j < self.entries@.len() implies (
                    #[trigger] self.entries@[i]).0 != (#[trigger] self.entries@[j]).0 by {
                        let bi = if i < at {
                            i
                        } else {
                            i + 1
                        };
                        let bj = if j < at {
                            j
                        } else {
                            j + 1
                        };
                        assert(before.entries@[bi].0 != before.entries@[bj].0);
                    }
                    assert forall|k: ChunkCoordinate| #[trigger]
                        self@.contains_key(k) == before@.remove(key).contains_key(k) && (
                    self@.contains_key(k) ==> self@[k] == before@.remove(key)[k]) by {
                        if self@.contains_key(k) {
                            let i = lemma_key(*self, k);
                            lemma_entry(*self, i);
                            let bi = if i < at {
                                i
                            } else {
                                i + 1
                            };
                            assert(before.entries@[bi] == self.entries@[i]);
                            lemma_entry(before, bi);
                            if bi < at {
                                assert(before.entries@[bi].0 != before.entries@[at as int].0);
                            } else {
                                assert(before.entries@[at as int].0 != before.entries@[bi].0);
                            }
                        } else if before@.contains_key(k) && k != key {
                            let i = lemma_key(before, k);
                            let ai = if i < at {
                                i
                            } else {
                                i - 1
                            };
                            assert(self.entries@[ai] == before.entries@[i]);
                            lemma_entry(*self, ai);
                        }
                    }
                }
            },
            None => {},
        }
        assert(self@ =~= before@.remove(key));
    }
}

/// A chunk has neighbours on all sides.
pub open spec fn is_inner(c: ChunkCoordinate) -> bool {
    i32::MIN < c.x < i32::MAX && i32::MIN < c.z < i32::MAX
}

/// A chunk and its four neighbours: to the west, east, north and south.
pub open spec fn around(c: ChunkCoordinate) -> Seq<ChunkCoordinate> {
    seq![
        c,
        ChunkCoordinate { x: (c.x - 1) as i32, z: c.z },
        ChunkCoordinate { x: (c.x + 1) as i32, z: c.z },
        ChunkCoordinate { x: c.x, z: (c.z - 1) as i32 },
        ChunkCoordinate { x: c.x, z: (c.z + 1) as i32 },
    ]
}

pub fn neighbors_including(c: ChunkCoordinate) -> (chunks: [ChunkCoordinate; 5])
    requires
        is_inner(c),
    ensures
        chunks@ == around(c),
{
    let chunks: [ChunkCoordinate; 5] = [
        c,
        ChunkCoordinate::new(c.x - 1, c.z),
        ChunkCoordinate::new(c.x + 1, c.z),
        ChunkCoordinate::new(c.x, c.z - 1),
        ChunkCoordinate::new(c.x, c.z + 1),
    ];
    assert(chunks@ =~= around(c));
    chunks
}

/// The revisions of chunks to be meshed, with a chunk and its neighbours.
pub open spec fn marked(
    dirty: Map<ChunkCoordinate, u64>,
    coordinate: ChunkCoordinate,
    revision: u64,
) -> Map<ChunkCoordinate, u64> {
    let chunks = around(coordinate);
    dirty.insert(chunks[0], revision).insert(chunks[1], revision).insert(
        chunks[2],
        revision,
    ).insert(chunks[3], revision).insert(chunks[4], revision)
}

/// Marks a chunk and its neighbours to be meshed.
pub fn mark_dirty_with_neighbors(
    dirty: &mut ChunkTable<u64>,
    coordinate: ChunkCoordinate,
    revision: u64,
)
    requires
        old(dirty).well_formed(),
        is_inner(coordinate),
    ensures
        final(dirty).well_formed(),
        final(dirty)@ == marked(old(dirty)@, coordinate, revision),
{
    let chunks: [ChunkCoordinate; 5] = neighbors_including(coordinate);
    dirty.insert(chunks[0], revision);
    dirty.insert(chunks[1], revision);
    dirty.insert(chunks[2], revision);
    dirty.insert(chunks[3], revision);
    dirty.insert(chunks[4], revision);
}

/// The urgency of a chunk: the square of its distance, then its place.
pub open spec fn priority(coordinate: ChunkCoordinate, origin: Option<ChunkCoordinate>) -> (
    int,
    int,
    int,
) {
    let distance = match origin {
        Some(origin) => (coordinate.x - origin.x) * (coordinate.x - origin.x) + (coordinate.z
            - origin.z) * (coordinate.z - origin.z),
        None => 0,
    };
    (distance, coordinate.x as int, coordinate.z as int)
}

/// The order of urgency.
pub open spec fn precedes(a: (int, int, int), b: (int, int, int)) -> bool {
    a.0 < b.0 || (a.0 == b.0 && (a.1 < b.1 || (a.1 == b.1 && a.2 < b.2)))
}

pub fn mesh_priority(coordinate: ChunkCoordinate, origin: Option<ChunkCoordinate>) -> (key: (
    u128,
    i32,
    i32,
))
    ensures
        (key.0 as int, key.1 as int, key.2 as int) == priority(coordinate, origin),
{
    let distance: u128 = match origin {
        Some(origin) => {
            let dx: i128 = coordinate.x as i128 - origin.x as i128;
            let dz: i128 = coordinate.z as i128 - origin.z as i128;
            assert(0 <= dx * dx <= 0x1_0000_0000 * 0x1_0000_0000) by (nonlinear_arith)
                requires
                    -0x1_0000_0000 <= dx <= 0x1_0000_0000,
            ;
            assert(0 <= dz * dz <= 0x1_0000_0000 * 0x1_0000_0000) by (nonlinear_arith)
                requires
                    -0x1_0000_0000 <= dz <= 0x1_0000_0000,
            ;
            (dx * dx + dz * dz) as u128
        },
        None => 0,
    };
    (distance, coordinate.x, coordinate.z)
}

/// A chunk that is to be meshed and is not being meshed.
pub open spec fn is_candidate(
    dirty: Map<ChunkCoordinate, u64>,
    pending: Map<ChunkCoordinate, ()>,
    coordinate: ChunkCoordinate,
) -> bool {
    dirty.contains_key(coordinate) && !pending.contains_key(coordinate)
}

/// The most urgent of the chunks that are to be meshed.
pub open spec fn is_next(
    dirty: Map<ChunkCoordinate, u64>,
    pending: Map<ChunkCoordinate, ()>,
    origin: Option<ChunkCoordinate>,
    coordinate: ChunkCoordinate,
) -> bool {
    &&& is_candidate(dirty, pending, coordinate)
    &&& forall|other: ChunkCoordinate| #[trigger]
        is_candidate(dirty, pending, other) && other != coordinate ==> precedes(
            priority(coordinate, origin),
            priority(other, origin),
        )
}

/// The most urgent chunk to be meshed, with its revision.
pub fn next_mesh_candidate(
    dirty: &ChunkTable<u64>,
    pending: &ChunkTable<()>,
    origin: Option<ChunkCoordinate>,
) -> (candidate: Option<(ChunkCoordinate, u64)>)
    requires
        dirty.well_formed(),
        pending.well_formed(),
    ensures
        match candidate {
            Some((coordinate, revision)) => is_next(dirty@, pending@, origin, coordinate)
                && revision == dirty@[coordinate],
            None => forall|other: ChunkCoordinate| !#[trigger] is_candidate(
                dirty@,
                pending@,
                other,
            ),
        },
{
    let mut best: Option<(ChunkCoordinate, u64)> = None;
    let mut i: usize = 0;
    while i < dirty.entries.len()
        invariant
            i <= dirty.entries@.len(),
            dirty.well_formed(),
            match best {
                Some((coordinate, revision)) => {
                    &&& is_candidate(dirty@, pending@, coordinate)
                    &&& revision == dirty@[coordinate]
                    &&& forall|k: int|
                        0 <= k < i && !pending@.contains_key((#[trigger] dirty.entries@[k]).0)
                            && dirty.entries@[k].0 != coordinate ==> precedes(
                            priority(coordinate, origin),
                            priority(dirty.entries@[k].0, origin),
                        )
                },
                None => forall|k: int|
                    0 <= k < i ==> pending@.contains_key((#[trigger] dirty.entries@[k]).0),
            },
        decreases dirty.entries@.len() - i,
    {
        let coordinate: ChunkCoordinate = dirty.entries[i].0;
        if !pending.contains(coordinate) {
            proof {
                lemma_entry(*dirty, i as int);
            }
            let better: bool = match best {
                Some((current, _)) => {
                    let a: (u128, i32, i32) = mesh_priority(coordinate, origin);
                    let b: (u128, i32, i32) = mesh_priority(current, origin);
                    a.0 < b.0 || (a.0 == b.0 && (a.1 < b.1 || (a.1 == b.1 && a.2 < b.2)))
                },
                None => true,
            };
            if better {
                best = Some((coordinate, dirty.entries[i].1));
            }
        }
        i += 1;
    }
    proof {
        assert forall|other: ChunkCoordinate| #[trigger]
            is_candidate(dirty@, pending@, other) implies exists|k: int|
            0 <= k < dirty.entries@.len() && (#[trigger] dirty.entries@[k]).0 == other by {
            let k = lemma_key(*dirty, other);
            assert(dirty.entries@[k].0 == other);
        }
    }
    best
}

/// The time that was taken is below the budget of one preparation.
pub open spec fn within_budget(elapsed: CpuTime) -> bool {
    elapsed.total() < MESH_INTEGRATION_NANOSECONDS
}

fn in_budget(elapsed: CpuTime) -> (yes: bool)
    requires
        elapsed.well_formed(),
    ensures
        yes == within_budget(elapsed),
{
    elapsed.seconds == 0 && elapsed.nanoseconds < MESH_INTEGRATION_NANOSECONDS
}

/// Whether one more result is taken.
pub open spec fn takes_results(completed: int, elapsed: CpuTime) -> bool {
    completed < MAX_MESH_RESULTS_PER_PREPARE && (completed == 0 || within_budget(elapsed))
}

/// Whether one more job is handed out.
pub open spec fn hands_out_jobs(dispatched: int, elapsed: CpuTime) -> bool {
    dispatched < MAX_MESH_DISPATCHES_PER_PREPARE && within_budget(elapsed)
}

/// Whether another finished mesh may be taken over: the first always, and more as
/// long as there is time.
pub fn mesh_integration_permitted(completed: usize, elapsed: CpuTime) -> (yes: bool)
    requires
        elapsed.well_formed(),
    ensures
        yes == takes_results(completed as int, elapsed),
        yes == (completed < MAX_MESH_RESULTS_PER_PREPARE && (completed == 0 || within_budget(
            elapsed,
        ))),
{
    completed < MAX_MESH_RESULTS_PER_PREPARE && (completed == 0 || in_budget(elapsed))
}

/// Whether another chunk may be sent off.
pub fn mesh_dispatch_permitted(dispatched: usize, elapsed: CpuTime) -> (yes: bool)
    requires
        elapsed.well_formed(),
    ensures
        yes == hands_out_jobs(dispatched as int, elapsed),
        yes == (dispatched < MAX_MESH_DISPATCHES_PER_PREPARE && within_budget(elapsed)),
{
    dispatched < MAX_MESH_DISPATCHES_PER_PREPARE && in_budget(elapsed)
}

/// Whether another chunk can be meshed at the same time.
pub fn mesh_dispatch_capacity_available(pending: usize) -> (yes: bool)
    ensures
        yes == (pending < MAX_PENDING_MESH_JOBS),
{
    pending < MAX_PENDING_MESH_JOBS
}

/// How many workers there are, and how many jobs wait for each.
pub open spec fn layout_of(available_parallelism: int) -> (int, int) {
    let workers = if available_parallelism < 1 {
        1int
    } else if available_parallelism > 4 {
        4
    } else {
        available_parallelism
    };
    (workers, (MAX_PENDING_MESH_JOBS - workers) / workers)
}

/// The number of workers, and how many jobs wait for each.
pub fn worker_layout(available_parallelism: usize) -> (layout: (usize, usize))
    ensures
        (layout.0 as int, layout.1 as int) == layout_of(available_parallelism as int),
        layout.0 == (if available_parallelism < 1 {
            1int
        } else if available_parallelism > 4 {
            4
        } else {
            available_parallelism as int
        }),
        layout.1 == (MAX_PENDING_MESH_JOBS - layout.0) / layout.0 as int,
        layout.1 >= 1,
        layout.0 * (layout.1 + 1) <= MAX_PENDING_MESH_JOBS,
{
    let workers: usize = if available_parallelism < 1 {
        1
    } else if available_parallelism > 4 {
        4
    } else {
        available_parallelism
    };
    let queued: usize = (MAX_PENDING_MESH_JOBS - workers) / workers;
    proof {
        if workers == 1 {
            assert(queued == 31);
        } else if workers == 2 {
            assert(queued == 15);
        } else if workers == 3 {
            assert(queued == 9);
        } else {
            assert(queued == 7);
        }
    }
    (workers, queued)
}

/// The lane that is tried after `offset` others.
pub fn lane_to_try(next_lane: usize, offset: usize, lanes: usize) -> (lane: usize)
    requires
        lanes > 0,
        next_lane < lanes,
        offset < lanes,
    ensures
        lane < lanes,
        lane == (next_lane + offset) % lanes as int,
{
    if offset < lanes - next_lane {
        proof {
            vstd::arithmetic::div_mod::lemma_fundamental_div_mod_converse(
                next_lane + offset,
                lanes as int,
                0,
                next_lane + offset,
            );
        }
        next_lane + offset
    } else {
        let lane: usize = offset - (lanes - next_lane);
        assert((next_lane + offset) % lanes as int == lane) by {
            vstd::arithmetic::div_mod::lemma_fundamental_div_mod_converse(
                next_lane + offset,
                lanes as int,
                1,
                lane as int,
            );
        }
        lane
    }
}

/// The lane that comes first the next time.
pub fn lane_after(lane: usize, lanes: usize) -> (next: usize)
    requires
        lane < lanes,
    ensures
        next < lanes,
        next == (if lane + 1 == lanes {
            0int
        } else {
            lane + 1
        }),
{
    if lane + 1 == lanes {
        0
    } else {
        lane + 1
    }
}

/// What to do for the next chunk.
#[derive(Clone, Copy, Debug, PartialEq, Eq, Structural)]
pub enum MeshDispatch {
    /// Nothing can or has to be done.
    Idle,
    /// The chunk is gone: its mesh is dropped.
    Forget(ChunkCoordinate),
    /// The chunk is to be sent off with its neighbours.
    Mesh { coordinate: ChunkCoordinate, revision: u64 },
}

/// Which chunks are loaded, to be meshed and being meshed. A generation is the
/// stay in one world; a revision is a state of a chunk and its neighbours.
#[derive(Debug)]
pub struct MeshScheduler {
    pub chunks: ChunkTable<()>,
    pub dirty: ChunkTable<u64>,
    pub pending: ChunkTable<()>,
    pub generation: u64,
    pub revision: u64,
}

pub open spec fn next_revision(revision: u64) -> u64 {
    if revision == u64::MAX {
        0
    } else {
        (revision + 1) as u64
    }
}

impl MeshScheduler {
    /// The chunks are listed once each, and no more are being meshed than the
    /// limit allows.
    pub open spec fn well_formed(self) -> bool {
        &&& self.chunks.well_formed()
        &&& self.dirty.well_formed()
        &&& self.pending.well_formed()
        &&& self.pending.entries@.len() <= MAX_PENDING_MESH_JOBS
    }

    pub fn new() -> (scheduler: Self)
        ensures
            scheduler.well_formed(),
            scheduler.chunks@ == Map::<ChunkCoordinate, ()>::empty(),
            scheduler.dirty@ == Map::<ChunkCoordinate, u64>::empty(),
            scheduler.pending@ == Map::<ChunkCoordinate, ()>::empty(),
            scheduler.generation == 0,
            scheduler.revision == 0,
    {
        MeshScheduler {
            chunks: ChunkTable::new(),
            dirty: ChunkTable::new(),
            pending: ChunkTable::new(),
            generation: 0,
            revision: 0,
        }
    }

    /// Begins an update. Everything is forgotten where the world is another one;
    /// the result tells whether it was.
    pub fn begin_update(&mut self, reset: bool, generation: u64) -> (forgotten: bool)
        requires
            old(self).well_formed(),
        ensures
            final(self).well_formed(),
            forgotten == (reset || generation != old(self).generation),
            if forgotten {
                &&& final(self).chunks@ == Map::<ChunkCoordinate, ()>::empty()
                &&& final(self).dirty@ == Map::<ChunkCoordinate, u64>::empty()
                &&& final(self).pending@ == Map::<ChunkCoordinate, ()>::empty()
                &&& final(self).generation == generation
                &&& final(self).revision == next_revision(old(self).revision)
            } else {
                *final(self) == *old(self)
            },
    {
        if reset || generation != self.generation {
            self.generation = generation;
            self.revision = self.revision.wrapping_add(1);
            self.chunks = ChunkTable::new();
            self.dirty = ChunkTable::new();
            self.pending = ChunkTable::new();
            true
        } else {
            false
        }
    }

    fn mark_with_neighbors(&mut self, coordinate: ChunkCoordinate)
        requires
            old(self).well_formed(),
            is_inner(coordinate),
        ensures
            final(self).well_formed(),
            final(self).chunks == old(self).chunks,
            final(self).pending == old(self).pending,
            final(self).generation == old(self).generation,
            final(self).revision == next_revision(old(self).revision),
            final(self).dirty@ == marked(old(self).dirty@, coordinate, final(self).revision),
    {
        self.revision = self.revision.wrapping_add(1);
        mark_dirty_with_neighbors(&mut self.dirty, coordinate, self.revision);
    }

    /// Takes a chunk in. It and its neighbours are to be meshed again.
    pub fn load(&mut self, coordinate: ChunkCoordinate)
        requires
            old(self).well_formed(),
            is_inner(coordinate),
        ensures
            final(self).well_formed(),
            final(self).chunks@ == old(self).chunks@.insert(coordinate, ()),
            final(self).pending@ == old(self).pending@,
            final(self).generation == old(self).generation,
            final(self).revision == next_revision(old(self).revision),
            final(self).dirty@ == marked(old(self).dirty@, coordinate, final(self).revision),
    {
        self.chunks.insert(coordinate, ());
        self.mark_with_neighbors(coordinate);
    }

    /// Lets a chunk go. Its neighbours are to be meshed again.
    pub fn unload(&mut self, coordinate: ChunkCoordinate)
        requires
            old(self).well_formed(),
            is_inner(coordinate),
        ensures
            final(self).well_formed(),
            final(self).chunks@ == old(self).chunks@.remove(coordinate),
            final(self).pending@ == old(self).pending@,
            final(self).generation == old(self).generation,
            final(self).revision == next_revision(old(self).revision),
            final(self).dirty@ == marked(old(self).dirty@, coordinate, final(self).revision),
    {
        self.chunks.remove(coordinate);
        self.mark_with_neighbors(coordinate);
    }

    /// Whether a finished mesh is of this world and of the last revision.
    pub open spec fn is_current(
        self,
        coordinate: ChunkCoordinate,
        generation: u64,
        revision: u64,
    ) -> bool {
        generation == self.generation && self.dirty@.contains_key(coordinate)
            && self.dirty@[coordinate] == revision
    }

    /// Takes note of a finished mesh. Only one that is current is to be used; its
    /// chunk is then up to date.
    pub fn integrate(&mut self, coordinate: ChunkCoordinate, generation: u64, revision: u64) -> (used:
        bool)
        requires
            old(self).well_formed(),
        ensures
            final(self).well_formed(),
            used == old(self).is_current(coordinate, generation, revision),
            final(self).pending@ == old(self).pending@.remove(coordinate),
            final(self).dirty@ == if used {
                old(self).dirty@.remove(coordinate)
            } else {
                old(self).dirty@
            },
            final(self).chunks@ == old(self).chunks@,
            final(self).generation == old(self).generation,
            final(self).revision == old(self).revision,
    {
        self.pending.remove(coordinate);
        let current: bool = generation == self.generation && match self.dirty.get(coordinate) {
            Some(wanted) => *wanted == revision,
            None => false,
        };
        if current {
            self.dirty.remove(coordinate);
        }
        current
    }

    /// What to do for the next chunk. A chunk that is gone is no longer to be
    /// meshed.
    pub fn next_dispatch(&mut self, origin: Option<ChunkCoordinate>) -> (dispatch: MeshDispatch)
        requires
            old(self).well_formed(),
        ensures
            final(self).well_formed(),
            final(self).chunks@ == old(self).chunks@,
            final(self).pending@ == old(self).pending@,
            final(self).pending.entries@.len() == old(self).pending.entries@.len(),
            final(self).generation == old(self).generation,
            final(self).revision == old(self).revision,
            match dispatch {
                MeshDispatch::Idle => {
                    &&& final(self).dirty@ == old(self).dirty@
                    &&& old(self).pending.entries@.len() >= MAX_PENDING_MESH_JOBS || forall|
                        other: ChunkCoordinate,
                    |
                        !#[trigger] is_candidate(old(self).dirty@, old(self).pending@, other)
                },
                MeshDispatch::Forget(coordinate) => {
                    &&& old(self).pending.entries@.len() < MAX_PENDING_MESH_JOBS
                    &&& is_next(old(self).dirty@, old(self).pending@, origin, coordinate)
                    &&& !old(self).chunks@.contains_key(coordinate)
                    &&& final(self).dirty@ == old(self).dirty@.remove(coordinate)
                },
                MeshDispatch::Mesh { coordinate, revision } => {
                    &&& old(self).pending.entries@.len() < MAX_PENDING_MESH_JOBS
                    &&& is_next(old(self).dirty@, old(self).pending@, origin, coordinate)
                    &&& old(self).chunks@.contains_key(coordinate)
                    &&& revision == old(self).dirty@[coordinate]
                    &&& final(self).dirty@ == old(self).dirty@
                },
            },
    {
        if !mesh_dispatch_capacity_available(self.pending.entries.len()) {
            return MeshDispatch::Idle;
        }
        match next_mesh_candidate(&self.dirty, &self.pending, origin) {
            Some((coordinate, revision)) => {
                if !self.chunks.contains(coordinate) {
                    self.dirty.remove(coordinate);
                    MeshDispatch::Forget(coordinate)
                } else {
                    MeshDispatch::Mesh { coordinate, revision }
                }
            },
            None => MeshDispatch::Idle,
        }
    }

    /// Takes note that a chunk was sent off.
    pub fn dispatched(&mut self, coordinate: ChunkCoordinate)
        requires
            old(self).well_formed(),
            old(self).pending.entries@.len() < MAX_PENDING_MESH_JOBS,
        ensures
            final(self).well_formed(),
            final(self).pending@ == old(self).pending@.insert(coordinate, ()),
            final(self).chunks@ == old(self).chunks@,
            final(self).dirty@ == old(self).dirty@,
            final(self).generation == old(self).generation,
            final(self).revision == old(self).revision,
    {
        self.pending.insert(coordinate, ());
    }

    /// Whether anything is left to do: meshes, where there are workers, or motion.
    pub fn has_pending_work(&self, has_workers: bool, interpolating: bool) -> (yes: bool)
        requires
            self.well_formed(),
        ensures
            yes == ((has_workers && (self.dirty.entries@.len() > 0 || self.pending.entries@.len()
                > 0)) || interpolating),
    {
        (has_workers && (self.dirty.entries.len() > 0 || self.pending.entries.len() > 0))
            || interpolating
    }
}

/// Once a chunk or one of its neighbours is marked with a new revision, no mesh of
/// an older one is used for it.
pub proof fn lemma_old_meshes_are_not_used(
    before: MeshScheduler,
    after: MeshScheduler,
    changed: ChunkCoordinate,
    k: int,
    generation: u64,
    revision: u64,
)
    requires
        is_inner(changed),
        0 <= k < 5,
        after.revision == next_revision(before.revision),
        after.dirty@ == marked(before.dirty@, changed, after.revision),
        revision != after.revision,
    ensures
        !after.is_current(around(changed)[k], generation, revision),
{
    assert(after.dirty@[around(changed)[k]] == after.revision);
}

/// The chunks of a change, and no others, are marked with its revision.
pub proof fn lemma_change_marks_both_sides(
    dirty: Map<ChunkCoordinate, u64>,
    changed: ChunkCoordinate,
    revision: u64,
    other: ChunkCoordinate,
)
    requires
        is_inner(changed),
    ensures
        around(changed).contains(other) ==> marked(dirty, changed, revision).contains_key(other)
            && marked(dirty, changed, revision)[other] == revision,
        !around(changed).contains(other) ==> (marked(dirty, changed, revision).contains_key(other)
            == dirty.contains_key(other) && marked(dirty, changed, revision)[other]
            == dirty[other]),
{
    let chunks = around(changed);
    if !chunks.contains(other) {
        assert(chunks[0] != other);
        assert(chunks[1] != other);
        assert(chunks[2] != other);
        assert(chunks[3] != other);
        assert(chunks[4] != other);
    }
}

/// The most urgent chunk is the only one.
pub proof fn lemma_next_is_unique(
    dirty: Map<ChunkCoordinate, u64>,
    pending: Map<ChunkCoordinate, ()>,
    origin: Option<ChunkCoordinate>,
    a: ChunkCoordinate,
    b: ChunkCoordinate,
)
    requires
        is_next(dirty, pending, origin, a),
        is_next(dirty, pending, origin, b),
    ensures
        a == b,
{
    assert(is_candidate(dirty, pending, a));
    assert(is_candidate(dirty, pending, b));
}

/// A report on the meshing of chunks.
#[derive(Clone, Copy, Debug)]
pub struct MeshProgressSnapshot {
    pub loaded: usize,
    pub meshed: usize,
    pub pending: usize,
    pub queued: usize,
    pub active: usize,
    pub completed: u64,
    pub completed_since_report: u64,
    pub total_cpu_time: CpuTime,
    pub maximum_cpu_time: CpuTime,
    pub statistics: MeshStatistics,
}

/// How meshing goes on.
#[derive(Clone, Copy, Debug)]
pub struct MeshProgress {
    pub last_info_completed: u64,
    pub completed: u64,
    pub total_cpu_time: CpuTime,
    pub maximum_cpu_time: CpuTime,
    pub statistics: MeshStatistics,
}

impl MeshProgress {
    pub open spec fn well_formed(self) -> bool {
        &&& self.total_cpu_time.well_formed()
        &&& self.maximum_cpu_time.well_formed()
        &&& self.statistics.cpu_time.well_formed()
    }

    pub fn new() -> (progress: Self)
        ensures
            progress.well_formed(),
            progress.completed == 0,
            progress.last_info_completed == 0,
            progress.total_cpu_time.total() == 0,
            progress.maximum_cpu_time.total() == 0,
            progress.statistics == MeshStatistics::zero(),
    {
        MeshProgress {
            last_info_completed: 0,
            completed: 0,
            total_cpu_time: CpuTime::new(0, 0),
            maximum_cpu_time: CpuTime::new(0, 0),
            statistics: MeshStatistics::new(),
        }
    }

    /// Counts a finished mesh, with its counters where there is one.
    pub fn record(&mut self, mesh: Option<MeshStatistics>)
        requires
            old(self).well_formed(),
            mesh matches Some(statistics) ==> statistics.cpu_time.well_formed(),
        ensures
            final(self).well_formed(),
            final(self).completed == saturated(old(self).completed + 1, u64::MAX as int),
            final(self).last_info_completed == old(self).last_info_completed,
            match mesh {
                Some(statistics) => {
                    &&& final(self).total_cpu_time.total() == saturated(
                        old(self).total_cpu_time.total() + statistics.cpu_time.total(),
                        CpuTime::max_total(),
                    )
                    &&& final(self).maximum_cpu_time.total() == (if old(
                        self,
                    ).maximum_cpu_time.total() < statistics.cpu_time.total() {
                        statistics.cpu_time.total()
                    } else {
                        old(self).maximum_cpu_time.total()
                    })
                    &&& final(self).statistics.is_sum(old(self).statistics, statistics)
                },
                None => {
                    &&& final(self).total_cpu_time == old(self).total_cpu_time
                    &&& final(self).maximum_cpu_time == old(self).maximum_cpu_time
                    &&& final(self).statistics == old(self).statistics
                },
            },
    {
        self.completed = self.completed.saturating_add(1);
        match mesh {
            Some(statistics) => {
                self.total_cpu_time = self.total_cpu_time.saturating_add(statistics.cpu_time);
                self.maximum_cpu_time = self.maximum_cpu_time.longer(statistics.cpu_time);
                self.statistics.accumulate(statistics);
            },
            None => {},
        }
    }

    /// What a report tells of.
    pub fn snapshot(
        &self,
        loaded: usize,
        meshed: usize,
        pending: usize,
        in_flight: usize,
        active: usize,
    ) -> (snapshot: MeshProgressSnapshot)
        ensures
            snapshot.loaded == loaded,
            snapshot.meshed == meshed,
            snapshot.pending == pending,
            snapshot.active == active,
            snapshot.queued == (if in_flight >= active {
                in_flight - active
            } else {
                0
            }),
            snapshot.completed == self.completed,
            snapshot.completed_since_report == (if self.completed >= self.last_info_completed {
                self.completed - self.last_info_completed
            } else {
                0
            }),
            snapshot.total_cpu_time == self.total_cpu_time,
            snapshot.maximum_cpu_time == self.maximum_cpu_time,
            snapshot.statistics == self.statistics,
    {
        MeshProgressSnapshot {
            loaded,
            meshed,
            pending,
            queued: queued_jobs(in_flight, active),
            active,
            completed: self.completed,
            completed_since_report: self.completed_since_report(),
            total_cpu_time: self.total_cpu_time,
            maximum_cpu_time: self.maximum_cpu_time,
            statistics: self.statistics,
        }
    }

    /// The meshes that were finished since the last report.
    pub fn completed_since_report(&self) -> (count: u64)
        ensures
            count == (if self.completed >= self.last_info_completed {
                self.completed - self.last_info_completed
            } else {
                0
            }),
    {
        if self.completed >= self.last_info_completed {
            self.completed - self.last_info_completed
        } else {
            0
        }
    }
}

/// Whether the progress is reported to all, and whether to those who look closely.
pub open spec fn reports(since_info: CpuTime, since_debug: CpuTime, final_summary: bool) -> (
    bool,
    bool,
) {
    (
        final_summary || since_info.total() >= 10_000_000_000,
        final_summary || since_debug.total() >= 2_000_000_000,
    )
}

/// Whether a report and a detailed report are due, by the time since the last one
/// of each: every ten and every two seconds, and at the end.
pub fn report_due(since_info: CpuTime, since_debug: CpuTime, final_summary: bool) -> (due: (
    bool,
    bool,
))
    requires
        since_info.well_formed(),
        since_debug.well_formed(),
    ensures
        due == reports(since_info, since_debug, final_summary),
        due.0 == (final_summary || since_info.total() >= 10_000_000_000),
        due.1 == (final_summary || since_debug.total() >= 2_000_000_000),
{
    (final_summary || since_info.seconds >= 10, final_summary || since_debug.seconds >= 2)
}

/// The jobs that wait for a worker.
pub fn queued_jobs(in_flight: usize, active: usize) -> (queued: usize)
    ensures
        queued == (if in_flight >= active {
            in_flight - active
        } else {
            0
        }),
{
    if in_flight >= active {
        in_flight - active
    } else {
        0
    }
}

/// The chunks that a change touches are the one that it is in and those that share a side
/// with it.
pub proof fn lemma_changes_reach_the_sides(c: ChunkCoordinate, other: ChunkCoordinate)
    requires
        is_inner(c),
    ensures
        around(c).contains(other) <==> {
            let dx = other.x - c.x;
            let dz = other.z - c.z;
            ||| dx == 0 && -1 <= dz <= 1
            ||| dz == 0 && -1 <= dx <= 1
        },
        around(c).len() == 5,
        around(c)[0] == c,
{
    let chunks = around(c);
    assert(chunks[0] == c);
    assert(chunks[1].x == c.x - 1 && chunks[1].z == c.z);
    assert(chunks[2].x == c.x + 1 && chunks[2].z == c.z);
    assert(chunks[3].x == c.x && chunks[3].z == c.z - 1);
    assert(chunks[4].x == c.x && chunks[4].z == c.z + 1);
    if chunks.contains(other) {
        let i = choose|i: int| 0 <= i < chunks.len() && chunks[i] == other;
        assert(i == 0 || i == 1 || i == 2 || i == 3 || i == 4);
    }
    let dx = other.x - c.x;
    let dz = other.z - c.z;
    if dx == 0 && dz == 0 {
        assert(chunks[0] == other);
    } else if dz == 0 && dx == -1 {
        assert(chunks[1] == other);
    } else if dz == 0 && dx == 1 {
        assert(chunks[2] == other);
    } else if dx == 0 && dz == -1 {
        assert(chunks[3] == other);
    } else if dx == 0 && dz == 1 {
        assert(chunks[4] == other);
    }
}

/// Of two chunks the one that is nearer to the origin comes first, as the crow flies. Of
/// two that are as near the one with the lower x does, and then with the lower z.
pub proof fn lemma_near_chunks_come_first(
    origin: ChunkCoordinate,
    a: ChunkCoordinate,
    b: ChunkCoordinate,
)
    ensures
        ({
            let far = |c: ChunkCoordinate|
                (c.x - origin.x) * (c.x - origin.x) + (c.z - origin.z) * (c.z - origin.z);
            let first = precedes(priority(a, Some(origin)), priority(b, Some(origin)));
            &&& far(a) < far(b) ==> first
            &&& far(a) > far(b) ==> !first
            &&& far(a) == far(b) ==> (first <==> a.x < b.x || a.x == b.x && a.z < b.z)
        }),
        precedes(priority(a, None), priority(b, None)) <==> a.x < b.x || a.x == b.x && a.z < b.z,
{
}

/// The order of the chunks is strict: none comes before itself, of two different ones one
/// comes first, and what comes before an earlier one comes before a later one.
pub proof fn lemma_chunks_are_ordered(
    origin: Option<ChunkCoordinate>,
    a: ChunkCoordinate,
    b: ChunkCoordinate,
    c: ChunkCoordinate,
)
    ensures
        !precedes(priority(a, origin), priority(a, origin)),
        a != b ==> (precedes(priority(a, origin), priority(b, origin)) <==> !precedes(
            priority(b, origin),
            priority(a, origin),
        )),
        precedes(priority(a, origin), priority(b, origin)) && precedes(
            priority(b, origin),
            priority(c, origin),
        ) ==> precedes(priority(a, origin), priority(c, origin)),
{
}

/// At least one result is taken, at most sixteen are, and after four milliseconds no more.
/// Of jobs at most eight are handed out, and none after that time.
pub proof fn lemma_frames_do_little_work(count: int, elapsed: CpuTime)
    requires
        elapsed.well_formed(),
        count >= 0,
    ensures
        takes_results(0, elapsed),
        takes_results(count, elapsed) ==> count < 16,
        count > 0 ==> (takes_results(count, elapsed) <==> count < 16 && elapsed.seconds == 0
            && elapsed.nanoseconds < 4_000_000),
        hands_out_jobs(count, elapsed) <==> count < 8 && elapsed.seconds == 0
            && elapsed.nanoseconds < 4_000_000,
{
}

/// There are from one to four workers, as many as can run at once, and with what they
/// work on no more than thirty-two jobs are out, nor could each have one more.
pub proof fn lemma_workers_share_the_jobs(available: int)
    ensures
        ({
            let (workers, queued) = layout_of(available);
            &&& 1 <= workers <= 4
            &&& 1 <= available <= 4 ==> workers == available
            &&& available < 1 ==> workers == 1
            &&& available > 4 ==> workers == 4
            &&& workers * (queued + 1) <= 32
            &&& workers * (queued + 2) > 32
        }),
{
    let (workers, queued) = layout_of(available);
    assert(31int / 1 == 31);
    assert(30int / 2 == 15);
    assert(29int / 3 == 9);
    assert(28int / 4 == 7);
    assert(workers * (queued + 1) <= 32 && workers * (queued + 2) > 32) by (nonlinear_arith)
        requires
            (workers == 1 && queued == 31) || (workers == 2 && queued == 15) || (workers == 3
                && queued == 9) || (workers == 4 && queued == 7),
    ;
}

/// Progress is reported every ten seconds, to those who look closely every two, and to
/// all at the end.
pub proof fn lemma_reports_come_in_time(
    since_info: CpuTime,
    since_debug: CpuTime,
    final_summary: bool,
)
    requires
        since_info.well_formed(),
        since_debug.well_formed(),
    ensures
        reports(since_info, since_debug, final_summary).0 <==> final_summary || since_info.seconds
            >= 10,
        reports(since_info, since_debug, final_summary).1 <==> final_summary || since_debug.seconds
            >= 2,
{
}

/// A mesh is used only where it was made in the present generation from the latest change
/// to its chunk. A change makes every mesh that was on its way stale.
pub proof fn lemma_meshes_are_used_once(
    scheduler: MeshScheduler,
    coordinate: ChunkCoordinate,
    generation: u64,
    revision: u64,
)
    ensures
        scheduler.is_current(coordinate, generation, revision) ==> scheduler.generation
            == generation && scheduler.dirty@.contains_key(coordinate)
            && scheduler.dirty@[coordinate] == revision,
        generation != scheduler.generation ==> !scheduler.is_current(
            coordinate,
            generation,
            revision,
        ),
        scheduler.dirty@.contains_key(coordinate) ==> scheduler.is_current(
            coordinate,
            scheduler.generation,
            scheduler.dirty@[coordinate],
        ),
        next_revision(revision) != revision,
        revision < u64::MAX ==> next_revision(revision) == revision + 1,
        next_revision(u64::MAX) == 0,
{
}

} // verus!
