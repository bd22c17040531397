//! Per-chunk generation as a state machine: which stage a chunk is in, what
//! event moves it on, and which background job to start. The host runs the
//! jobs and reports their completion; the tracking sets that gate feature
//! placement and initial meshing live here.

use std::collections::{HashMap, HashSet};
use vstd::prelude::*;
use itertools::Itertools;
use crate::chunk_map::{chunk_key, lemma_cancel, spec_key};
use crate::coords::{offset, valid_chunk_pos, IVec3};
use crate::generation::{altitudes_ok, COLUMN_CELLS};

verus! {

broadcast use vstd::std_specs::hash::group_hash_axioms;

/// Where a chunk stands in the generation pipeline.
#[derive(Debug, Clone, Copy, PartialEq, Eq, Structural)]
pub enum GenStage {
    Pending,
    ComputingAltitude,
    WaitingForBaseTerrain,
    ComputingBaseTerrain,
    WaitingForNeighbors,
    ComputingFeatures,
    Done,
}

/// What the host reports about a chunk.
#[derive(Debug, Clone, Copy, PartialEq, Eq, Structural)]
pub enum GenEvent {
    /// A scheduling pass: whether the chunk's column data is cached, and
    /// whether its eight horizontal neighbours have their base terrain.
    Tick { column_cached: bool, neighbors_ready: bool },
    AltitudeDone,
    BaseTerrainDone,
    FeaturesDone,
}

/// The job to start, or the bookkeeping to do, after a step.
#[derive(Debug, Clone, Copy, PartialEq, Eq, Structural)]
pub enum GenAction {
    Wait,
    SpawnAltitude,
    SpawnBaseTerrain,
    SpawnFeatures,
    Finish,
}

pub open spec fn spec_step(stage: GenStage, event: GenEvent) -> (GenStage, GenAction) {
    match (stage, event) {
        (GenStage::Pending, GenEvent::Tick { column_cached, neighbors_ready: _ }) => if column_cached {
            (GenStage::WaitingForBaseTerrain, GenAction::Wait)
        } else {
            (GenStage::ComputingAltitude, GenAction::SpawnAltitude)
        },
        (GenStage::ComputingAltitude, GenEvent::AltitudeDone) => (
            GenStage::WaitingForBaseTerrain,
            GenAction::Wait,
        ),
        (
            GenStage::WaitingForBaseTerrain,
            GenEvent::Tick { column_cached, neighbors_ready: _ },
        ) => if column_cached {
            (GenStage::ComputingBaseTerrain, GenAction::SpawnBaseTerrain)
        } else {
            (GenStage::WaitingForBaseTerrain, GenAction::Wait)
        },
        (GenStage::ComputingBaseTerrain, GenEvent::BaseTerrainDone) => (
            GenStage::WaitingForNeighbors,
            GenAction::Wait,
        ),
        (
            GenStage::WaitingForNeighbors,
            GenEvent::Tick { column_cached: _, neighbors_ready },
        ) => if neighbors_ready {
            (GenStage::ComputingFeatures, GenAction::SpawnFeatures)
        } else {
            (GenStage::WaitingForNeighbors, GenAction::Wait)
        },
        (GenStage::ComputingFeatures, GenEvent::FeaturesDone) => (GenStage::Done, GenAction::Finish),
        _ => (stage, GenAction::Wait),
    }
}

/// One transition of the per-chunk pipeline. Events that do not apply to
/// the current stage leave it unchanged.
pub fn step(stage: GenStage, event: GenEvent) -> (r: (GenStage, GenAction))
    ensures
        r == spec_step(stage, event),
{
    match (stage, event) {
        (GenStage::Pending, GenEvent::Tick { column_cached, neighbors_ready: _ }) => if column_cached {
            (GenStage::WaitingForBaseTerrain, GenAction::Wait)
        } else {
            (GenStage::ComputingAltitude, GenAction::SpawnAltitude)
        },
        (GenStage::ComputingAltitude, GenEvent::AltitudeDone) => (
            GenStage::WaitingForBaseTerrain,
            GenAction::Wait,
        ),
        (
            GenStage::WaitingForBaseTerrain,
            GenEvent::Tick { column_cached, neighbors_ready: _ },
        ) => if column_cached {
            (GenStage::ComputingBaseTerrain, GenAction::SpawnBaseTerrain)
        } else {
            (GenStage::WaitingForBaseTerrain, GenAction::Wait)
        },
        (GenStage::ComputingBaseTerrain, GenEvent::BaseTerrainDone) => (
            GenStage::WaitingForNeighbors,
            GenAction::Wait,
        ),
        (
            GenStage::WaitingForNeighbors,
            GenEvent::Tick { column_cached: _, neighbors_ready },
        ) => if neighbors_ready {
            (GenStage::ComputingFeatures, GenAction::SpawnFeatures)
        } else {
            (GenStage::WaitingForNeighbors, GenAction::Wait)
        },
        (GenStage::ComputingFeatures, GenEvent::FeaturesDone) => (GenStage::Done, GenAction::Finish),
        _ => (stage, GenAction::Wait),
    }
}

/// The eight same-level horizontal neighbours of `pos`, as `(dx, dz)`.
pub open spec fn is_horizontal_offset(dx: int, dz: int) -> bool {
    -1 <= dx <= 1 && -1 <= dz <= 1 && !(dx == 0 && dz == 0)
}

/// Key of chunk column `(x, z)`.
pub open spec fn spec_column_key(x: i32, z: i32) -> int {
    (x as int) * 0x1_0000_0000 + (z as int)
}

/// The integer key that a chunk column is cached under.
pub fn column_key(x: i32, z: i32) -> (r: i128)
    ensures
        r == spec_column_key(x, z),
{
    (x as i128) * 0x1_0000_0000 + (z as i128)
}

/// Distinct columns have distinct keys.
pub proof fn lemma_column_key_injective(x1: i32, z1: i32, x2: i32, z2: i32)
    requires
        spec_column_key(x1, z1) == spec_column_key(x2, z2),
    ensures
        x1 == x2,
        z1 == z2,
{
    let m: int = 0x1_0000_0000;
    let a = x1 - x2;
    let b = z1 - z2;
    assert(a * m + b == 0) by (nonlinear_arith)
        requires
            x1 * m + z1 == x2 * m + z2,
            a == x1 - x2,
            b == z1 - z2,
    ;
    lemma_cancel(a, b, m);
}

/// The cross-chunk state of generation: the per-column altitude and biome
/// maps, which chunks have their base terrain, and which are fully
/// generated.
#[derive(Debug)]
pub struct GenerationStorage {
    pub altitude_maps: HashMap<i128, Vec<i32>>,
    pub biome_maps: HashMap<i128, Vec<u8>>,
    pub base_terrain_generated: HashSet<i128>,
    pub fully_generated: HashSet<i128>,
}

impl GenerationStorage {
    /// Both maps cache the same columns, each with a complete, in-range
    /// altitude map and a complete biome map.
    pub open spec fn wf(&self) -> bool {
        &&& forall|k: i128| #[trigger]
            self.altitude_maps@.contains_key(k) == self.biome_maps@.contains_key(k)
        &&& forall|k: i128|
            #[trigger] self.altitude_maps@.contains_key(k) ==> altitudes_ok(
                self.altitude_maps@[k]@,
            ) && self.biome_maps@[k].len() == COLUMN_CELLS
    }

    pub open spec fn column_cached(&self, x: i32, z: i32) -> bool {
        self.altitude_maps@.contains_key(spec_column_key(x, z) as i128)
    }

    pub open spec fn column_altitudes(&self, x: i32, z: i32) -> Seq<i32> {
        self.altitude_maps@[spec_column_key(x, z) as i128]@
    }

    pub open spec fn column_biomes(&self, x: i32, z: i32) -> Seq<u8> {
        self.biome_maps@[spec_column_key(x, z) as i128]@
    }

    /// Caches the maps of column `(x, z)` unless it is cached already: a
    /// column's maps are computed once and never replaced.
    pub fn store_column(&mut self, x: i32, z: i32, altitudes: Vec<i32>, biomes: Vec<u8>)
        requires
            old(self).wf(),
            altitudes_ok(altitudes@),
            biomes.len() == COLUMN_CELLS,
        ensures
            final(self).wf(),
            final(self).column_cached(x, z),
            old(self).column_cached(x, z) ==> final(self).column_altitudes(x, z) == old(
                self,
            ).column_altitudes(x, z) && final(self).column_biomes(x, z) == old(self).column_biomes(
                x,
                z,
            ),
            !old(self).column_cached(x, z) ==> final(self).column_altitudes(x, z) == altitudes@
                && final(self).column_biomes(x, z) == biomes@,
            forall|a: i32, b: i32|
                !(a == x && b == z) ==> #[trigger] final(self).column_cached(a, b) == old(
                    self,
                ).column_cached(a, b) && final(self).column_altitudes(a, b) == old(
                    self,
                ).column_altitudes(a, b) && final(self).column_biomes(a, b) == old(
                    self,
                ).column_biomes(a, b),
            forall|p: IVec3| #[trigger] final(self).base_done(p) == old(self).base_done(p),
            forall|p: IVec3| #[trigger] final(self).full_done(p) == old(self).full_done(p),
    {
        let k = column_key(x, z);
        if !self.altitude_maps.contains_key(&k) {
            self.altitude_maps.insert(k, altitudes);
            self.biome_maps.insert(k, biomes);
        }
        proof {
            assert forall|a: i32, b: i32|
                !(a == x && b == z) implies #[trigger] self.column_cached(a, b) == old(
                    self,
                ).column_cached(a, b) && self.column_altitudes(a, b) == old(self).column_altitudes(a, b)
                && self.column_biomes(a, b) == old(self).column_biomes(a, b) by {
                if spec_column_key(a, b) == spec_column_key(x, z) {
                    lemma_column_key_injective(a, b, x, z);
                }
            }
        }
    }

    /// The cached maps of column `(x, z)`, if any.
    pub fn get_column(&self, x: i32, z: i32) -> (r: Option<(&Vec<i32>, &Vec<u8>)>)
        requires
            self.wf(),
        ensures
            r is Some == self.column_cached(x, z),
            r is Some ==> r.unwrap().0@ == self.column_altitudes(x, z) && r.unwrap().1@
                == self.column_biomes(x, z) && altitudes_ok(r.unwrap().0@) && r.unwrap().1.len()
                == COLUMN_CELLS,
    {
        let k = column_key(x, z);
        match (self.altitude_maps.get(&k), self.biome_maps.get(&k)) {
            (Some(a), Some(b)) => Some((a, b)),
            _ => None,
        }
    }

    pub open spec fn base_done(&self, p: IVec3) -> bool {
        self.base_terrain_generated@.contains(spec_key(p) as i128)
    }

    pub open spec fn full_done(&self, p: IVec3) -> bool {
        self.fully_generated@.contains(spec_key(p) as i128)
    }

    /// All eight horizontal neighbours of `pos` have their base terrain.
    pub open spec fn spec_neighbors_ready(&self, pos: IVec3) -> bool {
        forall|dx: int, dz: int|
            is_horizontal_offset(dx, dz) ==> #[trigger] self.base_done(offset(pos, dx, 0, dz))
    }

    pub fn new() -> (r: GenerationStorage)
        ensures
            r.wf(),
            forall|p: IVec3| !r.base_done(p) && !r.full_done(p),
            forall|x: i32, z: i32| !r.column_cached(x, z),
    {
        GenerationStorage {
            altitude_maps: HashMap::new(),
            biome_maps: HashMap::new(),
            base_terrain_generated: HashSet::new(),
            fully_generated: HashSet::new(),
        }
    }

    /// Records that the chunk at `pos` has its base terrain.
    pub fn mark_base_terrain(&mut self, pos: IVec3)
        ensures
            final(self).altitude_maps@ == old(self).altitude_maps@,
            final(self).biome_maps@ == old(self).biome_maps@,
            forall|p: IVec3|
                #[trigger] final(self).base_done(p) == (old(self).base_done(p) || spec_key(p)
                    == spec_key(pos)),
            forall|p: IVec3| #[trigger] final(self).full_done(p) == old(self).full_done(p),
    {
        self.base_terrain_generated.insert(chunk_key(pos));
    }

    /// Records that the chunk at `pos` is fully generated.
    pub fn mark_fully_generated(&mut self, pos: IVec3)
        ensures
            final(self).altitude_maps@ == old(self).altitude_maps@,
            final(self).biome_maps@ == old(self).biome_maps@,
            forall|p: IVec3|
                #[trigger] final(self).full_done(p) == (old(self).full_done(p) || spec_key(p)
                    == spec_key(pos)),
            forall|p: IVec3| #[trigger] final(self).base_done(p) == old(self).base_done(p),
    {
        self.fully_generated.insert(chunk_key(pos));
    }

    pub fn is_base_done(&self, p: IVec3) -> (r: bool)
        ensures
            r == self.base_done(p),
    {
        self.base_terrain_generated.contains(&chunk_key(p))
    }

    pub fn is_fully_done(&self, p: IVec3) -> (r: bool)
        ensures
            r == self.full_done(p),
    {
        self.fully_generated.contains(&chunk_key(p))
    }

    /// Whether the eight horizontal neighbours of `pos` (same level) all
    /// have their base terrain; feature placement waits for this.
    pub fn neighbors_ready(&self, pos: IVec3) -> (r: bool)
        requires
            valid_chunk_pos(pos),
        ensures
            r == self.spec_neighbors_ready(pos),
    {
        let mut dx: i32 = -1;
        while dx <= 1
            invariant
                -1 <= dx <= 2,
                valid_chunk_pos(pos),
                forall|a: int, b: int|
                    is_horizontal_offset(a, b) && a < dx ==> #[trigger] self.base_done(
                        offset(pos, a, 0, b),
                    ),
            decreases 2 - dx,
        {
            let mut dz: i32 = -1;
            while dz <= 1
                invariant
                    -1 <= dx <= 1,
                    -1 <= dz <= 2,
                    valid_chunk_pos(pos),
                    forall|a: int, b: int|
                        is_horizontal_offset(a, b) && (a < dx || (a == dx && b < dz))
                            ==> #[trigger] self.base_done(offset(pos, a, 0, b)),
                decreases 2 - dz,
            {
                if !(dx == 0 && dz == 0) {
                    let n = IVec3 { x: pos.x + dx, y: pos.y, z: pos.z + dz };
                    assert(n == offset(pos, dx as int, 0, dz as int));
                    if !self.is_base_done(n) {
                        return false;
                    }
                }
                dz = dz + 1;
            }
            dx = dx + 1;
        }
        true
    }

    /// The scheduling event for the chunk at `pos`.
    pub fn tick(&self, pos: IVec3, column_cached: bool) -> (r: GenEvent)
        requires
            valid_chunk_pos(pos),
        ensures
            r == (GenEvent::Tick {
                column_cached,
                neighbors_ready: self.spec_neighbors_ready(pos),
            }),
    {
        GenEvent::Tick { column_cached, neighbors_ready: self.neighbors_ready(pos) }
    }

    /// A chunk is ready for its first mesh when it and all 26 chunks around
    /// it are fully generated.
    pub open spec fn spec_mesh_ready(&self, c: IVec3) -> bool {
        forall|dx: int, dy: int, dz: int|
            -1 <= dx <= 1 && -1 <= dy <= 1 && -1 <= dz <= 1 ==> #[trigger] self.full_done(
                offset(c, dx, dy, dz),
            )
    }

    pub fn mesh_ready(&self, c: IVec3) -> (r: bool)
        requires
            valid_chunk_pos(c),
        ensures
            r == self.spec_mesh_ready(c),
    {
        let mut dx: i32 = -1;
        while dx <= 1
            invariant
                -1 <= dx <= 2,
                valid_chunk_pos(c),
                forall|a: int, b: int, e: int|
                    -1 <= a < dx && -1 <= b <= 1 && -1 <= e <= 1 ==> #[trigger] self.full_done(
                        offset(c, a, b, e),
                    ),
            decreases 2 - dx,
        {
            let mut dy: i32 = -1;
            while dy <= 1
                invariant
                    -1 <= dx <= 1,
                    -1 <= dy <= 2,
                    valid_chunk_pos(c),
                    forall|a: int, b: int, e: int|
                        -1 <= a <= 1 && -1 <= b <= 1 && -1 <= e <= 1 && (a < dx || (a == dx && b
                            < dy)) ==> #[trigger] self.full_done(offset(c, a, b, e)),
                decreases 2 - dy,
            {
                let mut dz: i32 = -1;
                while dz <= 1
                    invariant
                        -1 <= dx <= 1,
                        -1 <= dy <= 1,
                        -1 <= dz <= 2,
                        valid_chunk_pos(c),
                        forall|a: int, b: int, e: int|
                            -1 <= a <= 1 && -1 <= b <= 1 && -1 <= e <= 1 && (a < dx || (a == dx
                                && (b < dy || (b == dy && e < dz)))) ==> #[trigger] self.full_done(
                                offset(c, a, b, e),
                            ),
                    decreases 2 - dz,
                {
                    let n = IVec3 { x: c.x + dx, y: c.y + dy, z: c.z + dz };
                    assert(n == offset(c, dx as int, dy as int, dz as int));
                    if !self.is_fully_done(n) {
                        return false;
                    }
                    dz = dz + 1;
                }
                dy = dy + 1;
            }
            dx = dx + 1;
        }
        true
    }
}

/// Feature placement starts only when the scheduling event says that all
/// eight horizontal neighbours have their base terrain; with the event
/// built by [`GenerationStorage::tick`], only when the storage records it.
pub proof fn lemma_features_wait_for_neighbors(
    storage: GenerationStorage,
    pos: IVec3,
    stage: GenStage,
    column_cached: bool,
)
    requires
        spec_step(
            stage,
            GenEvent::Tick { column_cached, neighbors_ready: storage.spec_neighbors_ready(pos) },
        ).1 == GenAction::SpawnFeatures,
    ensures
        stage == GenStage::WaitingForNeighbors,
        forall|dx: int, dz: int|
            is_horizontal_offset(dx, dz) ==> #[trigger] storage.base_done(offset(pos, dx, 0, dz)),
{
}

/// No event other than a scheduling pass with ready neighbours starts
/// feature placement.
pub proof fn lemma_only_ready_tick_spawns_features(stage: GenStage, event: GenEvent)
    requires
        spec_step(stage, event).1 == GenAction::SpawnFeatures,
    ensures
        event matches GenEvent::Tick { neighbors_ready: true, .. },
        stage == GenStage::WaitingForNeighbors,
{
}

pub open spec fn pair_le(a: (u64, u64), b: (u64, u64)) -> bool {
    a.0 < b.0 || (a.0 == b.0 && a.1 <= b.1)
}

/// Relies on itertools' `Itertools::k_smallest`: the `k` smallest items in
/// ascending order, the same as sorting all items and taking the first `k`.
#[verifier::external_body]
fn k_smallest_pairs(items: Vec<(u64, u64)>, k: usize) -> (r: Vec<(u64, u64)>)
    ensures
        r.len() == if k < items.len() { k } else { items.len() },
        forall|i: int, j: int| 0 <= i < j < r.len() ==> pair_le(r@[i], r@[j]),
        r@.to_multiset().subset_of(items@.to_multiset()),
        items@.no_duplicates() ==> r@.no_duplicates(),
        forall|x: (u64, u64)|
            items@.contains(x) && !r@.contains(x) ==> forall|i: int|
                0 <= i < r.len() ==> pair_le(#[trigger] r@[i], x),
{
    items.into_iter().k_smallest(k).collect()
}

/// Squared distance between two chunk positions.
pub open spec fn dist_sq(a: IVec3, b: IVec3) -> int {
    (a.x - b.x) * (a.x - b.x) + (a.y - b.y) * (a.y - b.y) + (a.z - b.z) * (a.z - b.z)
}

fn dist_sq_exec(a: IVec3, b: IVec3) -> (r: u64)
    requires
        valid_chunk_pos(a),
        valid_chunk_pos(b),
    ensures
        r == dist_sq(a, b),
{
    let dx = a.x as i64 - b.x as i64;
    let dy = a.y as i64 - b.y as i64;
    let dz = a.z as i64 - b.z as i64;
    proof {
        assert(0 <= dx * dx < 0x100_0000_0000_0000 && 0 <= dy * dy < 0x100_0000_0000_0000 && 0
            <= dz * dz < 0x100_0000_0000_0000) by (nonlinear_arith)
            requires
                -0x1000_0000 < dx < 0x1000_0000,
                -0x1000_0000 < dy < 0x1000_0000,
                -0x1000_0000 < dz < 0x1000_0000,
        ;
    }
    (dx * dx + dy * dy + dz * dz) as u64
}

/// The order in which pending chunks are scheduled: nearer first, then by
/// position in the pending list.
pub open spec fn schedule_key(pending: Seq<IVec3>, player: IVec3, i: int) -> (u64, u64) {
    (dist_sq(pending[i], player) as u64, i as u64)
}

/// Indices of the (at most) `max` pending chunks nearest to the observer,
/// nearest first; every pending chunk left out is at least as far as every
/// chunk taken.
pub fn select_nearest(pending: &Vec<IVec3>, player: IVec3, max: usize) -> (r: Vec<usize>)
    requires
        valid_chunk_pos(player),
        forall|i: int| 0 <= i < pending.len() ==> valid_chunk_pos(#[trigger] pending@[i]),
    ensures
        r.len() == if max < pending.len() { max } else { pending.len() },
        r@.no_duplicates(),
        forall|i: int| 0 <= i < r.len() ==> #[trigger] r@[i] < pending.len(),
        forall|i: int, j: int|
            0 <= i < j < r.len() ==> pair_le(
                schedule_key(pending@, player, r@[i] as int),
                schedule_key(pending@, player, r@[j] as int),
            ),
        forall|j: int, i: int|
            #![trigger schedule_key(pending@, player, j), r@[i]]
            0 <= j < pending.len() && !r@.contains(j as usize) && 0 <= i < r.len() ==> pair_le(
                schedule_key(pending@, player, r@[i] as int),
                schedule_key(pending@, player, j),
            ),
{
    let mut keys: Vec<(u64, u64)> = Vec::new();
    let mut i: usize = 0;
    while i < pending.len()
        invariant
            i <= pending.len(),
            valid_chunk_pos(player),
            forall|j: int| 0 <= j < pending.len() ==> valid_chunk_pos(#[trigger] pending@[j]),
            keys.len() == i,
            forall|j: int| 0 <= j < i ==> #[trigger] keys@[j] == schedule_key(pending@, player, j),
        decreases pending.len() - i,
    {
        let d = dist_sq_exec(pending[i], player);
        keys.push((d, i as u64));
        i = i + 1;
    }
    let ghost all = keys@;
    assert(all.no_duplicates()) by {
        assert forall|a: int, b: int| 0 <= a < all.len() && 0 <= b < all.len() && a != b implies all[a]
            != all[b] by {
            assert(all[a].1 == a as u64 && all[b].1 == b as u64);
        }
    }
    let chosen = k_smallest_pairs(keys, max);
    proof {
        assert forall|q: int| 0 <= q < chosen.len() implies all.contains(#[trigger] chosen@[q]) by {
            assert(chosen@.contains(chosen@[q]));
            chosen@.to_multiset_ensures();
            all.to_multiset_ensures();
            assert(chosen@.to_multiset().count(chosen@[q]) <= all.to_multiset().count(chosen@[q]));
        }
    }
    let mut r: Vec<usize> = Vec::new();
    let mut q: usize = 0;
    while q < chosen.len()
        invariant
            q <= chosen.len(),
            all.len() == pending.len(),
            forall|j: int| 0 <= j < all.len() ==> #[trigger] all[j] == schedule_key(pending@, player, j),
            forall|p: int| 0 <= p < chosen.len() ==> all.contains(#[trigger] chosen@[p]),
            r.len() == q,
            forall|p: int| 0 <= p < q ==> (#[trigger] r@[p]) < pending.len() && schedule_key(
                pending@,
                player,
                r@[p] as int,
            ) == chosen@[p],
        decreases chosen.len() - q,
    {
        let (d, idx) = chosen[q];
        let ghost w = choose|w: int| 0 <= w < all.len() && all[w] == chosen@[q as int];
        assert(all[w] == chosen@[q as int]);
        r.push(idx as usize);
        q = q + 1;
    }
    proof {
        assert forall|a: int, b: int| 0 <= a < r.len() && 0 <= b < r.len() && a != b implies r@[a]
            != r@[b] by {
            assert(chosen@[a] != chosen@[b]);
        }
        assert forall|j: int, i: int|
            #![trigger schedule_key(pending@, player, j), r@[i]]
            0 <= j < pending.len() && !r@.contains(j as usize) && 0 <= i < r.len() implies pair_le(
                schedule_key(pending@, player, r@[i] as int),
                schedule_key(pending@, player, j),
            ) by {
            assert(all.contains(all[j]));
            if chosen@.contains(all[j]) {
                let p = choose|p: int| 0 <= p < chosen.len() && chosen@[p] == all[j];
                assert(r@[p] == j as usize);
            }
        }
    }
    r
}

impl GenerationStorage {
    /// Chunks whose first mesh may be built now that `pos` is fully
    /// generated: `pos` and its 26 neighbours, each when it is fully
    /// generated and so is every chunk around it.
    pub fn mesh_candidates(&self, pos: IVec3) -> (r: Vec<IVec3>)
        requires
            valid_chunk_pos(pos),
        ensures
            forall|c: IVec3|
                #[trigger] r@.contains(c) ==> valid_chunk_pos(c) && self.full_done(c) && self.spec_mesh_ready(c)
                    && -1 <= c.x - pos.x <= 1 && -1 <= c.y - pos.y <= 1 && -1 <= c.z - pos.z <= 1,
            forall|dx: int, dy: int, dz: int|
                -1 <= dx <= 1 && -1 <= dy <= 1 && -1 <= dz <= 1 && valid_chunk_pos(
                    offset(pos, dx, dy, dz),
                ) && self.full_done(offset(pos, dx, dy, dz)) && self.spec_mesh_ready(
                    offset(pos, dx, dy, dz),
                ) ==> #[trigger] r@.contains(offset(pos, dx, dy, dz)),
    {
        let mut r: Vec<IVec3> = Vec::new();
        let mut dx: i32 = -1;
        while dx <= 1
            invariant
                -1 <= dx <= 2,
                valid_chunk_pos(pos),
                forall|c: IVec3|
                    #[trigger] r@.contains(c) ==> valid_chunk_pos(c) && self.full_done(c) && self.spec_mesh_ready(c)
                        && -1 <= c.x - pos.x <= 1 && -1 <= c.y - pos.y <= 1 && -1 <= c.z - pos.z <= 1,
                forall|a: int, b: int, e: int|
                    -1 <= a < dx && -1 <= b <= 1 && -1 <= e <= 1 && valid_chunk_pos(offset(pos, a, b, e))
                        && self.full_done(offset(pos, a, b, e)) && self.spec_mesh_ready(
                        offset(pos, a, b, e),
                    ) ==> #[trigger] r@.contains(offset(pos, a, b, e)),
            decreases 2 - dx,
        {
            let mut dy: i32 = -1;
            while dy <= 1
                invariant
                    -1 <= dx <= 1,
                    -1 <= dy <= 2,
                    valid_chunk_pos(pos),
                    forall|c: IVec3|
                        #[trigger] r@.contains(c) ==> valid_chunk_pos(c) && self.full_done(c)
                            && self.spec_mesh_ready(c) && -1 <= c.x - pos.x <= 1 && -1 <= c.y - pos.y
                            <= 1 && -1 <= c.z - pos.z <= 1,
                    forall|a: int, b: int, e: int|
                        -1 <= a <= 1 && -1 <= b <= 1 && -1 <= e <= 1 && (a < dx || (a == dx && b < dy))
                            && valid_chunk_pos(offset(pos, a, b, e)) && self.full_done(
                            offset(pos, a, b, e),
                        ) && self.spec_mesh_ready(offset(pos, a, b, e)) ==> #[trigger] r@.contains(
                            offset(pos, a, b, e),
                        ),
                decreases 2 - dy,
            {
                let mut dz: i32 = -1;
                while dz <= 1
                    invariant
                        -1 <= dx <= 1,
                        -1 <= dy <= 1,
                        -1 <= dz <= 2,
                        valid_chunk_pos(pos),
                        forall|c: IVec3|
                            #[trigger] r@.contains(c) ==> valid_chunk_pos(c) && self.full_done(c)
                                && self.spec_mesh_ready(c) && -1 <= c.x - pos.x <= 1 && -1 <= c.y
                                - pos.y <= 1 && -1 <= c.z - pos.z <= 1,
                        forall|a: int, b: int, e: int|
                            -1 <= a <= 1 && -1 <= b <= 1 && -1 <= e <= 1 && (a < dx || (a == dx && (b
                                < dy || (b == dy && e < dz)))) && valid_chunk_pos(offset(pos, a, b, e))
                                && self.full_done(offset(pos, a, b, e)) && self.spec_mesh_ready(
                                offset(pos, a, b, e),
                            ) ==> #[trigger] r@.contains(offset(pos, a, b, e)),
                    decreases 2 - dz,
                {
                    let c = IVec3 { x: pos.x + dx, y: pos.y + dy, z: pos.z + dz };
                    assert(c == offset(pos, dx as int, dy as int, dz as int));
                    let valid = -67108864 <= c.x && c.x <= 67108863 && -67108864 <= c.y && c.y
                        <= 67108863 && -67108864 <= c.z && c.z <= 67108863;
                    assert(valid == valid_chunk_pos(c));
                    let ghost old_r = r@;
                    let take = valid && self.is_fully_done(c) && self.mesh_ready(c);
                    assert(take == (valid_chunk_pos(c) && self.full_done(c) && self.spec_mesh_ready(c)));
                    if take {
                        r.push(c);
                        proof {
                            assert(r@[r@.len() - 1] == c);
                            assert forall|q: IVec3| old_r.contains(q) implies r@.contains(q) by {
                                let t = choose|t: int| 0 <= t < old_r.len() && old_r[t] == q;
                                assert(r@[t] == q);
                            }
                            assert forall|q: IVec3| r@.contains(q) implies old_r.contains(q) || q == c by {
                                let t = choose|t: int| 0 <= t < r@.len() && r@[t] == q;
                                if t < old_r.len() {
                                    assert(old_r[t] == q);
                                }
                            }
                        }
                    }
                    proof {
                        assert forall|q: IVec3| #[trigger] r@.contains(q) implies valid_chunk_pos(q)
                            && self.full_done(q) && self.spec_mesh_ready(q) && -1 <= q.x - pos.x <= 1
                            && -1 <= q.y - pos.y <= 1 && -1 <= q.z - pos.z <= 1 by {
                            if q != c {
                                assert(old_r.contains(q));
                            }
                        }
                        assert forall|a: int, b: int, e: int|
                            -1 <= a <= 1 && -1 <= b <= 1 && -1 <= e <= 1 && (a < dx || (a == dx && (b
                                < dy || (b == dy && e < dz + 1)))) && valid_chunk_pos(offset(pos, a, b, e))
                                && self.full_done(offset(pos, a, b, e)) && self.spec_mesh_ready(
                                offset(pos, a, b, e),
                            ) implies #[trigger] r@.contains(offset(pos, a, b, e)) by {
                            if a == dx && b == dy && e == dz {
                                assert(take);
                                assert(r@[r@.len() - 1] == c);
                            } else {
                                assert(old_r.contains(offset(pos, a, b, e)));
                                if take {
                                    let t = choose|t: int| 0 <= t < old_r.len() && old_r[t] == offset(pos, a, b, e);
                                    assert(r@[t] == old_r[t]);
                                }
                            }
                        }
                    }
                    dz = dz + 1;
                }
                dy = dy + 1;
            }
            dx = dx + 1;
        }
        r
    }
}

} // verus!
