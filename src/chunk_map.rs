//! The chunk store: a sparse map from chunk position to chunk data, with
//! reads across chunk boundaries, soft-overwrite bulk writes, and padded
//! copies of a chunk for meshing.

use std::collections::HashMap;
use vstd::prelude::*;
use crate::chunk::{lemma_lin_bounds, lemma_lin_inverse, lin, Chunk, TerrainChunkData};
use crate::coords::{
    chunk_of, lemma_world_split, local_of, offset, spec_chunk_of, spec_local_of,
    valid_chunk_pos, IVec3, UVec3, CHUNK_SIZE, PADDED_CHUNK_SIZE,
};
use crate::voxel::{spec_is_soft, Voxel, EMPTY};

verus! {

broadcast use vstd::std_specs::hash::group_hash_axioms;

/// The store key of a position: the three coordinates packed in base 2^32.
pub open spec fn spec_key(p: IVec3) -> int {
    (p.x as int) * 0x1_0000_0000 * 0x1_0000_0000 + (p.y as int) * 0x1_0000_0000 + (p.z as int)
}

/// `a * m + b == 0` with `|b| < m` forces both to zero.
pub proof fn lemma_cancel(a: int, b: int, m: int)
    requires
        a * m + b == 0,
        -m < b < m,
        m > 0,
    ensures
        a == 0,
        b == 0,
{
    if a > 0 {
        assert(a * m >= m) by (nonlinear_arith)
            requires
                a > 0,
                m > 0,
        ;
    } else if a < 0 {
        assert(a * m <= -m) by (nonlinear_arith)
            requires
                a < 0,
                m > 0,
        ;
    }
}

/// Distinct positions have distinct keys.
pub proof fn lemma_key_injective(p: IVec3, q: IVec3)
    requires
        spec_key(p) == spec_key(q),
    ensures
        p == q,
{
    let m: int = 0x1_0000_0000;
    let dx = p.x - q.x;
    let dy = p.y - q.y;
    let dz = p.z - q.z;
    assert((dx * m + dy) * m + dz == spec_key(p) - spec_key(q)) by (nonlinear_arith)
        requires
            m == 0x1_0000_0000,
            dx == p.x - q.x,
            dy == p.y - q.y,
            dz == p.z - q.z,
    ;
    lemma_cancel(dx * m + dy, dz, m);
    lemma_cancel(dx, dy, m);
}

/// The integer key that the store files the chunk at `p` under.
pub fn chunk_key(p: IVec3) -> (r: i128)
    ensures
        r == spec_key(p),
{
    (p.x as i128) * 0x1_0000_0000 * 0x1_0000_0000 + (p.y as i128) * 0x1_0000_0000 + (p.z as i128)
}

/// Outcome for one cell of replaying `writes` in order on a cell that held
/// `init` (`None`: its chunk is not loaded). A write lands only where the
/// cell currently holds a soft voxel.
pub open spec fn bulk_cell(init: Option<Voxel>, writes: Seq<(IVec3, Voxel)>, w: IVec3) -> Option<
    Voxel,
>
    decreases writes.len(),
{
    if writes.len() == 0 {
        init
    } else {
        let prev = bulk_cell(init, writes.drop_last(), w);
        let (p, v) = writes.last();
        match prev {
            Some(cur) => if p == w && spec_is_soft(cur.id) {
                Some(v)
            } else {
                prev
            },
            None => None,
        }
    }
}

pub open spec fn writes_to(writes: Seq<(IVec3, Voxel)>, w: IVec3) -> bool {
    exists|k: int| 0 <= k < writes.len() && (#[trigger] writes[k]).0 == w
}

/// A cell that holds a hard voxel keeps it through any batch.
proof fn lemma_bulk_hard_stays(v: Voxel, writes: Seq<(IVec3, Voxel)>, w: IVec3)
    requires
        !spec_is_soft(v.id),
    ensures
        bulk_cell(Some(v), writes, w) == Some(v),
    decreases writes.len(),
{
    if writes.len() > 0 {
        lemma_bulk_hard_stays(v, writes.drop_last(), w);
    }
}

/// A cell with no write in the batch keeps its voxel.
proof fn lemma_bulk_untouched(init: Option<Voxel>, writes: Seq<(IVec3, Voxel)>, w: IVec3)
    requires
        !writes_to(writes, w),
    ensures
        bulk_cell(init, writes, w) == init,
    decreases writes.len(),
{
    if writes.len() > 0 {
        let d = writes.drop_last();
        assert(!writes_to(d, w)) by {
            if writes_to(d, w) {
                let k = choose|k: int| 0 <= k < d.len() && (#[trigger] d[k]).0 == w;
                assert(writes[k] == d[k]);
            }
        }
        assert(writes[writes.len() - 1].0 != w);
        lemma_bulk_untouched(init, d, w);
    }
}

/// Two soft starting voxels end the same once the batch writes the cell.
proof fn lemma_bulk_soft_start(a: Voxel, b: Voxel, writes: Seq<(IVec3, Voxel)>, w: IVec3)
    requires
        spec_is_soft(a.id),
        spec_is_soft(b.id),
        writes_to(writes, w),
    ensures
        bulk_cell(Some(a), writes, w) == bulk_cell(Some(b), writes, w),
    decreases writes.len(),
{
    let d = writes.drop_last();
    if writes_to(d, w) {
        lemma_bulk_soft_start(a, b, d, w);
    } else {
        lemma_bulk_untouched(Some(a), d, w);
        lemma_bulk_untouched(Some(b), d, w);
        let k = choose|k: int| 0 <= k < writes.len() && (#[trigger] writes[k]).0 == w;
        if k < writes.len() - 1 {
            assert(d[k] == writes[k]);
        }
    }
}

/// Applying the same bulk write twice leaves every cell as applying it once.
pub proof fn lemma_bulk_idempotent(init: Option<Voxel>, writes: Seq<(IVec3, Voxel)>, w: IVec3)
    ensures
        bulk_cell(bulk_cell(init, writes, w), writes, w) == bulk_cell(init, writes, w),
{
    let once = bulk_cell(init, writes, w);
    if !writes_to(writes, w) {
        lemma_bulk_untouched(init, writes, w);
        lemma_bulk_untouched(once, writes, w);
    } else {
        match init {
            None => {
                lemma_bulk_none(writes, w);
                lemma_bulk_none(writes, w);
            },
            Some(v) => {
                if !spec_is_soft(v.id) {
                    lemma_bulk_hard_stays(v, writes, w);
                } else {
                    lemma_bulk_some(v, writes, w);
                    let u = once.unwrap();
                    if spec_is_soft(u.id) {
                        lemma_bulk_soft_start(v, u, writes, w);
                    } else {
                        lemma_bulk_hard_stays(u, writes, w);
                    }
                }
            },
        }
    }
}

proof fn lemma_bulk_none(writes: Seq<(IVec3, Voxel)>, w: IVec3)
    ensures
        bulk_cell(None, writes, w) == None::<Voxel>,
    decreases writes.len(),
{
    if writes.len() > 0 {
        lemma_bulk_none(writes.drop_last(), w);
    }
}

proof fn lemma_bulk_some(v: Voxel, writes: Seq<(IVec3, Voxel)>, w: IVec3)
    ensures
        bulk_cell(Some(v), writes, w) is Some,
    decreases writes.len(),
{
    if writes.len() > 0 {
        lemma_bulk_some(v, writes.drop_last(), w);
    }
}

/// The +X face layer of a padded chunk is the x = 0 layer of the chunk
/// loaded at +X, and is all empty when no chunk is loaded there.
pub proof fn lemma_padding_east_face(m: ChunkMap, pos: IVec3, y: int, z: int)
    requires
        0 <= y < CHUNK_SIZE,
        0 <= z < CHUNK_SIZE,
    ensures
        m.contains(offset(pos, 1, 0, 0)) ==> padded_spec(m, pos, PADDED_CHUNK_SIZE - 1, y + 1, z + 1)
            == m.chunk_at(offset(pos, 1, 0, 0)).local(UVec3 { x: 0, y: y as u32, z: z as u32 }),
        !m.contains(offset(pos, 1, 0, 0)) ==> padded_spec(
            m,
            pos,
            PADDED_CHUNK_SIZE - 1,
            y + 1,
            z + 1,
        ).id == EMPTY,
{
}

/// Running the same batch through `set_bulk` a second time changes no voxel.
pub proof fn lemma_set_bulk_twice(
    m0: ChunkMap,
    m1: ChunkMap,
    m2: ChunkMap,
    writes: Seq<(IVec3, Voxel)>,
)
    requires
        forall|w: IVec3| #[trigger] m1.voxel_at(w) == bulk_cell(m0.voxel_at(w), writes, w),
        forall|w: IVec3| #[trigger] m2.voxel_at(w) == bulk_cell(m1.voxel_at(w), writes, w),
    ensures
        forall|w: IVec3| #[trigger] m2.voxel_at(w) == m1.voxel_at(w),
{
    assert forall|w: IVec3| #[trigger] m2.voxel_at(w) == m1.voxel_at(w) by {
        lemma_bulk_idempotent(m0.voxel_at(w), writes, w);
    }
}

/// Whether write `k` of `writes` lands, given the store's state before the
/// batch.
pub open spec fn write_lands(m: ChunkMap, writes: Seq<(IVec3, Voxel)>, k: int) -> bool {
    let w = writes[k].0;
    match bulk_cell(m.voxel_at(w), writes.take(k), w) {
        Some(cur) => spec_is_soft(cur.id),
        None => false,
    }
}

/// Voxel of padded-chunk cell `(x, y, z)` for the chunk at `pos`: the
/// interior copies the chunk, each face cell copies the facing boundary
/// layer of the neighbour (empty when that neighbour is absent), and edge
/// and corner cells are empty.
pub open spec fn padded_spec(m: ChunkMap, pos: IVec3, x: int, y: int, z: int) -> Voxel {
    let ox: int = if x == 0 { -1 } else if x == PADDED_CHUNK_SIZE - 1 { 1 } else { 0 };
    let oy: int = if y == 0 { -1 } else if y == PADDED_CHUNK_SIZE - 1 { 1 } else { 0 };
    let oz: int = if z == 0 { -1 } else if z == PADDED_CHUNK_SIZE - 1 { 1 } else { 0 };
    let faces: int = (if ox != 0 { 1int } else { 0 }) + (if oy != 0 { 1int } else { 0 }) + (if oz
        != 0 { 1int } else { 0 });
    let lx: int = if ox == -1 { CHUNK_SIZE - 1 } else if ox == 1 { 0 } else { x - 1 };
    let ly: int = if oy == -1 { CHUNK_SIZE - 1 } else if oy == 1 { 0 } else { y - 1 };
    let lz: int = if oz == -1 { CHUNK_SIZE - 1 } else if oz == 1 { 0 } else { z - 1 };
    let src = offset(pos, ox, oy, oz);
    if faces <= 1 && m.contains(src) {
        m.chunk_at(src).local(UVec3 { x: lx as u32, y: ly as u32, z: lz as u32 })
    } else {
        Voxel { id: EMPTY }
    }
}

fn contains_pos(v: &Vec<IVec3>, c: IVec3) -> (r: bool)
    ensures
        r == v@.contains(c),
{
    let mut j: usize = 0;
    while j < v.len()
        invariant
            j <= v.len(),
            forall|t: int| 0 <= t < j ==> v@[t] != c,
        decreases v.len() - j,
    {
        if v[j] == c {
            return true;
        }
        j = j + 1;
    }
    false
}

/// The store: each loaded chunk under its own position.
#[derive(Debug)]
pub struct ChunkMap {
    pub chunks: HashMap<i128, TerrainChunkData>,
}

impl ChunkMap {
    pub open spec fn wf(&self) -> bool {
        forall|k: i128|
            #[trigger] self.chunks@.contains_key(k) ==> self.chunks@[k].wf() && spec_key(
                self.chunks@[k].position,
            ) == k
    }

    /// Whether a chunk is loaded at `p`.
    pub open spec fn contains(&self, p: IVec3) -> bool {
        self.chunks@.contains_key(spec_key(p) as i128)
    }

    /// The chunk loaded at `p`.
    pub open spec fn chunk_at(&self, p: IVec3) -> TerrainChunkData {
        self.chunks@[spec_key(p) as i128]
    }

    /// The voxel at world position `w`, if its chunk is loaded.
    pub open spec fn voxel_at(&self, w: IVec3) -> Option<Voxel> {
        if self.contains(spec_chunk_of(w)) {
            Some(self.chunk_at(spec_chunk_of(w)).local(spec_local_of(w)))
        } else {
            None
        }
    }

    proof fn lemma_contains_valid(&self, p: IVec3)
        requires
            self.wf(),
            self.contains(p),
        ensures
            self.chunk_at(p).wf(),
            self.chunk_at(p).position == p,
            valid_chunk_pos(p),
    {
        let k = spec_key(p) as i128;
        assert(self.chunks@.contains_key(k));
        lemma_key_injective(self.chunks@[k].position, p);
    }

    /// An empty store.
    pub fn new() -> (r: ChunkMap)
        ensures
            r.wf(),
            forall|p: IVec3| !r.contains(p),
    {
        ChunkMap { chunks: HashMap::new() }
    }

    /// Stores `chunk` under its own position, replacing any chunk there.
    pub fn insert(&mut self, chunk: TerrainChunkData)
        requires
            old(self).wf(),
            chunk.wf(),
        ensures
            final(self).wf(),
            final(self).contains(chunk.position),
            final(self).chunk_at(chunk.position) == chunk,
            forall|p: IVec3|
                p != chunk.position ==> #[trigger] final(self).contains(p) == old(self).contains(p)
                    && final(self).chunk_at(p) == old(self).chunk_at(p),
    {
        let k = chunk_key(chunk.position);
        let ghost pos = chunk.position;
        self.chunks.insert(k, chunk);
        proof {
            assert forall|p: IVec3| p != pos implies #[trigger] self.contains(p) == old(
                self,
            ).contains(p) && self.chunk_at(p) == old(self).chunk_at(p) by {
                if spec_key(p) == spec_key(pos) {
                    lemma_key_injective(p, pos);
                }
            }
        }
    }

    /// The chunk loaded at `p`, if any.
    pub fn get(&self, p: &IVec3) -> (r: Option<&TerrainChunkData>)
        requires
            self.wf(),
        ensures
            r == (if self.contains(*p) {
                Some(&self.chunk_at(*p))
            } else {
                None
            }),
            r is Some ==> r.unwrap().wf() && r.unwrap().position == *p,
    {
        let k = chunk_key(*p);
        let r = self.chunks.get(&k);
        proof {
            if self.contains(*p) {
                self.lemma_contains_valid(*p);
            }
        }
        r
    }

    /// The voxels of the chunk at `p`, in storage order.
    pub fn get_slice(&self, p: &IVec3) -> (r: Option<&[Voxel]>)
        requires
            self.wf(),
        ensures
            r is Some == self.contains(*p),
            r is Some ==> r.unwrap()@ == self.chunk_at(*p).chunk.voxels@,
    {
        match self.get(p) {
            Some(c) => Some(c.chunk.as_slice()),
            None => None,
        }
    }

    /// Unloads the chunk at `p`, handing it back.
    pub fn remove(&mut self, p: &IVec3) -> (r: Option<TerrainChunkData>)
        requires
            old(self).wf(),
        ensures
            final(self).wf(),
            !final(self).contains(*p),
            r == (if old(self).contains(*p) {
                Some(old(self).chunk_at(*p))
            } else {
                None
            }),
            forall|q: IVec3|
                q != *p ==> #[trigger] final(self).contains(q) == old(self).contains(q)
                    && final(self).chunk_at(q) == old(self).chunk_at(q),
    {
        let k = chunk_key(*p);
        let r = self.chunks.remove(&k);
        proof {
            assert forall|q: IVec3| q != *p implies #[trigger] self.contains(q) == old(
                self,
            ).contains(q) && self.chunk_at(q) == old(self).chunk_at(q) by {
                if spec_key(q) == spec_key(*p) {
                    lemma_key_injective(q, *p);
                }
            }
        }
        r
    }

    /// The voxel at a world position; `None` when its chunk is not loaded.
    pub fn get_at(&self, w: IVec3) -> (r: Option<Voxel>)
        requires
            self.wf(),
        ensures
            r == self.voxel_at(w),
    {
        let c = chunk_of(w);
        match self.get(&c) {
            Some(chunk) => Some(chunk.get_local_at(local_of(w))),
            None => None,
        }
    }

    /// Writes `v` at a world position; returns false, changing nothing, when
    /// its chunk is not loaded.
    pub fn set_at(&mut self, w: IVec3, v: Voxel) -> (r: bool)
        requires
            old(self).wf(),
        ensures
            final(self).wf(),
            r == old(self).contains(spec_chunk_of(w)),
            forall|p: IVec3| #[trigger] final(self).contains(p) == old(self).contains(p),
            forall|u: IVec3|
                #[trigger] final(self).voxel_at(u) == (if u == w && r {
                    Some(v)
                } else {
                    old(self).voxel_at(u)
                }),
    {
        let c = chunk_of(w);
        let l = local_of(w);
        let k = chunk_key(c);
        let removed = self.chunks.remove(&k);
        match removed {
            Some(mut chunk) => {
                proof {
                    old(self).lemma_contains_valid(c);
                }
                chunk.set_local_at(l, v);
                self.chunks.insert(k, chunk);
                proof {
                    assert forall|p: IVec3| #[trigger] self.contains(p) == old(self).contains(
                        p,
                    ) by {}
                    assert forall|u: IVec3| #[trigger]
                        self.voxel_at(u) == (if u == w {
                            Some(v)
                        } else {
                            old(self).voxel_at(u)
                        }) by {
                        let cu = spec_chunk_of(u);
                        lemma_world_split(u);
                        lemma_world_split(w);
                        if cu == c {
                            if spec_local_of(u) == l {
                                assert(u == w);
                            }
                        } else if spec_key(cu) == spec_key(c) {
                            lemma_key_injective(cu, c);
                        }
                    }
                }
                true
            },
            None => false,
        }
    }

    /// Applies `changes` in order; each lands only where the target voxel is
    /// soft (empty, water or snow) and its chunk is loaded. Returns the
    /// positions of the chunks that changed, each once.
    pub fn set_bulk(&mut self, changes: Vec<(IVec3, Voxel)>) -> (r: Vec<IVec3>)
        requires
            old(self).wf(),
        ensures
            final(self).wf(),
            forall|p: IVec3| #[trigger] final(self).contains(p) == old(self).contains(p),
            forall|w: IVec3|
                #[trigger] final(self).voxel_at(w) == bulk_cell(old(self).voxel_at(w), changes@, w),
            r@.no_duplicates(),
            forall|c: IVec3|
                r@.contains(c) <==> exists|k: int|
                    0 <= k < changes.len() && #[trigger] write_lands(*old(self), changes@, k)
                        && spec_chunk_of(changes@[k].0) == c,
    {
        let mut modified: Vec<IVec3> = Vec::new();
        let mut i: usize = 0;
        while i < changes.len()
            invariant
                i <= changes.len(),
                self.wf(),
                forall|p: IVec3| #[trigger] self.contains(p) == old(self).contains(p),
                forall|w: IVec3|
                    #[trigger] self.voxel_at(w) == bulk_cell(
                        old(self).voxel_at(w),
                        changes@.take(i as int),
                        w,
                    ),
                modified@.no_duplicates(),
                forall|c: IVec3|
                    modified@.contains(c) <==> exists|k: int|
                        0 <= k < i && #[trigger] write_lands(*old(self), changes@, k)
                            && spec_chunk_of(changes@[k].0) == c,
            decreases changes.len() - i,
        {
            let (w, v) = changes[i];
            let ghost before = *self;
            let ghost pre = changes@.take(i as int);
            let ghost post = changes@.take(i + 1);
            assert(post.drop_last() == pre);
            assert(post.last() == (w, v));
            let cur = self.get_at(w);
            let landed = match cur {
                Some(t) => t.is_soft(),
                None => false,
            };
            if landed {
                self.set_at(w, v);
            }
            proof {
                assert forall|u: IVec3| #[trigger]
                    self.voxel_at(u) == bulk_cell(old(self).voxel_at(u), post, u) by {
                    assert(before.voxel_at(u) == bulk_cell(old(self).voxel_at(u), pre, u));
                }
                assert(landed == write_lands(*old(self), changes@, i as int)) by {
                    assert(before.voxel_at(w) == bulk_cell(old(self).voxel_at(w), pre, w));
                }
            }
            let c = chunk_of(w);
            let ghost old_mod = modified@;
            if landed && !contains_pos(&modified, c) {
                modified.push(c);
            }
            proof {
                assert forall|cc: IVec3| modified@.contains(cc) <==> (old_mod.contains(cc) || (
                landed && cc == c)) by {
                    if old_mod.contains(cc) {
                        let t = choose|t: int| 0 <= t < old_mod.len() && old_mod[t] == cc;
                        assert(modified@[t] == cc);
                    }
                    if landed && cc == c && !old_mod.contains(cc) {
                        assert(modified@[old_mod.len() as int] == c);
                    }
                    if modified@.contains(cc) && !old_mod.contains(cc) {
                        let t = choose|t: int| 0 <= t < modified@.len() && modified@[t] == cc;
                        if t < old_mod.len() {
                            assert(old_mod[t] == cc);
                        }
                    }
                }
                assert forall|cc: IVec3|
                    modified@.contains(cc) <==> exists|k: int|
                        0 <= k < i + 1 && #[trigger] write_lands(*old(self), changes@, k)
                            && spec_chunk_of(changes@[k].0) == cc by {
                    if exists|k: int|
                        0 <= k < i + 1 && #[trigger] write_lands(*old(self), changes@, k)
                            && spec_chunk_of(changes@[k].0) == cc {
                        let k = choose|k: int|
                            0 <= k < i + 1 && #[trigger] write_lands(*old(self), changes@, k)
                                && spec_chunk_of(changes@[k].0) == cc;
                        if k == i {
                            assert(landed && cc == c);
                        }
                    }
                    if old_mod.contains(cc) {
                        let k = choose|k: int|
                            0 <= k < i && #[trigger] write_lands(*old(self), changes@, k)
                                && spec_chunk_of(changes@[k].0) == cc;
                        assert(0 <= k < i + 1);
                    }
                    if landed && cc == c {
                        assert(write_lands(*old(self), changes@, i as int));
                        assert(spec_chunk_of(changes@[i as int].0) == cc);
                    }
                }
            }
            i = i + 1;
        }
        assert(changes@.take(changes.len() as int) == changes@);
        modified
    }

    /// One cell of the padded copy of the chunk at `pos`, read from the
    /// centre chunk and its six face neighbours.
    fn padded_voxel(
        &self,
        pos: IVec3,
        center: &TerrainChunkData,
        west: Option<&TerrainChunkData>,
        east: Option<&TerrainChunkData>,
        down: Option<&TerrainChunkData>,
        up: Option<&TerrainChunkData>,
        north: Option<&TerrainChunkData>,
        south: Option<&TerrainChunkData>,
        x: u32,
        y: u32,
        z: u32,
    ) -> (r: Voxel)
        requires
            self.wf(),
            self.contains(pos),
            *center == self.chunk_at(pos),
            west == self.neighbour(pos, -1, 0, 0),
            east == self.neighbour(pos, 1, 0, 0),
            down == self.neighbour(pos, 0, -1, 0),
            up == self.neighbour(pos, 0, 1, 0),
            north == self.neighbour(pos, 0, 0, -1),
            south == self.neighbour(pos, 0, 0, 1),
            x < PADDED_CHUNK_SIZE,
            y < PADDED_CHUNK_SIZE,
            z < PADDED_CHUNK_SIZE,
        ensures
            r == padded_spec(*self, pos, x as int, y as int, z as int),
    {
        proof {
            self.lemma_contains_valid(pos);
            assert(offset(pos, 0, 0, 0) == pos);
            self.lemma_neighbour_wf(pos, -1, 0, 0);
            self.lemma_neighbour_wf(pos, 1, 0, 0);
            self.lemma_neighbour_wf(pos, 0, -1, 0);
            self.lemma_neighbour_wf(pos, 0, 1, 0);
            self.lemma_neighbour_wf(pos, 0, 0, -1);
            self.lemma_neighbour_wf(pos, 0, 0, 1);
        }
        let last: u32 = PADDED_CHUNK_SIZE - 1;
        let on_x = x == 0 || x == last;
        let on_y = y == 0 || y == last;
        let on_z = z == 0 || z == last;
        if !on_x && !on_y && !on_z {
            center.get_local_at(UVec3 { x: x - 1, y: y - 1, z: z - 1 })
        } else if on_x && !on_y && !on_z {
            let src = if x == 0 { west } else { east };
            let lx: u32 = if x == 0 { CHUNK_SIZE - 1 } else { 0 };
            match src {
                Some(c) => c.get_local_at(UVec3 { x: lx, y: y - 1, z: z - 1 }),
                None => Voxel { id: EMPTY },
            }
        } else if !on_x && on_y && !on_z {
            let src = if y == 0 { down } else { up };
            let ly: u32 = if y == 0 { CHUNK_SIZE - 1 } else { 0 };
            match src {
                Some(c) => c.get_local_at(UVec3 { x: x - 1, y: ly, z: z - 1 }),
                None => Voxel { id: EMPTY },
            }
        } else if !on_x && !on_y && on_z {
            let src = if z == 0 { north } else { south };
            let lz: u32 = if z == 0 { CHUNK_SIZE - 1 } else { 0 };
            match src {
                Some(c) => c.get_local_at(UVec3 { x: x - 1, y: y - 1, z: lz }),
                None => Voxel { id: EMPTY },
            }
        } else {
            Voxel { id: EMPTY }
        }
    }

    /// The chunk loaded at `offset(pos, dx, dy, dz)`, if any.
    pub open spec fn neighbour(&self, pos: IVec3, dx: int, dy: int, dz: int) -> Option<
        &TerrainChunkData,
    > {
        if self.contains(offset(pos, dx, dy, dz)) {
            Some(&self.chunk_at(offset(pos, dx, dy, dz)))
        } else {
            None
        }
    }

    proof fn lemma_neighbour_wf(&self, pos: IVec3, dx: int, dy: int, dz: int)
        requires
            self.wf(),
        ensures
            self.contains(offset(pos, dx, dy, dz)) ==> self.chunk_at(offset(pos, dx, dy, dz)).wf(),
    {
        if self.contains(offset(pos, dx, dy, dz)) {
            self.lemma_contains_valid(offset(pos, dx, dy, dz));
        }
    }

    fn get_neighbour(&self, pos: IVec3, dx: i32, dy: i32, dz: i32) -> (r: Option<&TerrainChunkData>)
        requires
            self.wf(),
            valid_chunk_pos(pos),
            -1 <= dx <= 1,
            -1 <= dy <= 1,
            -1 <= dz <= 1,
        ensures
            r == self.neighbour(pos, dx as int, dy as int, dz as int),
    {
        let p = IVec3 { x: pos.x + dx, y: pos.y + dy, z: pos.z + dz };
        self.get(&p)
    }

    /// A `PADDED_CHUNK_SIZE` cube for meshing the chunk at `pos`: its
    /// interior is the chunk, its six faces the facing layers of the
    /// neighbours (empty where a neighbour is not loaded), its edges and
    /// corners empty. `None` when no chunk is loaded at `pos`.
    pub fn get_padded_chunk_vec(&self, pos: &IVec3) -> (r: Option<Chunk>)
        requires
            self.wf(),
        ensures
            r is Some == self.contains(*pos),
            r is Some ==> {
                let c = r.unwrap();
                &&& c.wf()
                &&& c.size == PADDED_CHUNK_SIZE
                &&& forall|p: UVec3|
                    c.in_bounds(p) ==> #[trigger] c.at(p) == padded_spec(
                        *self,
                        *pos,
                        p.x as int,
                        p.y as int,
                        p.z as int,
                    )
            },
    {
        let pos = *pos;
        let center = match self.get(&pos) {
            Some(c) => c,
            None => {
                return None;
            },
        };
        let west = self.get_neighbour(pos, -1, 0, 0);
        let east = self.get_neighbour(pos, 1, 0, 0);
        let down = self.get_neighbour(pos, 0, -1, 0);
        let up = self.get_neighbour(pos, 0, 1, 0);
        let north = self.get_neighbour(pos, 0, 0, -1);
        let south = self.get_neighbour(pos, 0, 0, 1);
        let n: u32 = PADDED_CHUNK_SIZE;
        let ghost s: int = PADDED_CHUNK_SIZE as int;
        let mut voxels: Vec<Voxel> = Vec::new();
        let mut z: u32 = 0;
        while z < n
            invariant
                z <= n,
                n == PADDED_CHUNK_SIZE,
                s == n,
                self.wf(),
                self.contains(pos),
                *center == self.chunk_at(pos),
                west == self.neighbour(pos, -1, 0, 0),
                east == self.neighbour(pos, 1, 0, 0),
                down == self.neighbour(pos, 0, -1, 0),
                up == self.neighbour(pos, 0, 1, 0),
                north == self.neighbour(pos, 0, 0, -1),
                south == self.neighbour(pos, 0, 0, 1),
                voxels.len() == s * s * z,
                forall|i: int|
                    0 <= i < voxels.len() ==> #[trigger] voxels@[i] == padded_spec(
                        *self,
                        pos,
                        i % s,
                        (i / s) % s,
                        (i / s) / s,
                    ),
            decreases n - z,
        {
            let mut y: u32 = 0;
            while y < n
                invariant
                    y <= n,
                    z < n,
                    n == PADDED_CHUNK_SIZE,
                    s == n,
                    self.wf(),
                    self.contains(pos),
                    *center == self.chunk_at(pos),
                    west == self.neighbour(pos, -1, 0, 0),
                    east == self.neighbour(pos, 1, 0, 0),
                    down == self.neighbour(pos, 0, -1, 0),
                    up == self.neighbour(pos, 0, 1, 0),
                    north == self.neighbour(pos, 0, 0, -1),
                    south == self.neighbour(pos, 0, 0, 1),
                    voxels.len() == s * s * z + s * y,
                    forall|i: int|
                        0 <= i < voxels.len() ==> #[trigger] voxels@[i] == padded_spec(
                            *self,
                            pos,
                            i % s,
                            (i / s) % s,
                            (i / s) / s,
                        ),
                decreases n - y,
            {
                let mut x: u32 = 0;
                while x < n
                    invariant
                        x <= n,
                        y < n,
                        z < n,
                        n == PADDED_CHUNK_SIZE,
                        s == n,
                        self.wf(),
                        self.contains(pos),
                        *center == self.chunk_at(pos),
                        west == self.neighbour(pos, -1, 0, 0),
                        east == self.neighbour(pos, 1, 0, 0),
                        down == self.neighbour(pos, 0, -1, 0),
                        up == self.neighbour(pos, 0, 1, 0),
                        north == self.neighbour(pos, 0, 0, -1),
                        south == self.neighbour(pos, 0, 0, 1),
                        voxels.len() == s * s * z + s * y + x,
                        forall|i: int|
                            0 <= i < voxels.len() ==> #[trigger] voxels@[i] == padded_spec(
                                *self,
                                pos,
                                i % s,
                                (i / s) % s,
                                (i / s) / s,
                            ),
                    decreases n - x,
                {
                    let v = self.padded_voxel(pos, center, west, east, down, up, north, south, x, y, z);
                    proof {
                        lemma_lin_inverse(s, x as int, y as int, z as int);
                        assert(lin(s, x as int, y as int, z as int) == s * s * z + s * y + x) by (nonlinear_arith);
                    }
                    voxels.push(v);
                    x = x + 1;
                }
                y = y + 1;
            }
            assert(s * s * z + s * y == s * s * (z + 1)) by (nonlinear_arith)
                requires
                    y == s,
            ;
            z = z + 1;
        }
        let r = Chunk { voxels, size: n };
        proof {
            assert(s * s * s == 39304);
            assert forall|p: UVec3| r.in_bounds(p) implies #[trigger] r.at(p) == padded_spec(
                *self,
                pos,
                p.x as int,
                p.y as int,
                p.z as int,
            ) by {
                lemma_lin_bounds(s, p.x as int, p.y as int, p.z as int);
                lemma_lin_inverse(s, p.x as int, p.y as int, p.z as int);
            }
        }
        Some(r)
    }
}

} // verus!
