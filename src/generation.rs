//! Terrain generation from cached column data: the base fill of a chunk,
//! the choice of feature placements on its surface cells, and the writes
//! those features make.

use vstd::prelude::*;
use vstd::wrapping::u32_specs;
use crate::biomes::{
    climate_ok, effective_biome, spec_climate, spec_features, spec_resolve_biome, spec_sub_surface,
    spec_surface, BiomeRegistry, ALTITUDE_LIMIT, COLD_OCEAN,
};
use crate::chunk::{lemma_lin_bounds, lemma_lin_inverse, lin, Chunk, TerrainChunkData};
use crate::coords::{in_chunk, valid_chunk_pos, IVec3, UVec3, CHUNK_SIZE};
use crate::feature::{
    concat_range, feature_spec, hash, origin_ok, spec_hash, BranchDirections, FeatureKind, Write,
};
use crate::voxel::{Voxel, EMPTY, ICE, STONE, WATER};

verus! {

/// Number of cells of a column map: one per (x, z) of a chunk column.
pub const COLUMN_CELLS: usize = 1024;

/// Index of column cell `(x, z)`.
pub open spec fn column_index(x: int, z: int) -> int {
    x + CHUNK_SIZE * z
}

pub open spec fn altitudes_ok(am: Seq<i32>) -> bool {
    am.len() == COLUMN_CELLS && forall|i: int|
        0 <= i < am.len() ==> -ALTITUDE_LIMIT <= #[trigger] am[i] <= ALTITUDE_LIMIT
}

/// The base-terrain voxel at world height `wy` of a column with surface
/// altitude `alt` in biome `biome`: stone more than three below the
/// surface, the biome's subsurface block above that, its surface block at
/// the surface, water (ice at the top layer of a cold ocean) from there up
/// to sea level, and empty above.
pub open spec fn base_voxel(alt: int, biome: u8, wy: int) -> Voxel {
    let b = effective_biome(biome);
    if wy < alt - 3 {
        Voxel { id: STONE }
    } else if wy < alt {
        Voxel { id: spec_sub_surface(b) }
    } else if wy == alt {
        Voxel { id: spec_surface(b) }
    } else if wy < 0 {
        if b == COLD_OCEAN && wy == -1 {
            Voxel { id: ICE }
        } else {
            Voxel { id: WATER }
        }
    } else {
        Voxel { id: EMPTY }
    }
}

/// Base-terrain voxel of local cell `l` of the chunk at `pos`.
pub open spec fn base_cell(pos: IVec3, am: Seq<i32>, bm: Seq<u8>, l: UVec3) -> Voxel {
    let i = column_index(l.x as int, l.z as int);
    base_voxel(am[i] as int, bm[i], pos.y * CHUNK_SIZE + l.y)
}

fn base_voxel_exec(alt: i32, registry: &BiomeRegistry, biome: u8, wy: i32) -> (r: Voxel)
    requires
        registry.wf(),
        -ALTITUDE_LIMIT <= alt <= ALTITUDE_LIMIT,
    ensures
        r == base_voxel(alt as int, biome, wy as int),
{
    let data = registry.get_biome_data_by_id(biome);
    if wy < alt - 3 {
        Voxel { id: STONE }
    } else if wy < alt {
        data.sub_surface_block
    } else if wy == alt {
        data.surface_block
    } else if wy < 0 {
        if data.id == COLD_OCEAN && wy == -1 {
            Voxel { id: ICE }
        } else {
            Voxel { id: WATER }
        }
    } else {
        Voxel { id: EMPTY }
    }
}

/// Fills the chunk at `pos` from its column's altitude and biome maps.
pub fn generate_base_terrain(
    pos: IVec3,
    altitude_map: &Vec<i32>,
    biome_map: &Vec<u8>,
    registry: &BiomeRegistry,
) -> (r: TerrainChunkData)
    requires
        valid_chunk_pos(pos),
        altitudes_ok(altitude_map@),
        biome_map.len() == COLUMN_CELLS,
        registry.wf(),
    ensures
        r.wf(),
        r.position == pos,
        forall|l: UVec3|
            in_chunk(l) ==> #[trigger] r.local(l) == base_cell(pos, altitude_map@, biome_map@, l),
{
    let n: u32 = CHUNK_SIZE;
    let ghost s: int = CHUNK_SIZE as int;
    let mut voxels: Vec<Voxel> = Vec::new();
    let mut z: u32 = 0;
    while z < n
        invariant
            z <= n,
            n == CHUNK_SIZE,
            s == n,
            valid_chunk_pos(pos),
            altitudes_ok(altitude_map@),
            biome_map.len() == COLUMN_CELLS,
            registry.wf(),
            voxels.len() == s * s * z,
            forall|i: int|
                0 <= i < voxels.len() ==> #[trigger] voxels@[i] == base_cell(
                    pos,
                    altitude_map@,
                    biome_map@,
                    UVec3 { x: (i % s) as u32, y: ((i / s) % s) as u32, z: ((i / s) / s) as u32 },
                ),
        decreases n - z,
    {
        let mut y: u32 = 0;
        while y < n
            invariant
                y <= n,
                z < n,
                n == CHUNK_SIZE,
                s == n,
                valid_chunk_pos(pos),
                altitudes_ok(altitude_map@),
                biome_map.len() == COLUMN_CELLS,
                registry.wf(),
                voxels.len() == s * s * z + s * y,
                forall|i: int|
                    0 <= i < voxels.len() ==> #[trigger] voxels@[i] == base_cell(
                        pos,
                        altitude_map@,
                        biome_map@,
                        UVec3 { x: (i % s) as u32, y: ((i / s) % s) as u32, z: ((i / s) / s) as u32 },
                    ),
            decreases n - y,
        {
            let wy = pos.y * 32 + y as i32;
            let mut x: u32 = 0;
            while x < n
                invariant
                    x <= n,
                    y < n,
                    z < n,
                    n == CHUNK_SIZE,
                    s == n,
                    wy == pos.y * s + y,
                    valid_chunk_pos(pos),
                    altitudes_ok(altitude_map@),
                    biome_map.len() == COLUMN_CELLS,
                    registry.wf(),
                    voxels.len() == s * s * z + s * y + x,
                    forall|i: int|
                        0 <= i < voxels.len() ==> #[trigger] voxels@[i] == base_cell(
                            pos,
                            altitude_map@,
                            biome_map@,
                            UVec3 {
                                x: (i % s) as u32,
                                y: ((i / s) % s) as u32,
                                z: ((i / s) / s) as u32,
                            },
                        ),
                decreases n - x,
            {
                let idx = (x + 32 * z) as usize;
                let v = base_voxel_exec(altitude_map[idx], registry, biome_map[idx], wy);
                proof {
                    lemma_lin_inverse(s, x as int, y as int, z as int);
                    assert(lin(s, x as int, y as int, z as int) == s * s * z + s * y + x) by (nonlinear_arith);
                    assert(UVec3 { x: x, y: y, z: z } == UVec3 {
                        x: (lin(s, x as int, y as int, z as int) % s) as u32,
                        y: ((lin(s, x as int, y as int, z as int) / s) % s) as u32,
                        z: ((lin(s, x as int, y as int, z as int) / s) / s) as u32,
                    });
                }
                voxels.push(v);
                x = x + 1;
            }
            y = y + 1;
        }
        assert(s * s * z + s * y == s * s * (z + 1)) by (nonlinear_arith)
            requires
                y == s,
        ;
        z = z + 1;
    }
    let r = TerrainChunkData { chunk: Chunk { voxels, size: n }, position: pos };
    proof {
        assert forall|l: UVec3| in_chunk(l) implies #[trigger] r.local(l) == base_cell(
            pos,
            altitude_map@,
            biome_map@,
            l,
        ) by {
            lemma_lin_bounds(s, l.x as int, l.y as int, l.z as int);
            lemma_lin_inverse(s, l.x as int, l.y as int, l.z as int);
        }
    }
    r
}

/// The placement of feature `fi` of the biome's list at a surface cell, if
/// its hash draw falls under the feature's probability.
pub open spec fn feature_draw(
    origin: IVec3,
    seed: u32,
    feats: Seq<(FeatureKind, u32)>,
    fi: int,
) -> Seq<(IVec3, FeatureKind)> {
    if spec_hash(origin.x, origin.z, u32_specs::wrapping_add(seed, fi as u32)) % 10000 < feats[fi].1 {
        seq![(origin, feats[fi].0)]
    } else {
        Seq::empty()
    }
}

pub open spec fn draw_fn(origin: IVec3, seed: u32, feats: Seq<(FeatureKind, u32)>) -> spec_fn(int) -> Seq<
    (IVec3, FeatureKind),
> {
    |fi: int| feature_draw(origin, seed, feats, fi)
}

/// Placements at column cell `(x, z)` of the chunk at `pos`: only when the
/// column's surface lies inside this chunk, at one above the surface.
pub open spec fn column_placements(
    pos: IVec3,
    seed: u32,
    am: Seq<i32>,
    bm: Seq<u8>,
    x: int,
    z: int,
) -> Seq<(IVec3, FeatureKind)> {
    let i = column_index(x, z);
    let alt = am[i] as int;
    let ly = alt - pos.y * CHUNK_SIZE;
    let origin = IVec3 {
        x: (pos.x * CHUNK_SIZE + x) as i32,
        y: (alt + 1) as i32,
        z: (pos.z * CHUNK_SIZE + z) as i32,
    };
    let feats = spec_features(effective_biome(bm[i]));
    if 0 <= ly < CHUNK_SIZE && origin_ok(origin) {
        concat_range(0, feats.len(), draw_fn(origin, seed, feats))
    } else {
        Seq::empty()
    }
}

pub open spec fn placement_x_fn(pos: IVec3, seed: u32, am: Seq<i32>, bm: Seq<u8>, z: int) -> spec_fn(
    int,
) -> Seq<(IVec3, FeatureKind)> {
    |x: int| column_placements(pos, seed, am, bm, x, z)
}

pub open spec fn placement_z_fn(pos: IVec3, seed: u32, am: Seq<i32>, bm: Seq<u8>) -> spec_fn(int) -> Seq<
    (IVec3, FeatureKind),
> {
    |z: int| concat_range(0, CHUNK_SIZE as nat, placement_x_fn(pos, seed, am, bm, z))
}

/// All feature placements of the chunk at `pos`, z outermost, then x, then
/// the biome's feature order.
pub open spec fn spec_placements(pos: IVec3, seed: u32, am: Seq<i32>, bm: Seq<u8>) -> Seq<
    (IVec3, FeatureKind),
> {
    concat_range(0, CHUNK_SIZE as nat, placement_z_fn(pos, seed, am, bm))
}

fn push_column_placements(
    out: &mut Vec<(IVec3, FeatureKind)>,
    pos: IVec3,
    seed: u32,
    altitude_map: &Vec<i32>,
    biome_map: &Vec<u8>,
    registry: &BiomeRegistry,
    x: u32,
    z: u32,
)
    requires
        valid_chunk_pos(pos),
        altitudes_ok(altitude_map@),
        biome_map.len() == COLUMN_CELLS,
        registry.wf(),
        x < CHUNK_SIZE,
        z < CHUNK_SIZE,
    ensures
        final(out)@ == old(out)@ + column_placements(
            pos,
            seed,
            altitude_map@,
            biome_map@,
            x as int,
            z as int,
        ),
{
    let idx = (x + 32 * z) as usize;
    let alt = altitude_map[idx];
    let ly = alt as i64 - pos.y as i64 * 32;
    let wx = pos.x * 32 + x as i32;
    let wz = pos.z * 32 + z as i32;
    let origin = IVec3 { x: wx, y: alt + 1, z: wz };
    let ok = -0x4000_0000 <= wx && wx <= 0x4000_0000 && -0x4000_0000 <= wz && wz <= 0x4000_0000
        && -0x4000_0000 <= alt + 1 && alt + 1 <= 0x4000_0000;
    if 0 <= ly && ly < 32 && ok {
        let data = registry.get_biome_data_by_id(biome_map[idx]);
        let feats = &data.features;
        let ghost draws = draw_fn(origin, seed, feats@);
        let ghost before = out@;
        let mut fi: usize = 0;
        while fi < feats.len()
            invariant
                fi <= feats.len(),
                idx < COLUMN_CELLS,
                biome_map.len() == COLUMN_CELLS,
                origin.x == wx,
                origin.z == wz,
                feats@ == spec_features(effective_biome(biome_map@[idx as int])),
                draws == draw_fn(origin, seed, feats@),
                out@ == before + concat_range(0, fi as nat, draws),
            decreases feats.len() - fi,
        {
            let (kind, prob) = feats[fi];
            let h = hash(wx, wz, seed.wrapping_add(fi as u32));
            let ghost prev = out@;
            if h % 10000 < prob {
                out.push((origin, kind));
            }
            assert(out@ =~= prev + draws(fi as int));
            assert(concat_range(0, (fi + 1) as nat, draws) == concat_range(0, fi as nat, draws)
                + draws(fi as int));
            fi = fi + 1;
        }
    } else {
        assert(out@ =~= old(out)@ + column_placements(
            pos,
            seed,
            altitude_map@,
            biome_map@,
            x as int,
            z as int,
        ));
    }
}

/// Where features go in the chunk at `pos`: for each surface cell inside
/// the chunk, each feature of its biome is drawn independently with a hash
/// of the cell's world x and z and `seed + feature index`, and placed one
/// above the surface when the draw (mod 10000) is below its probability.
pub fn feature_placements(
    pos: IVec3,
    seed: u32,
    altitude_map: &Vec<i32>,
    biome_map: &Vec<u8>,
    registry: &BiomeRegistry,
) -> (r: Vec<(IVec3, FeatureKind)>)
    requires
        valid_chunk_pos(pos),
        altitudes_ok(altitude_map@),
        biome_map.len() == COLUMN_CELLS,
        registry.wf(),
    ensures
        r@ == spec_placements(pos, seed, altitude_map@, biome_map@),
{
    let ghost zs = placement_z_fn(pos, seed, altitude_map@, biome_map@);
    let mut out: Vec<(IVec3, FeatureKind)> = Vec::new();
    let mut z: u32 = 0;
    while z < 32
        invariant
            z <= 32,
            valid_chunk_pos(pos),
            altitudes_ok(altitude_map@),
            biome_map.len() == COLUMN_CELLS,
            registry.wf(),
            zs == placement_z_fn(pos, seed, altitude_map@, biome_map@),
            out@ == concat_range(0, z as nat, zs),
        decreases 32 - z,
    {
        let ghost xs = placement_x_fn(pos, seed, altitude_map@, biome_map@, z as int);
        let ghost before = out@;
        let mut x: u32 = 0;
        while x < 32
            invariant
                x <= 32,
                z < 32,
                valid_chunk_pos(pos),
                altitudes_ok(altitude_map@),
                biome_map.len() == COLUMN_CELLS,
                registry.wf(),
                xs == placement_x_fn(pos, seed, altitude_map@, biome_map@, z as int),
                out@ == before + concat_range(0, x as nat, xs),
            decreases 32 - x,
        {
            let ghost prev = out@;
            push_column_placements(&mut out, pos, seed, altitude_map, biome_map, registry, x, z);
            assert(out@ =~= prev + xs(x as int));
            assert(concat_range(0, (x + 1) as nat, xs) == concat_range(0, x as nat, xs) + xs(
                x as int,
            ));
            x = x + 1;
        }
        assert(zs(z as int) == concat_range(0, CHUNK_SIZE as nat, xs));
        assert(concat_range(0, (z + 1) as nat, zs) == concat_range(0, z as nat, zs) + zs(z as int));
        z = z + 1;
    }
    out
}

pub open spec fn placement_writes_fn(ps: Seq<(IVec3, FeatureKind)>, seed: u32, t: Seq<(i32, i32)>) -> spec_fn(
    int,
) -> Seq<Write> {
    |k: int|
        if origin_ok(ps[k].0) {
            feature_spec(ps[k].1, ps[k].0, seed, t)
        } else {
            Seq::empty()
        }
}

/// The writes of placed features, in placement order.
pub open spec fn spec_feature_writes(ps: Seq<(IVec3, FeatureKind)>, seed: u32, t: Seq<(i32, i32)>) -> Seq<
    Write,
> {
    concat_range(0, ps.len(), placement_writes_fn(ps, seed, t))
}

/// Every write that the features of the chunk at `pos` make, possibly into
/// neighbouring chunks.
pub fn generate_features(
    pos: IVec3,
    seed: u32,
    altitude_map: &Vec<i32>,
    biome_map: &Vec<u8>,
    registry: &BiomeRegistry,
    dirs: &BranchDirections,
) -> (r: Vec<Write>)
    requires
        valid_chunk_pos(pos),
        altitudes_ok(altitude_map@),
        biome_map.len() == COLUMN_CELLS,
        registry.wf(),
        dirs.wf(),
    ensures
        r@ == spec_feature_writes(
            spec_placements(pos, seed, altitude_map@, biome_map@),
            seed,
            dirs.offsets@,
        ),
{
    let ps = feature_placements(pos, seed, altitude_map, biome_map, registry);
    let ghost ws = placement_writes_fn(ps@, seed, dirs.offsets@);
    let mut out: Vec<Write> = Vec::new();
    let mut k: usize = 0;
    while k < ps.len()
        invariant
            k <= ps.len(),
            dirs.wf(),
            ws == placement_writes_fn(ps@, seed, dirs.offsets@),
            out@ == concat_range(0, k as nat, ws),
        decreases ps.len() - k,
    {
        let (origin, kind) = ps[k];
        let ghost prev = out@;
        let ok = -0x4000_0000 <= origin.x && origin.x <= 0x4000_0000 && -0x4000_0000 <= origin.y
            && origin.y <= 0x4000_0000 && -0x4000_0000 <= origin.z && origin.z <= 0x4000_0000;
        if ok {
            let mut w = kind.place(origin, seed, dirs);
            out.append(&mut w);
        }
        assert(out@ =~= prev + ws(k as int));
        assert(concat_range(0, (k + 1) as nat, ws) == concat_range(0, k as nat, ws) + ws(k as int));
        k = k + 1;
    }
    out
}

/// Raw climate samples (temperature, humidity, rarity; millionths) whose
/// temperature and humidity are in range.
pub open spec fn samples_ok(cs: Seq<(i64, i64, i64)>) -> bool {
    cs.len() == COLUMN_CELLS && forall|i: int|
        0 <= i < cs.len() ==> climate_ok((#[trigger] cs[i]).0 as int) && climate_ok(cs[i].1 as int)
}

/// The biome of one column cell from its altitude and raw climate samples.
pub open spec fn column_biome(alt: int, c: (i64, i64, i64)) -> u8 {
    let k = spec_climate(c.0 as int, c.1 as int, c.2 as int, alt);
    spec_resolve_biome(k.0, k.1, k.2, alt)
}

/// The biome map of a chunk column: each cell's biome is resolved from its
/// altitude and its raw noise samples, with the climate feedback applied.
pub fn generate_biome_map(
    altitude_map: &Vec<i32>,
    samples: &Vec<(i64, i64, i64)>,
    registry: &BiomeRegistry,
) -> (r: Vec<u8>)
    requires
        altitudes_ok(altitude_map@),
        samples_ok(samples@),
    ensures
        r.len() == COLUMN_CELLS,
        forall|i: int|
            0 <= i < r.len() ==> #[trigger] r@[i] == column_biome(altitude_map@[i] as int, samples@[i]),
{
    let mut r: Vec<u8> = Vec::new();
    let mut i: usize = 0;
    while i < COLUMN_CELLS
        invariant
            i <= COLUMN_CELLS,
            altitudes_ok(altitude_map@),
            samples_ok(samples@),
            r.len() == i,
            forall|j: int|
                0 <= j < i ==> #[trigger] r@[j] == column_biome(altitude_map@[j] as int, samples@[j]),
        decreases COLUMN_CELLS - i,
    {
        let (t, h, q) = samples[i];
        let b = registry.get_biome(t, h, q, altitude_map[i]);
        r.push(b.id);
        i = i + 1;
    }
    r
}

/// Base terrain is a function of the chunk position and the column maps:
/// two chunks generated from the same inputs hold the same voxels.
pub proof fn lemma_base_terrain_deterministic(
    a: TerrainChunkData,
    b: TerrainChunkData,
    pos: IVec3,
    am: Seq<i32>,
    bm: Seq<u8>,
)
    requires
        a.wf(),
        b.wf(),
        forall|l: UVec3| in_chunk(l) ==> #[trigger] a.local(l) == base_cell(pos, am, bm, l),
        forall|l: UVec3| in_chunk(l) ==> #[trigger] b.local(l) == base_cell(pos, am, bm, l),
    ensures
        a.chunk.voxels@ == b.chunk.voxels@,
{
    let s = CHUNK_SIZE as int;
    assert forall|i: int| 0 <= i < a.chunk.voxels.len() implies a.chunk.voxels@[i]
        == b.chunk.voxels@[i] by {
        crate::chunk::lemma_lin_split(s, i);
        let l = UVec3 { x: (i % s) as u32, y: ((i / s) % s) as u32, z: ((i / s) / s) as u32 };
        assert(a.local(l) == base_cell(pos, am, bm, l));
        assert(b.local(l) == base_cell(pos, am, bm, l));
    }
    assert(a.chunk.voxels@ =~= b.chunk.voxels@);
}

/// The world seed and the biome table shared by every generation job.
#[derive(Debug)]
pub struct WorldGenConfig {
    pub seed: u32,
    pub biome_registry: BiomeRegistry,
}

impl WorldGenConfig {
    pub open spec fn wf(&self) -> bool {
        self.biome_registry.wf()
    }

    pub fn new(seed: u32) -> (r: WorldGenConfig)
        ensures
            r.wf(),
            r.seed == seed,
    {
        WorldGenConfig { seed, biome_registry: BiomeRegistry::new(seed) }
    }
}

} // verus!
