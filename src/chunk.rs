//! Dense cubic voxel grids: plain chunks and padded chunks share one type,
//! and terrain chunks add their chunk position.

use vstd::prelude::*;
use vstd::arithmetic::div_mod::lemma_fundamental_div_mod_converse;
use crate::coords::{
    in_chunk, local_of, spec_chunk_of, spec_local_of, spec_world_of,
    valid_chunk_pos, world_of,
    IVec3, UVec3, CHUNK_SIZE,
};
use crate::voxel::{Voxel, EMPTY};
use crate::feature::concat_range;

verus! {

/// Linear index of `(x, y, z)` in a cube of edge `s`: x varies fastest.
pub open spec fn lin(s: int, x: int, y: int, z: int) -> int {
    x + s * (y + s * z)
}

/// The index of an in-range cell lies inside the cube's storage.
pub proof fn lemma_lin_bounds(s: int, x: int, y: int, z: int)
    requires
        0 <= x < s,
        0 <= y < s,
        0 <= z < s,
    ensures
        0 <= lin(s, x, y, z) < s * s * s,
{
    assert(0 <= y + s * z < s * s) by (nonlinear_arith)
        requires
            0 <= y < s,
            0 <= z < s,
    ;
    assert(0 <= lin(s, x, y, z) < s * s * s) by (nonlinear_arith)
        requires
            0 <= y + s * z < s * s,
            0 <= x < s,
    ;
}

/// An in-range cell is recovered from its index.
pub proof fn lemma_lin_inverse(s: int, x: int, y: int, z: int)
    requires
        0 <= x < s,
        0 <= y < s,
        0 <= z < s,
    ensures
        lin(s, x, y, z) % s == x,
        (lin(s, x, y, z) / s) % s == y,
        (lin(s, x, y, z) / s) / s == z,
{
    assert(lin(s, x, y, z) == (y + s * z) * s + x && y + s * z == z * s + y) by (nonlinear_arith);
    lemma_fundamental_div_mod_converse(lin(s, x, y, z), s, y + s * z, x);
    lemma_fundamental_div_mod_converse(y + s * z, s, z, y);
}

/// Each index of the storage is the index of one in-range cell.
pub proof fn lemma_lin_split(s: int, i: int)
    requires
        s > 0,
        0 <= i < s * s * s,
    ensures
        0 <= i % s < s,
        0 <= (i / s) % s < s,
        0 <= (i / s) / s < s,
        i == lin(s, i % s, (i / s) % s, (i / s) / s),
{
    vstd::arithmetic::div_mod::lemma_fundamental_div_mod(i, s);
    vstd::arithmetic::div_mod::lemma_fundamental_div_mod(i / s, s);
    vstd::arithmetic::div_mod::lemma_div_pos_is_pos(i, s);
    vstd::arithmetic::div_mod::lemma_div_pos_is_pos(i / s, s);
    let q = i / s;
    let q2 = q / s;
    assert(q < s * s) by (nonlinear_arith)
        requires
            i == s * q + i % s,
            0 <= i % s,
            i < s * s * s,
            s > 0,
    ;
    assert(q2 < s) by (nonlinear_arith)
        requires
            q == s * q2 + q % s,
            0 <= q % s,
            q < s * s,
            s > 0,
    ;
}

/// A cube of voxels with edge `size`, stored with x varying fastest.
#[derive(Debug, Clone)]
pub struct Chunk {
    pub voxels: Vec<Voxel>,
    pub size: u32,
}

impl Chunk {
    pub open spec fn wf(&self) -> bool {
        1 <= self.size <= 64 && self.voxels.len() == self.size * self.size * self.size
    }

    pub open spec fn in_bounds(&self, p: UVec3) -> bool {
        p.x < self.size && p.y < self.size && p.z < self.size
    }

    /// The voxel at `p`.
    pub open spec fn at(&self, p: UVec3) -> Voxel {
        self.voxels@[lin(self.size as int, p.x as int, p.y as int, p.z as int)]
    }

    /// A chunk of edge `size` holding `voxel` in every cell.
    pub fn new_filled(size: u32, voxel: Voxel) -> (r: Chunk)
        requires
            1 <= size <= 64,
        ensures
            r.wf(),
            r.size == size,
            forall|i: int| 0 <= i < r.voxels.len() ==> #[trigger] r.voxels@[i] == voxel,
    {
        assert(size * size <= 64 * 64 && size * size * size <= 64 * 64 * 64) by (nonlinear_arith)
            requires
                1 <= size <= 64,
        ;
        let n: usize = (size * size * size) as usize;
        let mut voxels: Vec<Voxel> = Vec::new();
        let mut i: usize = 0;
        while i < n
            invariant
                i <= n,
                n == size * size * size,
                voxels.len() == i,
                forall|j: int| 0 <= j < voxels.len() ==> #[trigger] voxels@[j] == voxel,
            decreases n - i,
        {
            voxels.push(voxel);
            i = i + 1;
        }
        Chunk { voxels, size }
    }

    /// A chunk of edge `size` holding only the empty voxel.
    pub fn new_empty(size: u32) -> (r: Chunk)
        requires
            1 <= size <= 64,
        ensures
            r.wf(),
            r.size == size,
            forall|i: int| 0 <= i < r.voxels.len() ==> (#[trigger] r.voxels@[i]).id == EMPTY,
    {
        Chunk::new_filled(size, Voxel { id: EMPTY })
    }

    /// Storage index of an in-range position.
    pub fn index_of(&self, p: UVec3) -> (r: usize)
        requires
            self.wf(),
            self.in_bounds(p),
        ensures
            r as int == lin(self.size as int, p.x as int, p.y as int, p.z as int),
            r < self.voxels.len(),
    {
        let s = self.size;
        proof {
            lemma_lin_bounds(s as int, p.x as int, p.y as int, p.z as int);
            assert(p.y + s * p.z < s * s && s * s <= 64 * 64) by (nonlinear_arith)
                requires
                    p.y < s,
                    p.z < s,
                    1 <= s <= 64,
            ;
            assert(s * (p.y + s * p.z) <= s * (s * s)) by (nonlinear_arith)
                requires
                    p.y + s * p.z < s * s,
                    1 <= s,
            ;
            assert(s * (s * s) <= 64 * 64 * 64) by (nonlinear_arith)
                requires
                    1 <= s <= 64,
            ;
        }
        (p.x + s * (p.y + s * p.z)) as usize
    }

    /// The voxel at an in-range position.
    pub fn get_at(&self, p: UVec3) -> (r: Voxel)
        requires
            self.wf(),
            self.in_bounds(p),
        ensures
            r == self.at(p),
    {
        let i = self.index_of(p);
        self.voxels[i]
    }

    /// Writes `v` at `p`; every other cell keeps its voxel.
    pub fn set_at(&mut self, p: UVec3, v: Voxel)
        requires
            old(self).wf(),
            old(self).in_bounds(p),
        ensures
            final(self).wf(),
            final(self).size == old(self).size,
            final(self).voxels@ == old(self).voxels@.update(
                lin(old(self).size as int, p.x as int, p.y as int, p.z as int),
                v,
            ),
    {
        let i = self.index_of(p);
        self.voxels.set(i, v);
    }

    pub open spec fn range_x_fn(&self, x0: int, nx: nat, y: int, z: int) -> spec_fn(int) -> Seq<Voxel> {
        |x: int| seq![self.at(UVec3 { x: x as u32, y: y as u32, z: z as u32 })]
    }

    pub open spec fn range_y_fn(&self, x0: int, nx: nat, y0: int, ny: nat, z: int) -> spec_fn(int) -> Seq<
        Voxel,
    > {
        |y: int| concat_range(x0, nx, self.range_x_fn(x0, nx, y, z))
    }

    pub open spec fn range_z_fn(&self, x0: int, nx: nat, y0: int, ny: nat) -> spec_fn(int) -> Seq<
        Voxel,
    > {
        |z: int| concat_range(y0, ny, self.range_y_fn(x0, nx, y0, ny, z))
    }

    /// The voxels of the box `[x0, x1) × [y0, y1) × [z0, z1)`, z outermost
    /// and x innermost.
    pub open spec fn spec_range(&self, x0: int, x1: int, y0: int, y1: int, z0: int, z1: int) -> Seq<
        Voxel,
    > {
        let nx = if x1 > x0 { (x1 - x0) as nat } else { 0 };
        let ny = if y1 > y0 { (y1 - y0) as nat } else { 0 };
        let nz = if z1 > z0 { (z1 - z0) as nat } else { 0 };
        concat_range(z0, nz, self.range_z_fn(x0, nx, y0, ny))
    }

    /// The voxels of a box of the chunk; an empty range gives nothing.
    pub fn get_range(&self, x0: u32, x1: u32, y0: u32, y1: u32, z0: u32, z1: u32) -> (r: Vec<Voxel>)
        requires
            self.wf(),
            x1 <= self.size || x1 <= x0,
            y1 <= self.size || y1 <= y0,
            z1 <= self.size || z1 <= z0,
        ensures
            r@ == self.spec_range(x0 as int, x1 as int, y0 as int, y1 as int, z0 as int, z1 as int),
    {
        let ghost nx: nat = if x1 > x0 { (x1 - x0) as nat } else { 0 };
        let ghost ny: nat = if y1 > y0 { (y1 - y0) as nat } else { 0 };
        let ghost zs = self.range_z_fn(x0 as int, nx, y0 as int, ny);
        let mut r: Vec<Voxel> = Vec::new();
        let mut z = z0;
        while z < z1
            invariant
                self.wf(),
                z1 <= self.size || z1 <= z0,
                x1 <= self.size || x1 <= x0,
                y1 <= self.size || y1 <= y0,
                z0 <= z,
                z <= z1 || z1 <= z0,
                z1 <= z0 ==> z == z0,
                nx == (if x1 > x0 { (x1 - x0) as nat } else { 0 }),
                ny == (if y1 > y0 { (y1 - y0) as nat } else { 0 }),
                zs == self.range_z_fn(x0 as int, nx, y0 as int, ny),
                r@ == concat_range(z0 as int, (z - z0) as nat, zs),
            decreases z1 - z,
        {
            let ghost ys = self.range_y_fn(x0 as int, nx, y0 as int, ny, z as int);
            let ghost before_z = r@;
            let mut y = y0;
            while y < y1
                invariant
                    self.wf(),
                    z0 <= z < z1,
                    z1 <= self.size,
                    x1 <= self.size || x1 <= x0,
                    y1 <= self.size || y1 <= y0,
                    y0 <= y,
                    y <= y1 || y1 <= y0,
                    y1 <= y0 ==> y == y0,
                    nx == (if x1 > x0 { (x1 - x0) as nat } else { 0 }),
                    ys == self.range_y_fn(x0 as int, nx, y0 as int, ny, z as int),
                    r@ == before_z + concat_range(y0 as int, (y - y0) as nat, ys),
                decreases y1 - y,
            {
                let ghost xs = self.range_x_fn(x0 as int, nx, y as int, z as int);
                let ghost before_y = r@;
                let mut x = x0;
                while x < x1
                    invariant
                        self.wf(),
                        z0 <= z < z1,
                        y0 <= y < y1,
                        z1 <= self.size,
                        y1 <= self.size,
                        x1 <= self.size || x1 <= x0,
                        x0 <= x,
                        x <= x1 || x1 <= x0,
                        x1 <= x0 ==> x == x0,
                        xs == self.range_x_fn(x0 as int, nx, y as int, z as int),
                        r@ == before_y + concat_range(x0 as int, (x - x0) as nat, xs),
                    decreases x1 - x,
                {
                    let v = self.get_at(UVec3 { x, y, z });
                    let ghost prev = r@;
                    r.push(v);
                    assert(r@ =~= prev + xs(x as int));
                    assert(concat_range(x0 as int, (x + 1 - x0) as nat, xs) == concat_range(
                        x0 as int,
                        (x - x0) as nat,
                        xs,
                    ) + xs(x as int));
                    x = x + 1;
                }
                assert((x - x0) as nat == nx);
                assert(ys(y as int) == concat_range(x0 as int, nx, xs));
                assert(concat_range(y0 as int, (y + 1 - y0) as nat, ys) == concat_range(
                    y0 as int,
                    (y - y0) as nat,
                    ys,
                ) + ys(y as int));
                y = y + 1;
            }
            assert((y - y0) as nat == ny);
            assert(zs(z as int) == concat_range(y0 as int, ny, ys));
            assert(concat_range(z0 as int, (z + 1 - z0) as nat, zs) == concat_range(
                z0 as int,
                (z - z0) as nat,
                zs,
            ) + zs(z as int));
            z = z + 1;
        }
        r
    }

    /// The voxels in storage order.
    pub fn as_slice(&self) -> (r: &[Voxel])
        ensures
            r@ == self.voxels@,
    {
        self.voxels.as_slice()
    }
}

/// A chunk position as tracked by the host, one per streamed chunk.
#[derive(Debug, Clone, Copy, PartialEq, Eq, Structural)]
pub struct TerrainChunk {
    pub position: IVec3,
}

impl TerrainChunk {
    /// World position of the chunk's local origin.
    pub fn chunk_origin(&self) -> (r: IVec3)
        requires
            valid_chunk_pos(self.position),
        ensures
            r == spec_world_of(self.position, UVec3 { x: 0, y: 0, z: 0 }),
    {
        world_of(self.position, UVec3 { x: 0, y: 0, z: 0 })
    }
}

/// The chunk data of one chunk position: a `CHUNK_SIZE` cube and the
/// position it stands at.
#[derive(Debug, Clone)]
pub struct TerrainChunkData {
    pub chunk: Chunk,
    pub position: IVec3,
}

impl TerrainChunkData {
    pub open spec fn wf(&self) -> bool {
        self.chunk.wf() && self.chunk.size == CHUNK_SIZE && valid_chunk_pos(self.position)
    }

    /// The voxel at local position `l`.
    pub open spec fn local(&self, l: UVec3) -> Voxel {
        self.chunk.at(l)
    }

    /// World position of the chunk's local origin.
    pub fn chunk_origin(&self) -> (r: IVec3)
        requires
            self.wf(),
        ensures
            r == spec_world_of(self.position, UVec3 { x: 0, y: 0, z: 0 }),
    {
        world_of(self.position, UVec3 { x: 0, y: 0, z: 0 })
    }

    /// An all-empty chunk at `position`.
    pub fn new_empty(position: IVec3) -> (r: TerrainChunkData)
        requires
            valid_chunk_pos(position),
        ensures
            r.wf(),
            r.position == position,
            forall|l: UVec3| in_chunk(l) ==> (#[trigger] r.local(l)).id == EMPTY,
    {
        let chunk = Chunk::new_empty(CHUNK_SIZE);
        let r = TerrainChunkData { chunk, position };
        assert forall|l: UVec3| in_chunk(l) implies (#[trigger] r.local(l)).id == EMPTY by {
            lemma_lin_bounds(32, l.x as int, l.y as int, l.z as int);
        }
        r
    }

    /// The voxel at a local position.
    pub fn get_local_at(&self, l: UVec3) -> (r: Voxel)
        requires
            self.wf(),
            in_chunk(l),
        ensures
            r == self.local(l),
    {
        self.chunk.get_at(l)
    }

    /// Writes `v` at local position `l`.
    pub fn set_local_at(&mut self, l: UVec3, v: Voxel)
        requires
            old(self).wf(),
            in_chunk(l),
        ensures
            final(self).wf(),
            final(self).position == old(self).position,
            final(self).local(l) == v,
            forall|m: UVec3|
                in_chunk(m) && m != l ==> #[trigger] final(self).local(m) == old(self).local(m),
    {
        proof {
            lemma_lin_bounds(32, l.x as int, l.y as int, l.z as int);
        }
        self.chunk.set_at(l, v);
        proof {
            assert forall|m: UVec3| in_chunk(m) && m != l implies #[trigger] self.local(m)
                == old(self).local(m) by {
                lemma_lin_inverse(32, l.x as int, l.y as int, l.z as int);
                lemma_lin_inverse(32, m.x as int, m.y as int, m.z as int);
            }
        }
    }

    /// A chunk whose voxel at each local cell is `f` of the cell's world
    /// position.
    pub fn new_from_fn<F: Fn(IVec3) -> Voxel>(position: IVec3, f: F) -> (r: TerrainChunkData)
        requires
            valid_chunk_pos(position),
            forall|w: IVec3| #[trigger] f.requires((w,)),
        ensures
            r.wf(),
            r.position == position,
            forall|l: UVec3| in_chunk(l) ==> f.ensures((spec_world_of(position, l),), #[trigger] r.local(l)),
    {
        let n: u32 = CHUNK_SIZE;
        let ghost s: int = CHUNK_SIZE as int;
        let mut voxels: Vec<Voxel> = Vec::new();
        let mut z: u32 = 0;
        while z < n
            invariant
                z <= n,
                n == CHUNK_SIZE,
                s == n,
                valid_chunk_pos(position),
                forall|w: IVec3| #[trigger] f.requires((w,)),
                voxels.len() == s * s * z,
                forall|i: int|
                    0 <= i < voxels.len() ==> f.ensures(
                        (spec_world_of(
                            position,
                            UVec3 { x: (i % s) as u32, y: ((i / s) % s) as u32, z: ((i / s) / s) as u32 },
                        ),),
                        #[trigger] voxels@[i],
                    ),
            decreases n - z,
        {
            let mut y: u32 = 0;
            while y < n
                invariant
                    y <= n,
                    z < n,
                    n == CHUNK_SIZE,
                    s == n,
                    valid_chunk_pos(position),
                    forall|w: IVec3| #[trigger] f.requires((w,)),
                    voxels.len() == s * s * z + s * y,
                    forall|i: int|
                        0 <= i < voxels.len() ==> f.ensures(
                            (spec_world_of(
                                position,
                                UVec3 {
                                    x: (i % s) as u32,
                                    y: ((i / s) % s) as u32,
                                    z: ((i / s) / s) as u32,
                                },
                            ),),
                            #[trigger] voxels@[i],
                        ),
                decreases n - y,
            {
                let mut x: u32 = 0;
                while x < n
                    invariant
                        x <= n,
                        y < n,
                        z < n,
                        n == CHUNK_SIZE,
                        s == n,
                        valid_chunk_pos(position),
                        forall|w: IVec3| #[trigger] f.requires((w,)),
                        voxels.len() == s * s * z + s * y + x,
                        forall|i: int|
                            0 <= i < voxels.len() ==> f.ensures(
                                (spec_world_of(
                                    position,
                                    UVec3 {
                                        x: (i % s) as u32,
                                        y: ((i / s) % s) as u32,
                                        z: ((i / s) / s) as u32,
                                    },
                                ),),
                                #[trigger] voxels@[i],
                            ),
                    decreases n - x,
                {
                    let w = world_of(position, UVec3 { x, y, z });
                    let v = f(w);
                    proof {
                        lemma_lin_inverse(s, x as int, y as int, z as int);
                        assert(lin(s, x as int, y as int, z as int) == s * s * z + s * y + x) by (nonlinear_arith);
                    }
                    voxels.push(v);
                    x = x + 1;
                }
                y = y + 1;
            }
            assert(s * s * z + s * y == s * s * (z + 1)) by (nonlinear_arith)
                requires
                    y == s,
            ;
            z = z + 1;
        }
        let r = TerrainChunkData { chunk: Chunk { voxels, size: n }, position };
        proof {
            assert forall|l: UVec3| in_chunk(l) implies f.ensures(
                (spec_world_of(position, l),),
                #[trigger] r.local(l),
            ) by {
                lemma_lin_bounds(s, l.x as int, l.y as int, l.z as int);
                lemma_lin_inverse(s, l.x as int, l.y as int, l.z as int);
                let i = lin(s, l.x as int, l.y as int, l.z as int);
                assert(UVec3 { x: (i % s) as u32, y: ((i / s) % s) as u32, z: ((i / s) / s) as u32 } == l);
            }
        }
        r
    }

    /// Writes `v` at a world position inside this chunk.
    pub fn set_at(&mut self, w: IVec3, v: Voxel)
        requires
            old(self).wf(),
            spec_chunk_of(w) == old(self).position,
        ensures
            final(self).wf(),
            final(self).position == old(self).position,
            final(self).local(spec_local_of(w)) == v,
            forall|m: UVec3|
                in_chunk(m) && m != spec_local_of(w) ==> #[trigger] final(self).local(m) == old(
                    self,
                ).local(m),
    {
        self.set_local_at(local_of(w), v);
    }

    /// The voxel at a world position inside this chunk.
    pub fn get_at(&self, w: IVec3) -> (r: Voxel)
        requires
            self.wf(),
            spec_chunk_of(w) == self.position,
        ensures
            r == self.local(spec_local_of(w)),
    {
        self.get_local_at(local_of(w))
    }
}

} // verus!
