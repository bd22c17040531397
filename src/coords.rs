//! Integer positions and the conversion between world voxel coordinates and
//! (chunk coordinate, local coordinate) pairs, with Euclidean division.

use vstd::prelude::*;
use vstd::arithmetic::div_mod::lemma_fundamental_div_mod_converse;

verus! {

/// Edge length of a chunk, in voxels.
pub const CHUNK_SIZE: u32 = 32;

/// Edge length of a padded chunk: one extra layer on each side.
pub const PADDED_CHUNK_SIZE: u32 = 34;

/// Smallest chunk coordinate; with [`MAX_CHUNK_COORD`] it makes every voxel
/// of every chunk addressable by an `i32` world coordinate.
pub const MIN_CHUNK_COORD: i32 = -67108864;

/// Largest chunk coordinate.
pub const MAX_CHUNK_COORD: i32 = 67108863;

/// A signed integer position: a world voxel position or a chunk position.
#[derive(Debug, Clone, Copy, PartialEq, Eq, Hash, Structural)]
pub struct IVec3 {
    pub x: i32,
    pub y: i32,
    pub z: i32,
}

/// An unsigned position inside a chunk or padded chunk.
#[derive(Debug, Clone, Copy, PartialEq, Eq, Hash, Structural)]
pub struct UVec3 {
    pub x: u32,
    pub y: u32,
    pub z: u32,
}

impl IVec3 {
    pub fn new(x: i32, y: i32, z: i32) -> (r: IVec3)
        ensures
            r == (IVec3 { x, y, z }),
    {
        IVec3 { x, y, z }
    }
}

impl UVec3 {
    pub fn new(x: u32, y: u32, z: u32) -> (r: UVec3)
        ensures
            r == (UVec3 { x, y, z }),
    {
        UVec3 { x, y, z }
    }
}

pub open spec fn valid_chunk_coord(c: int) -> bool {
    MIN_CHUNK_COORD <= c <= MAX_CHUNK_COORD
}

/// Every coordinate lies in `[MIN_CHUNK_COORD, MAX_CHUNK_COORD]`.
pub open spec fn valid_chunk_pos(p: IVec3) -> bool {
    valid_chunk_coord(p.x as int) && valid_chunk_coord(p.y as int) && valid_chunk_coord(
        p.z as int,
    )
}

/// The position `p + (dx, dy, dz)` over mathematical integers.
pub open spec fn offset(p: IVec3, dx: int, dy: int, dz: int) -> IVec3 {
    IVec3 { x: (p.x + dx) as i32, y: (p.y + dy) as i32, z: (p.z + dz) as i32 }
}

/// The chunk that holds world position `w`: floor division by the chunk size.
pub open spec fn spec_chunk_of(w: IVec3) -> IVec3 {
    IVec3 {
        x: (w.x as int / CHUNK_SIZE as int) as i32,
        y: (w.y as int / CHUNK_SIZE as int) as i32,
        z: (w.z as int / CHUNK_SIZE as int) as i32,
    }
}

/// The position of world position `w` inside its chunk: the non-negative
/// remainder.
pub open spec fn spec_local_of(w: IVec3) -> UVec3 {
    UVec3 {
        x: (w.x as int % CHUNK_SIZE as int) as u32,
        y: (w.y as int % CHUNK_SIZE as int) as u32,
        z: (w.z as int % CHUNK_SIZE as int) as u32,
    }
}

/// The world position of local position `l` in chunk `c`.
pub open spec fn spec_world_of(c: IVec3, l: UVec3) -> IVec3 {
    IVec3 {
        x: (c.x * CHUNK_SIZE as int + l.x) as i32,
        y: (c.y * CHUNK_SIZE as int + l.y) as i32,
        z: (c.z * CHUNK_SIZE as int + l.z) as i32,
    }
}

pub open spec fn in_chunk(l: UVec3) -> bool {
    l.x < CHUNK_SIZE && l.y < CHUNK_SIZE && l.z < CHUNK_SIZE
}

/// Floor division of a world coordinate by the chunk size.
pub fn chunk_coord(w: i32) -> (r: i32)
    ensures
        r == w as int / CHUNK_SIZE as int,
        valid_chunk_coord(r as int),
{
    let q = w.checked_div_euclid(32);
    match q {
        Some(c) => c,
        None => 0,
    }
}

/// Non-negative remainder of a world coordinate by the chunk size.
pub fn local_coord(w: i32) -> (r: u32)
    ensures
        r as int == w as int % CHUNK_SIZE as int,
        r < CHUNK_SIZE,
{
    let m = w.checked_rem_euclid(32);
    match m {
        Some(l) => l as u32,
        None => 0,
    }
}

/// The chunk that holds a world position.
pub fn chunk_of(w: IVec3) -> (r: IVec3)
    ensures
        r == spec_chunk_of(w),
        valid_chunk_pos(r),
{
    IVec3 { x: chunk_coord(w.x), y: chunk_coord(w.y), z: chunk_coord(w.z) }
}

/// The local position of a world position inside its chunk.
pub fn local_of(w: IVec3) -> (r: UVec3)
    ensures
        r == spec_local_of(w),
        in_chunk(r),
{
    UVec3 { x: local_coord(w.x), y: local_coord(w.y), z: local_coord(w.z) }
}

/// The world position of a local position in a chunk.
pub fn world_of(c: IVec3, l: UVec3) -> (r: IVec3)
    requires
        valid_chunk_pos(c),
        in_chunk(l),
    ensures
        r == spec_world_of(c, l),
{
    IVec3 {
        x: c.x * 32 + l.x as i32,
        y: c.y * 32 + l.y as i32,
        z: c.z * 32 + l.z as i32,
    }
}

/// Splitting a world coordinate and joining it again gives it back, and a
/// (chunk, local) pair is recovered from the world coordinate it makes.
pub proof fn lemma_coord_round_trip(c: int, l: int)
    requires
        0 <= l < CHUNK_SIZE,
    ensures
        (c * CHUNK_SIZE + l) / (CHUNK_SIZE as int) == c,
        (c * CHUNK_SIZE + l) % (CHUNK_SIZE as int) == l,
{
    lemma_fundamental_div_mod_converse(c * CHUNK_SIZE + l, CHUNK_SIZE as int, c, l);
}

/// Every world position is its chunk's origin plus its local offset.
pub proof fn lemma_world_split(w: IVec3)
    ensures
        spec_world_of(spec_chunk_of(w), spec_local_of(w)) == w,
        in_chunk(spec_local_of(w)),
        valid_chunk_pos(spec_chunk_of(w)),
{
    vstd::arithmetic::div_mod::lemma_fundamental_div_mod(w.x as int, CHUNK_SIZE as int);
    vstd::arithmetic::div_mod::lemma_fundamental_div_mod(w.y as int, CHUNK_SIZE as int);
    vstd::arithmetic::div_mod::lemma_fundamental_div_mod(w.z as int, CHUNK_SIZE as int);
}

/// A world position built from a chunk and a local offset splits back into
/// that chunk and that offset.
pub proof fn lemma_world_join(c: IVec3, l: UVec3)
    requires
        valid_chunk_pos(c),
        in_chunk(l),
    ensures
        spec_chunk_of(spec_world_of(c, l)) == c,
        spec_local_of(spec_world_of(c, l)) == l,
{
    lemma_coord_round_trip(c.x as int, l.x as int);
    lemma_coord_round_trip(c.y as int, l.y as int);
    lemma_coord_round_trip(c.z as int, l.z as int);
}

} // verus!
