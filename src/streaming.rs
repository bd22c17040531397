//! Which chunks to keep around the observer: the load cylinder, the wider
//! eviction range, and the create/remove plan when the observer moves.

use std::collections::HashSet;
use vstd::prelude::*;
use crate::chunk_map::{chunk_key, spec_key};
use crate::coords::{valid_chunk_pos, IVec3};

verus! {

broadcast use vstd::std_specs::hash::group_hash_axioms;

/// Extra chunks beyond the vertical half-height before a chunk is evicted.
pub const ACTIVE_RANGE_MARGIN_CHUNKS: i32 = 2;

/// The horizontal eviction radius is the load radius times
/// `UNLOAD_FACTOR_NUM / UNLOAD_FACTOR_DEN`, rounded down.
pub const UNLOAD_FACTOR_NUM: i32 = 3;

pub const UNLOAD_FACTOR_DEN: i32 = 2;

/// Largest render distance, horizontal or vertical, in chunks.
pub const MAX_RENDER_DISTANCE: i32 = 1024;

/// Largest margin or factor term accepted by the range tests.
pub const MAX_RANGE_TERM: i32 = 1024;

/// The observer's chunk and the render distances around it.
#[derive(Debug, Clone, Copy, PartialEq, Eq, Structural)]
pub struct RenderDistanceParams {
    pub player_chunk: IVec3,
    pub horizontal: i32,
    pub vertical: i32,
}

impl Default for RenderDistanceParams {
    /// The observer at the origin, with a horizontal radius of 16 chunks
    /// and a vertical half-height of 4.
    fn default() -> (r: RenderDistanceParams)
        ensures
            r.wf(),
            r.player_chunk == (IVec3 { x: 0, y: 0, z: 0 }),
            r.horizontal == 16,
            r.vertical == 4,
    {
        RenderDistanceParams { player_chunk: IVec3 { x: 0, y: 0, z: 0 }, horizontal: 16, vertical: 4 }
    }
}

impl RenderDistanceParams {
    /// Moves the observer to `chunk`; reports whether its chunk changed, so
    /// that the plan is recomputed only then.
    pub fn update_player_chunk(&mut self, chunk: IVec3) -> (changed: bool)
        ensures
            changed == (old(self).player_chunk != chunk),
            *final(self) == (RenderDistanceParams { player_chunk: chunk, ..*old(self) }),
    {
        if self.player_chunk != chunk {
            self.player_chunk = chunk;
            true
        } else {
            false
        }
    }

    pub open spec fn wf(&self) -> bool {
        valid_chunk_pos(self.player_chunk) && 0 <= self.horizontal <= MAX_RENDER_DISTANCE && 0
            <= self.vertical <= MAX_RENDER_DISTANCE
    }

}

pub open spec fn abs(a: int) -> int {
    if a < 0 { -a } else { a }
}

/// Squared horizontal distance between two chunk positions.
pub open spec fn horizontal_dist_sq(a: IVec3, b: IVec3) -> int {
    (a.x - b.x) * (a.x - b.x) + (a.z - b.z) * (a.z - b.z)
}

/// A chunk is wanted when it lies in the cylinder of radius `horizontal`
/// and half-height `vertical` around the observer.
pub open spec fn spec_wanted(params: RenderDistanceParams, p: IVec3) -> bool {
    abs(p.y - params.player_chunk.y) <= params.vertical && horizontal_dist_sq(
        p,
        params.player_chunk,
    ) <= params.horizontal * params.horizontal
}

pub open spec fn spec_within_range(params: RenderDistanceParams, p: IVec3, margin: int) -> bool {
    abs(p.y - params.player_chunk.y) <= params.vertical + margin && horizontal_dist_sq(
        p,
        params.player_chunk,
    ) <= (params.horizontal + margin) * (params.horizontal + margin)
}

/// Horizontal eviction radius for a factor `num / den`.
pub open spec fn unload_distance(params: RenderDistanceParams, num: int, den: int) -> int {
    (params.horizontal * num) / den
}

pub open spec fn spec_should_unload(params: RenderDistanceParams, p: IVec3, num: int, den: int) -> bool {
    horizontal_dist_sq(p, params.player_chunk) > unload_distance(params, num, den) * unload_distance(
        params,
        num,
        den,
    )
}

/// A loaded chunk is evicted when it is beyond the scaled horizontal
/// radius, or beyond the vertical half-height plus the margin.
pub open spec fn spec_evict(params: RenderDistanceParams, p: IVec3) -> bool {
    spec_should_unload(params, p, UNLOAD_FACTOR_NUM as int, UNLOAD_FACTOR_DEN as int) || abs(
        p.y - params.player_chunk.y,
    ) > params.vertical + ACTIVE_RANGE_MARGIN_CHUNKS
}

proof fn lemma_sq_bound(a: int, b: int)
    requires
        -0x1000_0000 < a < 0x1000_0000,
        -0x1000_0000 < b < 0x1000_0000,
    ensures
        0 <= a * a < 0x100_0000_0000_0000,
        0 <= b * b < 0x100_0000_0000_0000,
{
    assert(0 <= a * a < 0x100_0000_0000_0000) by (nonlinear_arith)
        requires
            -0x1000_0000 < a < 0x1000_0000,
    ;
    assert(0 <= b * b < 0x100_0000_0000_0000) by (nonlinear_arith)
        requires
            -0x1000_0000 < b < 0x1000_0000,
    ;
}

fn horizontal_dist_sq_exec(a: IVec3, b: IVec3) -> (r: i64)
    requires
        valid_chunk_pos(a),
        valid_chunk_pos(b),
    ensures
        r == horizontal_dist_sq(a, b),
{
    let dx = a.x as i64 - b.x as i64;
    let dz = a.z as i64 - b.z as i64;
    proof {
        lemma_sq_bound(dx as int, dz as int);
    }
    dx * dx + dz * dz
}

fn abs_diff(a: i32, b: i32) -> (r: i64)
    ensures
        r == abs(a - b),
{
    let d = a as i64 - b as i64;
    if d < 0 { -d } else { d }
}

/// Whether `chunk_pos` is within the render distances widened by `margin`.
pub fn is_within_active_chunk_range_with_margin(
    chunk_pos: IVec3,
    params: &RenderDistanceParams,
    margin_chunks: i32,
) -> (r: bool)
    requires
        params.wf(),
        valid_chunk_pos(chunk_pos),
        0 <= margin_chunks <= MAX_RANGE_TERM,
    ensures
        r == spec_within_range(*params, chunk_pos, margin_chunks as int),
{
    let dy = abs_diff(chunk_pos.y, params.player_chunk.y);
    if dy > params.vertical as i64 + margin_chunks as i64 {
        return false;
    }
    let rr = params.horizontal as i64 + margin_chunks as i64;
    proof {
        assert(0 <= rr * rr <= 2048 * 2048) by (nonlinear_arith)
            requires
                0 <= rr <= 2048,
        ;
    }
    horizontal_dist_sq_exec(chunk_pos, params.player_chunk) <= rr * rr
}

/// Whether `chunk_pos` is within the render distances widened by
/// [`ACTIVE_RANGE_MARGIN_CHUNKS`].
pub fn is_within_active_chunk_range(chunk_pos: IVec3, params: &RenderDistanceParams) -> (r: bool)
    requires
        params.wf(),
        valid_chunk_pos(chunk_pos),
    ensures
        r == spec_within_range(*params, chunk_pos, ACTIVE_RANGE_MARGIN_CHUNKS as int),
{
    is_within_active_chunk_range_with_margin(chunk_pos, params, ACTIVE_RANGE_MARGIN_CHUNKS)
}

/// Whether `chunk_pos` is horizontally beyond the load radius scaled by
/// `factor_num / factor_den` (rounded down).
pub fn should_unload_chunk_with_factor(
    chunk_pos: IVec3,
    params: &RenderDistanceParams,
    factor_num: i32,
    factor_den: i32,
) -> (r: bool)
    requires
        params.wf(),
        valid_chunk_pos(chunk_pos),
        1 <= factor_num <= MAX_RANGE_TERM,
        1 <= factor_den <= MAX_RANGE_TERM,
    ensures
        r == spec_should_unload(*params, chunk_pos, factor_num as int, factor_den as int),
{
    proof {
        assert(0 <= params.horizontal * factor_num <= 1024 * 1024) by (nonlinear_arith)
            requires
                0 <= params.horizontal <= 1024,
                1 <= factor_num <= 1024,
        ;
    }
    let scaled = params.horizontal as i64 * factor_num as i64;
    let d = scaled / factor_den as i64;
    proof {
        assert(0 <= d <= scaled) by (nonlinear_arith)
            requires
                d == scaled as int / factor_den as int,
                0 <= scaled,
                1 <= factor_den,
        ;
        assert(0 <= d * d <= 1024 * 1024 * 1024 * 1024) by (nonlinear_arith)
            requires
                0 <= d <= 1024 * 1024,
        ;
    }
    horizontal_dist_sq_exec(chunk_pos, params.player_chunk) > d * d
}

/// Whether `chunk_pos` is beyond the eviction radius of 1.5 times the load
/// radius.
pub fn should_unload_chunk(chunk_pos: IVec3, params: &RenderDistanceParams) -> (r: bool)
    requires
        params.wf(),
        valid_chunk_pos(chunk_pos),
    ensures
        r == spec_should_unload(
            *params,
            chunk_pos,
            UNLOAD_FACTOR_NUM as int,
            UNLOAD_FACTOR_DEN as int,
        ),
{
    should_unload_chunk_with_factor(chunk_pos, params, UNLOAD_FACTOR_NUM, UNLOAD_FACTOR_DEN)
}

/// Whether a loaded chunk should be evicted.
pub fn should_evict(chunk_pos: IVec3, params: &RenderDistanceParams) -> (r: bool)
    requires
        params.wf(),
        valid_chunk_pos(chunk_pos),
    ensures
        r == spec_evict(*params, chunk_pos),
{
    should_unload_chunk(chunk_pos, params) || abs_diff(chunk_pos.y, params.player_chunk.y)
        > params.vertical as i64 + ACTIVE_RANGE_MARGIN_CHUNKS as i64
}

pub open spec fn evict_pred(params: RenderDistanceParams) -> spec_fn(IVec3) -> bool {
    |p: IVec3| spec_evict(params, p)
}

/// Cylinder offsets are visited with dx outermost, then dy, then dz;
/// whether the offset of `p` comes before `(x, y, z)` in that order.
pub open spec fn visited_before(params: RenderDistanceParams, p: IVec3, x: int, y: int, z: int) -> bool {
    let dx = p.x - params.player_chunk.x;
    let dy = p.y - params.player_chunk.y;
    let dz = p.z - params.player_chunk.z;
    -params.horizontal <= dx && -params.vertical <= dy && -params.horizontal <= dz && dy
        <= params.vertical && dz <= params.horizontal && (dx < x || (dx == x && (dy < y || (dy == y
        && dz < z))))
}

/// A chunk the plan creates: wanted, addressable, and not loaded yet.
pub open spec fn spec_to_create(params: RenderDistanceParams, loaded: Set<i128>, p: IVec3) -> bool {
    spec_wanted(params, p) && valid_chunk_pos(p) && !loaded.contains(spec_key(p) as i128)
}

proof fn lemma_sum_sq_bound(a: int, b: int, h: int)
    requires
        a * a + b * b <= h * h,
        0 <= h,
    ensures
        -h <= a <= h,
        -h <= b <= h,
{
    assert(a * a <= h * h && b * b <= h * h) by (nonlinear_arith)
        requires
            a * a + b * b <= h * h,
    ;
    lemma_sq_le_bound(a, h);
    lemma_sq_le_bound(b, h);
}

proof fn lemma_sq_le_bound(a: int, h: int)
    requires
        a * a <= h * h,
        0 <= h,
    ensures
        -h <= a <= h,
{
    if a > h {
        assert(a * a > h * h) by (nonlinear_arith)
            requires
                a > h,
                h >= 0,
        ;
    }
    if a < -h {
        assert(a * a > h * h) by (nonlinear_arith)
            requires
                a < -h,
                h >= 0,
        ;
    }
}

/// The wanted chunks that are not loaded yet, in cylinder order.
pub fn chunks_to_create(params: &RenderDistanceParams, loaded: &HashSet<i128>) -> (r: Vec<IVec3>)
    requires
        params.wf(),
    ensures
        r@.no_duplicates(),
        forall|p: IVec3| r@.contains(p) <==> spec_to_create(*params, loaded@, p),
{
    let h = params.horizontal;
    let v = params.vertical;
    let pc = params.player_chunk;
    let mut r: Vec<IVec3> = Vec::new();
    let mut x: i32 = -h;
    while x <= h
        invariant
            -h <= x <= h + 1,
            h == params.horizontal,
            v == params.vertical,
            pc == params.player_chunk,
            params.wf(),
            r@.no_duplicates(),
            forall|p: IVec3|
                r@.contains(p) <==> (spec_to_create(*params, loaded@, p) && visited_before(
                    *params,
                    p,
                    x as int,
                    -v as int,
                    -h as int,
                )),
        decreases h + 1 - x,
    {
        let mut y: i32 = -v;
        while y <= v
            invariant
                -h <= x <= h,
                -v <= y <= v + 1,
                h == params.horizontal,
                v == params.vertical,
                pc == params.player_chunk,
                params.wf(),
                r@.no_duplicates(),
                forall|p: IVec3|
                    r@.contains(p) <==> (spec_to_create(*params, loaded@, p) && visited_before(
                        *params,
                        p,
                        x as int,
                        y as int,
                        -h as int,
                    )),
            decreases v + 1 - y,
        {
            let mut z: i32 = -h;
            while z <= h
                invariant
                    -h <= x <= h,
                    -v <= y <= v,
                    -h <= z <= h + 1,
                    h == params.horizontal,
                    v == params.vertical,
                    pc == params.player_chunk,
                    params.wf(),
                    r@.no_duplicates(),
                    forall|p: IVec3|
                        r@.contains(p) <==> (spec_to_create(*params, loaded@, p)
                            && visited_before(*params, p, x as int, y as int, z as int)),
                decreases h + 1 - z,
            {
                let p = IVec3 { x: pc.x + x, y: pc.y + y, z: pc.z + z };
                proof {
                    assert(0 <= x * x <= 1024 * 1024 && 0 <= z * z <= 1024 * 1024 && 0 <= h * h
                        <= 1024 * 1024) by (nonlinear_arith)
                        requires
                            -1024 <= x <= 1024,
                            -1024 <= z <= 1024,
                            0 <= h <= 1024,
                    ;
                }
                let in_cylinder = (x as i64) * (x as i64) + (z as i64) * (z as i64) <= (h as i64) * (
                h as i64);
                let valid = -67108864 <= p.x && p.x <= 67108863 && -67108864 <= p.y && p.y
                    <= 67108863 && -67108864 <= p.z && p.z <= 67108863;
                let ghost old_r = r@;
                if in_cylinder && valid {
                    let k = chunk_key(p);
                    if !loaded.contains(&k) {
                        proof {
                            assert(!visited_before(*params, p, x as int, y as int, z as int));
                            assert(!old_r.contains(p));
                        }
                        r.push(p);
                        proof {
                            assert forall|a: int, b: int|
                                0 <= a < r@.len() && 0 <= b < r@.len() && a != b implies r@[a]
                                != r@[b] by {
                                if a == r@.len() - 1 {
                                    assert(old_r[b] == r@[b]);
                                } else if b == r@.len() - 1 {
                                    assert(old_r[a] == r@[a]);
                                } else {
                                    assert(old_r[a] == r@[a] && old_r[b] == r@[b]);
                                }
                            }
                        }
                    }
                }
                proof {
                    assert(spec_to_create(*params, loaded@, p) == (in_cylinder && valid
                        && !loaded@.contains(spec_key(p) as i128)));
                    assert forall|q: IVec3|
                        r@.contains(q) <==> (spec_to_create(*params, loaded@, q)
                            && visited_before(*params, q, x as int, y as int, z + 1)) by {
                        if r@.contains(q) && !old_r.contains(q) {
                            assert(q == p) by {
                                let t = choose|t: int| 0 <= t < r@.len() && r@[t] == q;
                                if t < old_r.len() {
                                    assert(old_r[t] == q);
                                }
                            }
                        }
                        if old_r.contains(q) {
                            let t = choose|t: int| 0 <= t < old_r.len() && old_r[t] == q;
                            assert(r@[t] == q);
                        }
                        if q == p && spec_to_create(*params, loaded@, q) {
                            assert(r@[r@.len() - 1] == p);
                        }
                    }
                }
                z = z + 1;
            }
            proof {
                assert forall|q: IVec3|
                    spec_to_create(*params, loaded@, q) implies visited_before(
                    *params,
                    q,
                    x as int,
                    y as int,
                    h + 1,
                ) == visited_before(*params, q, x as int, y + 1, -h as int) by {
                    lemma_sum_sq_bound(q.x - pc.x, q.z - pc.z, h as int);
                }
            }
            y = y + 1;
        }
        proof {
            assert forall|q: IVec3|
                spec_to_create(*params, loaded@, q) implies visited_before(
                *params,
                q,
                x as int,
                v + 1,
                -h as int,
            ) == visited_before(*params, q, x + 1, -v as int, -h as int) by {
                lemma_sum_sq_bound(q.x - pc.x, q.z - pc.z, h as int);
            }
        }
        x = x + 1;
    }
    proof {
        assert forall|q: IVec3| spec_to_create(*params, loaded@, q) implies visited_before(
            *params,
            q,
            h + 1,
            -v as int,
            -h as int,
        ) by {
            lemma_sum_sq_bound(q.x - pc.x, q.z - pc.z, h as int);
        }
    }
    r
}

/// The loaded chunks to evict, in their given order.
pub fn chunks_to_remove(params: &RenderDistanceParams, loaded: &Vec<IVec3>) -> (r: Vec<IVec3>)
    requires
        params.wf(),
        forall|i: int| 0 <= i < loaded.len() ==> valid_chunk_pos(#[trigger] loaded@[i]),
    ensures
        r@ == loaded@.filter(evict_pred(*params)),
{
    let mut r: Vec<IVec3> = Vec::new();
    let mut i: usize = 0;
    while i < loaded.len()
        invariant
            i <= loaded.len(),
            params.wf(),
            forall|j: int| 0 <= j < loaded.len() ==> valid_chunk_pos(#[trigger] loaded@[j]),
            r@ == loaded@.take(i as int).filter(evict_pred(*params)),
        decreases loaded.len() - i,
    {
        let p = loaded[i];
        assert(loaded@.take(i + 1).drop_last() == loaded@.take(i as int));
        assert(loaded@.take(i + 1).last() == p);
        let e = should_evict(p, params);
        assert(evict_pred(*params)(p) == e);
        proof {
            assert(loaded@.take(i + 1) == loaded@.take(i as int).push(p));
            loaded@.take(i as int).lemma_filter_push(p, evict_pred(*params));
        }
        if e {
            r.push(p);
        }
        assert(r@ == loaded@.take(i + 1).filter(evict_pred(*params)));
        i = i + 1;
    }
    assert(loaded@.take(loaded.len() as int) == loaded@);
    r
}

/// The plan for an observer move: the chunks to create and the loaded
/// chunks to evict.
pub fn update_chunk_entities(
    params: &RenderDistanceParams,
    loaded_keys: &HashSet<i128>,
    loaded: &Vec<IVec3>,
) -> (r: (Vec<IVec3>, Vec<IVec3>))
    requires
        params.wf(),
        forall|i: int| 0 <= i < loaded.len() ==> valid_chunk_pos(#[trigger] loaded@[i]),
    ensures
        r.0@.no_duplicates(),
        forall|p: IVec3| r.0@.contains(p) <==> spec_to_create(*params, loaded_keys@, p),
        r.1@ == loaded@.filter(evict_pred(*params)),
{
    (chunks_to_create(params, loaded_keys), chunks_to_remove(params, loaded))
}

/// A chunk that is wanted around the observer is not evicted after the
/// observer steps into an adjacent chunk (horizontal radius at least 2), so
/// stepping away and back never evicts and re-creates it.
pub proof fn lemma_no_thrash(params: RenderDistanceParams, moved: RenderDistanceParams, c: IVec3)
    requires
        params.wf(),
        moved.horizontal == params.horizontal,
        moved.vertical == params.vertical,
        params.horizontal >= 2,
        abs(moved.player_chunk.x - params.player_chunk.x) + abs(moved.player_chunk.y
            - params.player_chunk.y) + abs(moved.player_chunk.z - params.player_chunk.z) <= 1,
        spec_wanted(params, c),
    ensures
        !spec_evict(moved, c),
{
    let h = params.horizontal as int;
    let ox = c.x - params.player_chunk.x;
    let oz = c.z - params.player_chunk.z;
    let ex = params.player_chunk.x - moved.player_chunk.x;
    let ez = params.player_chunk.z - moved.player_chunk.z;
    let d = unload_distance(moved, 3, 2);
    assert(d >= h + 1);
    assert(ox * ox + oz * oz <= h * h);
    lemma_sum_sq_bound(ox, oz, h);
    assert((ox + ex) * (ox + ex) + (oz + ez) * (oz + ez) <= (h + 1) * (h + 1)) by (nonlinear_arith)
        requires
            ox * ox + oz * oz <= h * h,
            -h <= ox <= h,
            -h <= oz <= h,
            (ex == 0 && (ez == 1 || ez == -1 || ez == 0)) || (ez == 0 && (ex == 1 || ex == -1)),
    ;
    assert((h + 1) * (h + 1) <= d * d) by (nonlinear_arith)
        requires
            d >= h + 1,
            h >= 0,
    ;
    assert(horizontal_dist_sq(c, moved.player_chunk) == (ox + ex) * (ox + ex) + (oz + ez) * (oz
        + ez));
}

} // verus!
