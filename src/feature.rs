//! Procedural structures. Each feature is a pure function from an origin and
//! a seed to an ordered list of voxel writes; its shape comes from a hash of
//! the origin, never from global random state.

use vstd::prelude::*;
use vstd::wrapping::u32_specs;
use crate::coords::{offset, IVec3};
use crate::voxel::{
    Voxel, ACACIA_LEAVES, ACACIA_LOG, BAMBOO, BIRCH_LEAVES, BIRCH_LOG, CACTUS, FLOWER_RED,
    FLOWER_YELLOW, JUNGLE_LEAVES, JUNGLE_LOG, OAK_LEAVES, OAK_LOG, PACKED_ICE, PINE_LEAVES,
    PINE_LOG,
};

verus! {

/// A write of one voxel at one world position.
pub type Write = (IVec3, Voxel);

/// The 32-bit position hash that all procedural choices derive from.
#[verifier::opaque]
pub open spec fn spec_hash(x: i32, z: i32, seed: u32) -> u32 {
    let h1 = u32_specs::wrapping_add(seed, u32_specs::wrapping_mul(x as u32, 374761393));
    let h2 = u32_specs::wrapping_add(h1, u32_specs::wrapping_mul(z as u32, 668265263));
    let h3 = u32_specs::wrapping_mul(h2 ^ (h2 >> 13u32), 1274126177);
    h3 ^ (h3 >> 16u32)
}

/// Hash of a horizontal world position and a seed.
pub fn hash(x: i32, z: i32, seed: u32) -> (r: u32)
    ensures
        r == spec_hash(x, z, seed),
{
    reveal(spec_hash);
    let mut h = seed;
    h = h.wrapping_add((x as u32).wrapping_mul(374761393));
    h = h.wrapping_add((z as u32).wrapping_mul(668265263));
    h = (h ^ (h >> 13)).wrapping_mul(1274126177);
    h ^ (h >> 16)
}

/// Largest absolute coordinate of a feature origin; features reach less
/// than 64 voxels from their origin, so every write stays addressable.
pub const MAX_FEATURE_ORIGIN: i32 = 0x4000_0000;

pub open spec fn origin_ok(o: IVec3) -> bool {
    -MAX_FEATURE_ORIGIN <= o.x <= MAX_FEATURE_ORIGIN && -MAX_FEATURE_ORIGIN <= o.y
        <= MAX_FEATURE_ORIGIN && -MAX_FEATURE_ORIGIN <= o.z <= MAX_FEATURE_ORIGIN
}

/// `g(lo) + g(lo + 1) + ... + g(lo + n - 1)`.
pub open spec fn concat_range<A>(lo: int, n: nat, g: spec_fn(int) -> Seq<A>) -> Seq<A>
    decreases n,
{
    if n == 0 {
        Seq::empty()
    } else {
        concat_range(lo, (n - 1) as nat, g) + g(lo + n - 1)
    }
}

/// `n` writes of `v` straight up from `origin + (0, y0, 0)`.
pub open spec fn column(origin: IVec3, y0: int, n: nat, v: Voxel) -> Seq<Write> {
    Seq::new(n, |i: int| (offset(origin, 0, y0 + i, 0), v))
}

/// Which cells `(x, z)` of a square layer are kept.
#[derive(Debug, Clone, Copy, PartialEq, Eq, Structural)]
pub enum LayerShape {
    /// The square without its four corners.
    RoundedSquare,
    /// Cells with `|x| + |z| <= r + 1`.
    Diamond,
    /// As `Diamond`, without the centre cell.
    HollowDiamond,
    /// Every cell.
    Full,
    /// Cells with `|x| <= 1` or `|z| <= 1`.
    Plus,
    /// Cells within distance `r + 1/2` of `(1/2, 1/2)`.
    Disc,
}

pub open spec fn iabs(a: int) -> int {
    if a < 0 { -a } else { a }
}

pub open spec fn keep(shape: LayerShape, r: int, x: int, z: int) -> bool {
    match shape {
        LayerShape::RoundedSquare => !(iabs(x) == r && iabs(z) == r),
        LayerShape::Diamond => iabs(x) + iabs(z) <= r + 1,
        LayerShape::HollowDiamond => !(x == 0 && z == 0) && iabs(x) + iabs(z) <= r + 1,
        LayerShape::Full => true,
        LayerShape::Plus => iabs(x) <= 1 || iabs(z) <= 1,
        LayerShape::Disc => (2 * x - 1) * (2 * x - 1) + (2 * z - 1) * (2 * z - 1) <= (2 * r + 1) * (2
            * r + 1),
    }
}

pub open spec fn layer_cell(center: IVec3, shape: LayerShape, r: int, v: Voxel, x: int, z: int) -> Seq<
    Write,
> {
    if keep(shape, r, x, z) {
        seq![(offset(center, x, 0, z), v)]
    } else {
        Seq::empty()
    }
}

pub open spec fn cell_fn(center: IVec3, shape: LayerShape, r: int, v: Voxel, x: int) -> spec_fn(
    int,
) -> Seq<Write> {
    |z: int| layer_cell(center, shape, r, v, x, z)
}

pub open spec fn row_fn(center: IVec3, lo: int, hi: int, shape: LayerShape, r: int, v: Voxel) -> spec_fn(
    int,
) -> Seq<Write> {
    |x: int| concat_range(lo, (hi - lo + 1) as nat, cell_fn(center, shape, r, v, x))
}

/// The kept cells of the square `[lo, hi]²` around `center`, x outermost.
pub open spec fn layer(center: IVec3, lo: int, hi: int, shape: LayerShape, r: int, v: Voxel) -> Seq<
    Write,
> {
    concat_range(lo, (hi - lo + 1) as nat, row_fn(center, lo, hi, shape, r, v))
}

fn keep_exec(shape: LayerShape, r: i32, x: i32, z: i32) -> (b: bool)
    requires
        -8 <= r <= 8,
        -8 <= x <= 8,
        -8 <= z <= 8,
    ensures
        b == keep(shape, r as int, x as int, z as int),
{
    let ax = if x < 0 { -x } else { x };
    let az = if z < 0 { -z } else { z };
    match shape {
        LayerShape::RoundedSquare => !(ax == r && az == r),
        LayerShape::Diamond => ax + az <= r + 1,
        LayerShape::HollowDiamond => !(x == 0 && z == 0) && ax + az <= r + 1,
        LayerShape::Full => true,
        LayerShape::Plus => ax <= 1 || az <= 1,
        LayerShape::Disc => {
            let a = 2 * x - 1;
            let b = 2 * z - 1;
            let c = 2 * r + 1;
            proof {
                assert(0 <= a * a <= 289 && 0 <= b * b <= 289 && 0 <= c * c <= 289) by (nonlinear_arith)
                    requires
                        -17 <= a <= 17,
                        -17 <= b <= 17,
                        -17 <= c <= 17,
                ;
            }
            a * a + b * b <= c * c
        },
    }
}

/// Appends `column(origin, y0, n, v)`.
fn push_column(out: &mut Vec<Write>, origin: IVec3, y0: i32, n: u32, v: Voxel)
    requires
        origin_ok(origin),
        -8 <= y0 <= 40,
        n <= 24,
    ensures
        final(out)@ == old(out)@ + column(origin, y0 as int, n as nat, v),
{
    let mut i: u32 = 0;
    while i < n
        invariant
            i <= n,
            n <= 24,
            origin_ok(origin),
            -8 <= y0 <= 40,
            out@ == old(out)@ + column(origin, y0 as int, i as nat, v),
        decreases n - i,
    {
        out.push((IVec3 { x: origin.x, y: origin.y + y0 + i as i32, z: origin.z }, v));
        assert(column(origin, y0 as int, (i + 1) as nat, v) =~= column(
            origin,
            y0 as int,
            i as nat,
            v,
        ).push((offset(origin, 0, y0 + i, 0), v)));
        i = i + 1;
    }
}

/// Appends `layer(center, lo, hi, shape, r, v)`.
fn push_layer(
    out: &mut Vec<Write>,
    center: IVec3,
    lo: i32,
    hi: i32,
    shape: LayerShape,
    r: i32,
    v: Voxel,
)
    requires
        -8 <= lo <= hi + 1,
        hi <= 8,
        -8 <= r <= 8,
        -0x4000_0100 <= center.x <= 0x4000_0100,
        -0x4000_0100 <= center.y <= 0x4000_0100,
        -0x4000_0100 <= center.z <= 0x4000_0100,
    ensures
        final(out)@ == old(out)@ + layer(center, lo as int, hi as int, shape, r as int, v),
{
    let ghost rows = row_fn(center, lo as int, hi as int, shape, r as int, v);
    let mut x: i32 = lo;
    while x <= hi
        invariant
            lo <= x <= hi + 1,
            -8 <= lo,
            hi <= 8,
            -8 <= r <= 8,
            -0x4000_0100 <= center.x <= 0x4000_0100,
            -0x4000_0100 <= center.y <= 0x4000_0100,
            -0x4000_0100 <= center.z <= 0x4000_0100,
            rows == row_fn(center, lo as int, hi as int, shape, r as int, v),
            out@ == old(out)@ + concat_range(lo as int, (x - lo) as nat, rows),
        decreases hi + 1 - x,
    {
        let ghost cells = cell_fn(center, shape, r as int, v, x as int);
        let ghost before = out@;
        let mut z: i32 = lo;
        while z <= hi
            invariant
                lo <= x <= hi,
                lo <= z <= hi + 1,
                -8 <= lo,
                hi <= 8,
                -8 <= r <= 8,
                -0x4000_0100 <= center.x <= 0x4000_0100,
                -0x4000_0100 <= center.y <= 0x4000_0100,
                -0x4000_0100 <= center.z <= 0x4000_0100,
                cells == cell_fn(center, shape, r as int, v, x as int),
                out@ == before + concat_range(lo as int, (z - lo) as nat, cells),
            decreases hi + 1 - z,
        {
            let ghost prev = out@;
            if keep_exec(shape, r, x, z) {
                out.push((IVec3 { x: center.x + x, y: center.y, z: center.z + z }, v));
            }
            assert(out@ =~= prev + cells(z as int));
            assert(concat_range(lo as int, (z + 1 - lo) as nat, cells) == concat_range(
                lo as int,
                (z - lo) as nat,
                cells,
            ) + cells(z as int));
            z = z + 1;
        }
        assert(rows(x as int) == concat_range(lo as int, (hi - lo + 1) as nat, cells));
        assert(concat_range(lo as int, (x + 1 - lo) as nat, rows) == concat_range(
            lo as int,
            (x - lo) as nat,
            rows,
        ) + rows(x as int));
        x = x + 1;
    }
}

pub open spec fn leaf_range(y: int, height: int) -> int {
    if y >= height { 1 } else { 2 }
}

pub open spec fn leafy_layer_fn(origin: IVec3, height: int, v: Voxel) -> spec_fn(int) -> Seq<Write> {
    |y: int|
        layer(
            offset(origin, 0, y, 0),
            -leaf_range(y, height),
            leaf_range(y, height),
            LayerShape::RoundedSquare,
            leaf_range(y, height),
            v,
        )
}

/// A straight trunk of `height` logs, then leaf layers from `below` under
/// the top of the trunk to one above it: radius 2 beside the trunk, 1 above,
/// each without its corners.
pub open spec fn leafy_tree(origin: IVec3, height: int, below: int, log: Voxel, leaves: Voxel) -> Seq<
    Write,
> {
    column(origin, 0, height as nat, log) + concat_range(
        height - below,
        (below + 2) as nat,
        leafy_layer_fn(origin, height, leaves),
    )
}

fn leafy_tree_exec(origin: IVec3, height: u32, below: u32, log: Voxel, leaves: Voxel) -> (r: Vec<
    Write,
>)
    requires
        origin_ok(origin),
        below <= height <= 12,
    ensures
        r@ == leafy_tree(origin, height as int, below as int, log, leaves),
{
    let mut out: Vec<Write> = Vec::new();
    push_column(&mut out, origin, 0, height, log);
    let ghost layers = leafy_layer_fn(origin, height as int, leaves);
    let start = height - below;
    let mut y: u32 = start;
    while y < height + 2
        invariant
            start <= y <= height + 2,
            start == height - below,
            below <= height <= 12,
            origin_ok(origin),
            layers == leafy_layer_fn(origin, height as int, leaves),
            out@ == column(origin, 0, height as nat, log) + concat_range(
                start as int,
                (y - start) as nat,
                layers,
            ),
        decreases height + 2 - y,
    {
        let range: i32 = if y >= height { 1 } else { 2 };
        let center = IVec3 { x: origin.x, y: origin.y + y as i32, z: origin.z };
        let ghost prev = out@;
        push_layer(&mut out, center, -range, range, LayerShape::RoundedSquare, range, leaves);
        assert(center == offset(origin, 0, y as int, 0));
        assert(out@ =~= prev + layers(y as int));
        assert(concat_range(start as int, (y + 1 - start) as nat, layers) == concat_range(
            start as int,
            (y - start) as nat,
            layers,
        ) + layers(y as int));
        y = y + 1;
    }
    out
}

pub open spec fn oak_tree_spec(origin: IVec3, seed: u32) -> Seq<Write> {
    let h = spec_hash(origin.x, origin.z, seed);
    leafy_tree(origin, 4 + h % 4, 2, Voxel { id: OAK_LOG }, Voxel { id: OAK_LEAVES })
}

pub open spec fn birch_tree_spec(origin: IVec3, seed: u32) -> Seq<Write> {
    let h = spec_hash(origin.x, origin.z, seed);
    leafy_tree(origin, 5 + h % 3, 2, Voxel { id: BIRCH_LOG }, Voxel { id: BIRCH_LEAVES })
}

pub open spec fn jungle_tree_spec(origin: IVec3, seed: u32) -> Seq<Write> {
    let h = spec_hash(origin.x, origin.z, seed);
    leafy_tree(origin, 4 + h % 8, 3, Voxel { id: JUNGLE_LOG }, Voxel { id: JUNGLE_LEAVES })
}

pub open spec fn cactus_spec(origin: IVec3, seed: u32) -> Seq<Write> {
    let h = spec_hash(origin.x, origin.z, seed);
    column(origin, 0, (2 + h % 3) as nat, Voxel { id: CACTUS })
}

pub open spec fn bamboo_spec(origin: IVec3, seed: u32) -> Seq<Write> {
    let h = spec_hash(origin.x, origin.z, seed);
    let height = 8 + h % 8;
    column(origin, 0, height as nat, Voxel { id: BAMBOO }).push(
        (offset(origin, 0, height, 0), Voxel { id: JUNGLE_LEAVES }),
    )
}

pub open spec fn flower_spec(origin: IVec3, seed: u32) -> Seq<Write> {
    let h = spec_hash(origin.x, origin.z, seed);
    seq![(origin, Voxel { id: if h % 2 == 0 { FLOWER_RED } else { FLOWER_YELLOW } })]
}

pub open spec fn pine_radius(y: int, height: int) -> int {
    if y == height { 0 } else if y > height - 3 { 1 } else { 2 }
}

pub open spec fn pine_layer_fn(origin: IVec3, height: int) -> spec_fn(int) -> Seq<Write> {
    |y: int|
        layer(
            offset(origin, 0, y, 0),
            -pine_radius(y, height),
            pine_radius(y, height),
            if y < height { LayerShape::HollowDiamond } else { LayerShape::Diamond },
            pine_radius(y, height),
            Voxel { id: PINE_LEAVES },
        )
}

/// Trunk, diamond leaf layers from 3 up to the top (the trunk cell left out
/// below the top), and one leaf above.
pub open spec fn pine_tree_spec(origin: IVec3, seed: u32) -> Seq<Write> {
    let h = spec_hash(origin.x, origin.z, seed);
    let height = 6 + h % 5;
    (column(origin, 0, height as nat, Voxel { id: PINE_LOG }) + concat_range(
        3,
        (height - 2) as nat,
        pine_layer_fn(origin, height),
    )).push((offset(origin, 0, height + 1, 0), Voxel { id: PINE_LEAVES }))
}

pub open spec fn ice_radius(i: int, height: int) -> int {
    if i < height / 2 { 2 } else if i < height - 2 { 1 } else { 0 }
}

pub open spec fn ice_layer_fn(origin: IVec3, height: int) -> spec_fn(int) -> Seq<Write> {
    |i: int|
        layer(
            offset(origin, 0, i, 0),
            -ice_radius(i, height),
            ice_radius(i, height),
            LayerShape::Diamond,
            ice_radius(i, height),
            Voxel { id: PACKED_ICE },
        )
}

/// Diamond layers of packed ice that narrow from radius 2 to 0.
pub open spec fn ice_spike_spec(origin: IVec3, seed: u32) -> Seq<Write> {
    let h = spec_hash(origin.x, origin.z, seed);
    let height = 10 + h % 10;
    concat_range(0, height as nat, ice_layer_fn(origin, height))
}

/// An oak: straight trunk and a rounded crown.
pub struct OakTreeFeature;

/// A birch: straight trunk and a rounded crown.
pub struct BirchTreeFeature;

/// A jungle tree: straight trunk and a deep rounded crown.
pub struct JungleTreeFeature;

/// A cactus column.
pub struct CactusFeature;

/// A bamboo stalk with a leaf on top.
pub struct BambooFeature;

/// A single flower, red or yellow.
pub struct FlowerFeature;

/// A pine: trunk inside a cone of leaves.
pub struct PineTreeFeature;

/// A tapering spike of packed ice.
pub struct IceSpikeFeature;

impl OakTreeFeature {
    /// A trunk of 4 to 7 logs under a rounded crown.
    pub fn place(&self, origin: IVec3, seed: u32) -> (r: Vec<Write>)
        requires
            origin_ok(origin),
        ensures
            r@ == oak_tree_spec(origin, seed),
    {
        let h = hash(origin.x, origin.z, seed);
        leafy_tree_exec(origin, 4 + h % 4, 2, Voxel { id: OAK_LOG }, Voxel { id: OAK_LEAVES })
    }
}

impl BirchTreeFeature {
    /// A trunk of 5 to 7 birch logs under a rounded crown.
    pub fn place(&self, origin: IVec3, seed: u32) -> (r: Vec<Write>)
        requires
            origin_ok(origin),
        ensures
            r@ == birch_tree_spec(origin, seed),
    {
        let h = hash(origin.x, origin.z, seed);
        leafy_tree_exec(origin, 5 + h % 3, 2, Voxel { id: BIRCH_LOG }, Voxel { id: BIRCH_LEAVES })
    }
}

impl JungleTreeFeature {
    /// A trunk of 4 to 11 jungle logs under a deeper rounded crown.
    pub fn place(&self, origin: IVec3, seed: u32) -> (r: Vec<Write>)
        requires
            origin_ok(origin),
        ensures
            r@ == jungle_tree_spec(origin, seed),
    {
        let h = hash(origin.x, origin.z, seed);
        leafy_tree_exec(origin, 4 + h % 8, 3, Voxel { id: JUNGLE_LOG }, Voxel { id: JUNGLE_LEAVES })
    }
}

impl CactusFeature {
    /// A column of 2 to 4 cactus blocks.
    pub fn place(&self, origin: IVec3, seed: u32) -> (r: Vec<Write>)
        requires
            origin_ok(origin),
        ensures
            r@ == cactus_spec(origin, seed),
    {
        let h = hash(origin.x, origin.z, seed);
        let mut out: Vec<Write> = Vec::new();
        push_column(&mut out, origin, 0, 2 + h % 3, Voxel { id: CACTUS });
        assert(out@ =~= cactus_spec(origin, seed));
        out
    }
}

impl BambooFeature {
    /// A stalk of 8 to 15 bamboo blocks capped by one leaf.
    pub fn place(&self, origin: IVec3, seed: u32) -> (r: Vec<Write>)
        requires
            origin_ok(origin),
        ensures
            r@ == bamboo_spec(origin, seed),
    {
        let h = hash(origin.x, origin.z, seed);
        let height = 8 + h % 8;
        let mut out: Vec<Write> = Vec::new();
        push_column(&mut out, origin, 0, height, Voxel { id: BAMBOO });
        out.push(
            (
                IVec3 { x: origin.x, y: origin.y + height as i32, z: origin.z },
                Voxel { id: JUNGLE_LEAVES },
            ),
        );
        assert(out@ =~= bamboo_spec(origin, seed));
        out
    }
}

impl FlowerFeature {
    /// One red or yellow flower at the origin.
    pub fn place(&self, origin: IVec3, seed: u32) -> (r: Vec<Write>)
        ensures
            r@ == flower_spec(origin, seed),
    {
        let h = hash(origin.x, origin.z, seed);
        let id = if h % 2 == 0 { FLOWER_RED } else { FLOWER_YELLOW };
        let out = vec![(origin, Voxel { id })];
        assert(out@ =~= flower_spec(origin, seed));
        out
    }
}

impl PineTreeFeature {
    /// A trunk of 6 to 10 logs in a cone of diamond leaf layers.
    pub fn place(&self, origin: IVec3, seed: u32) -> (r: Vec<Write>)
        requires
            origin_ok(origin),
        ensures
            r@ == pine_tree_spec(origin, seed),
    {
        let h = hash(origin.x, origin.z, seed);
        let height = 6 + h % 5;
        let mut out: Vec<Write> = Vec::new();
        push_column(&mut out, origin, 0, height, Voxel { id: PINE_LOG });
        let ghost trunk = out@;
        let ghost layers = pine_layer_fn(origin, height as int);
        let mut y: u32 = 3;
        while y <= height
            invariant
                3 <= y <= height + 1,
                6 <= height <= 10,
                height == 6 + h % 5,
                h == spec_hash(origin.x, origin.z, seed),
                origin_ok(origin),
                trunk == column(origin, 0, height as nat, Voxel { id: PINE_LOG }),
                layers == pine_layer_fn(origin, height as int),
                out@ == trunk + concat_range(3, (y - 3) as nat, layers),
            decreases height + 1 - y,
        {
            let radius: i32 = if y == height {
                0
            } else if y > height - 3 {
                1
            } else {
                2
            };
            let shape = if y < height { LayerShape::HollowDiamond } else { LayerShape::Diamond };
            let center = IVec3 { x: origin.x, y: origin.y + y as i32, z: origin.z };
            let ghost prev = out@;
            push_layer(&mut out, center, -radius, radius, shape, radius, Voxel { id: PINE_LEAVES });
            assert(center == offset(origin, 0, y as int, 0));
            assert(out@ =~= prev + layers(y as int));
            assert(concat_range(3, (y + 1 - 3) as nat, layers) == concat_range(
                3,
                (y - 3) as nat,
                layers,
            ) + layers(y as int));
            y = y + 1;
        }
        out.push(
            (
                IVec3 { x: origin.x, y: origin.y + height as i32 + 1, z: origin.z },
                Voxel { id: PINE_LEAVES },
            ),
        );
        out
    }
}

impl IceSpikeFeature {
    /// A spike of packed ice, 10 to 19 layers tall.
    pub fn place(&self, origin: IVec3, seed: u32) -> (r: Vec<Write>)
        requires
            origin_ok(origin),
        ensures
            r@ == ice_spike_spec(origin, seed),
    {
        let h = hash(origin.x, origin.z, seed);
        let height = 10 + h % 10;
        let ghost layers = ice_layer_fn(origin, height as int);
        let mut out: Vec<Write> = Vec::new();
        let mut i: u32 = 0;
        while i < height
            invariant
                i <= height,
                10 <= height <= 19,
                height == 10 + h % 10,
                h == spec_hash(origin.x, origin.z, seed),
                origin_ok(origin),
                layers == ice_layer_fn(origin, height as int),
                out@ == concat_range(0, i as nat, layers),
            decreases height - i,
        {
            let radius: i32 = if i < height / 2 {
                2
            } else if i < height - 2 {
                1
            } else {
                0
            };
            let center = IVec3 { x: origin.x, y: origin.y + i as i32, z: origin.z };
            let ghost prev = out@;
            push_layer(&mut out, center, -radius, radius, LayerShape::Diamond, radius, Voxel { id: PACKED_ICE });
            assert(center == offset(origin, 0, i as int, 0));
            assert(out@ =~= prev + layers(i as int));
            assert(concat_range(0, (i + 1) as nat, layers) == concat_range(0, i as nat, layers)
                + layers(i as int));
            i = i + 1;
        }
        out
    }
}

/// Branch direction chosen by two bits of the hash.
pub open spec fn dir_of(k: int) -> IVec3 {
    if k == 0 {
        IVec3 { x: 1i32, y: 1i32, z: 0i32 }
    } else if k == 1 {
        IVec3 { x: -1i32, y: 1i32, z: 0i32 }
    } else if k == 2 {
        IVec3 { x: 0i32, y: 1i32, z: 1i32 }
    } else {
        IVec3 { x: 0i32, y: 1i32, z: -1i32 }
    }
}

fn dir_of_exec(k: u32) -> (r: IVec3)
    ensures
        r == dir_of(k as int),
{
    if k == 0 {
        IVec3 { x: 1, y: 1, z: 0 }
    } else if k == 1 {
        IVec3 { x: -1, y: 1, z: 0 }
    } else if k == 2 {
        IVec3 { x: 0, y: 1, z: 1 }
    } else {
        IVec3 { x: 0, y: 1, z: -1 }
    }
}

/// `start + k * d` for `k` in `1..=n`.
pub open spec fn branch(start: IVec3, d: IVec3, n: nat, v: Voxel) -> Seq<Write> {
    Seq::new(n, |k: int| (offset(start, d.x * (k + 1), d.y * (k + 1), d.z * (k + 1)), v))
}

pub open spec fn branch_end(start: IVec3, d: IVec3, n: int) -> IVec3 {
    offset(start, d.x * n, d.y * n, d.z * n)
}

/// A flat acacia crown: a 5 by 5 plus shape with a 3 by 3 layer above it.
pub open spec fn acacia_canopy(c: IVec3) -> Seq<Write> {
    layer(c, -2, 2, LayerShape::Plus, 2, Voxel { id: ACACIA_LEAVES }) + layer(
        offset(c, 0, 1, 0),
        -1,
        1,
        LayerShape::Full,
        1,
        Voxel { id: ACACIA_LEAVES },
    )
}

/// Trunk, one branch of 3 logs from the top of the trunk, a second branch
/// of 2 logs from one lower when its direction differs, and a crown at the
/// end of each branch.
pub open spec fn acacia_tree_spec(origin: IVec3, seed: u32) -> Seq<Write> {
    let h = spec_hash(origin.x, origin.z, seed);
    let height = 5 + h % 3;
    let d1 = dir_of((h % 4) as int);
    let d2 = dir_of(((h >> 2u32) % 4) as int);
    let s1 = offset(origin, 0, height - 1, 0);
    let s2 = offset(origin, 0, height - 2, 0);
    let log = Voxel { id: ACACIA_LOG };
    let two = d1 != d2;
    column(origin, 0, height as nat, log) + branch(s1, d1, 3, log) + (if two {
        branch(s2, d2, 2, log)
    } else {
        Seq::empty()
    }) + acacia_canopy(branch_end(s1, d1, 3)) + (if two {
        acacia_canopy(branch_end(s2, d2, 2))
    } else {
        Seq::empty()
    })
}

fn push_branch(out: &mut Vec<Write>, start: IVec3, d: IVec3, n: u32, v: Voxel) -> (end: IVec3)
    requires
        -0x4000_0040 <= start.x <= 0x4000_0040,
        -0x4000_0040 <= start.y <= 0x4000_0040,
        -0x4000_0040 <= start.z <= 0x4000_0040,
        -1 <= d.x <= 1,
        -1 <= d.y <= 1,
        -1 <= d.z <= 1,
        n <= 8,
    ensures
        final(out)@ == old(out)@ + branch(start, d, n as nat, v),
        end == branch_end(start, d, n as int),
{
    let mut pos = start;
    let mut k: u32 = 0;
    while k < n
        invariant
            k <= n <= 8,
            -0x4000_0040 <= start.x <= 0x4000_0040,
            -0x4000_0040 <= start.y <= 0x4000_0040,
            -0x4000_0040 <= start.z <= 0x4000_0040,
            -1 <= d.x <= 1,
            -1 <= d.y <= 1,
            -1 <= d.z <= 1,
            pos == branch_end(start, d, k as int),
            out@ == old(out)@ + branch(start, d, k as nat, v),
        decreases n - k,
    {
        proof {
            assert(-8 <= d.x * k <= 8 && -8 <= d.y * k <= 8 && -8 <= d.z * k <= 8) by (nonlinear_arith)
                requires
                    -1 <= d.x <= 1,
                    -1 <= d.y <= 1,
                    -1 <= d.z <= 1,
                    0 <= k <= 8,
            ;
        }
        pos = IVec3 { x: pos.x + d.x, y: pos.y + d.y, z: pos.z + d.z };
        proof {
            assert(d.x * k + d.x == d.x * (k + 1) && d.y * k + d.y == d.y * (k + 1) && d.z * k + d.z
                == d.z * (k + 1)) by (nonlinear_arith);
        }
        out.push((pos, v));
        assert(branch(start, d, (k + 1) as nat, v) =~= branch(start, d, k as nat, v).push((pos, v)));
        k = k + 1;
    }
    pos
}

fn push_acacia_canopy(out: &mut Vec<Write>, c: IVec3)
    requires
        -0x4000_0080 <= c.x <= 0x4000_0080,
        -0x4000_0080 <= c.y <= 0x4000_0080,
        -0x4000_0080 <= c.z <= 0x4000_0080,
    ensures
        final(out)@ == old(out)@ + acacia_canopy(c),
{
    push_layer(out, c, -2, 2, LayerShape::Plus, 2, Voxel { id: ACACIA_LEAVES });
    let above = IVec3 { x: c.x, y: c.y + 1, z: c.z };
    push_layer(out, above, -1, 1, LayerShape::Full, 1, Voxel { id: ACACIA_LEAVES });
    assert(above == offset(c, 0, 1, 0));
    assert(final(out)@ =~= old(out)@ + acacia_canopy(c));
}

/// An acacia: short trunk, slanted branches, flat crowns.
pub struct AcaciaTreeFeature;

impl AcaciaTreeFeature {
    /// A short trunk with one or two slanted branches, each ending in a flat
    /// crown.
    pub fn place(&self, origin: IVec3, seed: u32) -> (r: Vec<Write>)
        requires
            origin_ok(origin),
        ensures
            r@ == acacia_tree_spec(origin, seed),
    {
        let h = hash(origin.x, origin.z, seed);
        let height = 5 + h % 3;
        let d1 = dir_of_exec(h % 4);
        let d2 = dir_of_exec((h >> 2) % 4);
        let log = Voxel { id: ACACIA_LOG };
        let mut out: Vec<Write> = Vec::new();
        push_column(&mut out, origin, 0, height, log);
        let s1 = IVec3 { x: origin.x, y: origin.y + height as i32 - 1, z: origin.z };
        assert(s1 == offset(origin, 0, height - 1, 0));
        let c1 = push_branch(&mut out, s1, d1, 3, log);
        let two = d1 != d2;
        let mut c2 = c1;
        if two {
            let s2 = IVec3 { x: origin.x, y: origin.y + height as i32 - 2, z: origin.z };
            assert(s2 == offset(origin, 0, height - 2, 0));
            c2 = push_branch(&mut out, s2, d2, 2, log);
        }
        push_acacia_canopy(&mut out, c1);
        if two {
            push_acacia_canopy(&mut out, c2);
        }
        assert(out@ =~= acacia_tree_spec(origin, seed));
        out
    }
}

pub open spec fn mega_range(y: int, height: int) -> int {
    if y >= height { 2 } else { 4 }
}

pub open spec fn trunk4_fn(origin: IVec3) -> spec_fn(int) -> Seq<Write> {
    |i: int|
        seq![
            (offset(origin, 0, i, 0), Voxel { id: JUNGLE_LOG }),
            (offset(origin, 1, i, 0), Voxel { id: JUNGLE_LOG }),
            (offset(origin, 0, i, 1), Voxel { id: JUNGLE_LOG }),
            (offset(origin, 1, i, 1), Voxel { id: JUNGLE_LOG }),
        ]
}

pub open spec fn mega_layer_fn(origin: IVec3, height: int) -> spec_fn(int) -> Seq<Write> {
    |y: int|
        layer(
            offset(origin, 0, y, 0),
            -mega_range(y, height),
            mega_range(y, height) + 1,
            LayerShape::Disc,
            mega_range(y, height),
            Voxel { id: JUNGLE_LEAVES },
        )
}

/// A 2 by 2 trunk of 20 to 29 logs and seven round leaf layers around its
/// top.
pub open spec fn mega_jungle_tree_spec(origin: IVec3, seed: u32) -> Seq<Write> {
    let h = spec_hash(origin.x, origin.z, seed);
    let height = 20 + h % 10;
    concat_range(0, height as nat, trunk4_fn(origin)) + concat_range(
        height - 5,
        7,
        mega_layer_fn(origin, height),
    )
}

/// A giant jungle tree with a 2 by 2 trunk.
pub struct MegaJungleTreeFeature;

impl MegaJungleTreeFeature {
    /// A 2 by 2 trunk of 20 to 29 logs under round leaf layers.
    pub fn place(&self, origin: IVec3, seed: u32) -> (r: Vec<Write>)
        requires
            origin_ok(origin),
        ensures
            r@ == mega_jungle_tree_spec(origin, seed),
    {
        let h = hash(origin.x, origin.z, seed);
        let height = 20 + h % 10;
        let log = Voxel { id: JUNGLE_LOG };
        let ghost trunk = trunk4_fn(origin);
        let mut out: Vec<Write> = Vec::new();
        let mut i: u32 = 0;
        while i < height
            invariant
                i <= height <= 29,
                origin_ok(origin),
                log == (Voxel { id: JUNGLE_LOG }),
                trunk == trunk4_fn(origin),
                out@ == concat_range(0, i as nat, trunk),
            decreases height - i,
        {
            let y = origin.y + i as i32;
            let ghost prev = out@;
            out.push((IVec3 { x: origin.x, y, z: origin.z }, log));
            out.push((IVec3 { x: origin.x + 1, y, z: origin.z }, log));
            out.push((IVec3 { x: origin.x, y, z: origin.z + 1 }, log));
            out.push((IVec3 { x: origin.x + 1, y, z: origin.z + 1 }, log));
            assert(out@ =~= prev + trunk(i as int));
            assert(concat_range(0, (i + 1) as nat, trunk) == concat_range(0, i as nat, trunk)
                + trunk(i as int));
            i = i + 1;
        }
        let ghost trunk_part = out@;
        let ghost layers = mega_layer_fn(origin, height as int);
        let start = height - 5;
        let mut y: u32 = start;
        while y < height + 2
            invariant
                start <= y <= height + 2,
                start == height - 5,
                20 <= height <= 29,
                origin_ok(origin),
                layers == mega_layer_fn(origin, height as int),
                out@ == trunk_part + concat_range(start as int, (y - start) as nat, layers),
            decreases height + 2 - y,
        {
            let range: i32 = if y >= height { 2 } else { 4 };
            let center = IVec3 { x: origin.x, y: origin.y + y as i32, z: origin.z };
            let ghost prev = out@;
            push_layer(&mut out, center, -range, range + 1, LayerShape::Disc, range, Voxel { id: JUNGLE_LEAVES });
            assert(center == offset(origin, 0, y as int, 0));
            assert(out@ =~= prev + layers(y as int));
            assert(concat_range(start as int, (y + 1 - start) as nat, layers) == concat_range(
                start as int,
                (y - start) as nat,
                layers,
            ) + layers(y as int));
            y = y + 1;
        }
        out
    }
}

pub open spec fn bush_cell(origin: IVec3, x: int, y: int, z: int) -> Seq<Write> {
    if !(x == 0 && z == 0 && y == 0) && iabs(x) + iabs(z) + y <= 2 {
        seq![(offset(origin, x, y, z), Voxel { id: JUNGLE_LEAVES })]
    } else {
        Seq::empty()
    }
}

pub open spec fn bush_pair_fn(origin: IVec3, x: int) -> spec_fn(int) -> Seq<Write> {
    |z: int| bush_cell(origin, x, 0, z) + bush_cell(origin, x, 1, z)
}

pub open spec fn bush_row_fn(origin: IVec3) -> spec_fn(int) -> Seq<Write> {
    |x: int| concat_range(-1, 3, bush_pair_fn(origin, x))
}

/// A log at the origin wrapped in leaves: the 3 by 3 layer around it and a
/// plus shape above.
pub open spec fn jungle_bush_spec(origin: IVec3) -> Seq<Write> {
    seq![(origin, Voxel { id: JUNGLE_LOG })] + concat_range(-1, 3, bush_row_fn(origin))
}

fn push_bush_cell(out: &mut Vec<Write>, origin: IVec3, x: i32, y: i32, z: i32)
    requires
        origin_ok(origin),
        -1 <= x <= 1,
        0 <= y <= 1,
        -1 <= z <= 1,
    ensures
        final(out)@ == old(out)@ + bush_cell(origin, x as int, y as int, z as int),
{
    let ax = if x < 0 { -x } else { x };
    let az = if z < 0 { -z } else { z };
    if !(x == 0 && z == 0 && y == 0) && ax + az + y <= 2 {
        out.push((IVec3 { x: origin.x + x, y: origin.y + y, z: origin.z + z }, Voxel { id: JUNGLE_LEAVES }));
    }
    assert(final(out)@ =~= old(out)@ + bush_cell(origin, x as int, y as int, z as int));
}

/// A low jungle bush.
pub struct JungleBushFeature;

impl JungleBushFeature {
    /// One log wrapped in leaves; the seed does not change its shape.
    pub fn place(&self, origin: IVec3, seed: u32) -> (r: Vec<Write>)
        requires
            origin_ok(origin),
        ensures
            r@ == jungle_bush_spec(origin),
    {
        let mut out: Vec<Write> = Vec::new();
        out.push((origin, Voxel { id: JUNGLE_LOG }));
        let ghost head = out@;
        let ghost rows = bush_row_fn(origin);
        let mut x: i32 = -1;
        while x <= 1
            invariant
                -1 <= x <= 2,
                origin_ok(origin),
                rows == bush_row_fn(origin),
                out@ == head + concat_range(-1, (x + 1) as nat, rows),
            decreases 2 - x,
        {
            let ghost before = out@;
            let ghost pairs = bush_pair_fn(origin, x as int);
            let mut z: i32 = -1;
            while z <= 1
                invariant
                    -1 <= x <= 1,
                    -1 <= z <= 2,
                    origin_ok(origin),
                    pairs == bush_pair_fn(origin, x as int),
                    out@ == before + concat_range(-1, (z + 1) as nat, pairs),
                decreases 2 - z,
            {
                let ghost prev = out@;
                push_bush_cell(&mut out, origin, x, 0, z);
                push_bush_cell(&mut out, origin, x, 1, z);
                assert(out@ =~= prev + pairs(z as int));
                assert(concat_range(-1, (z + 2) as nat, pairs) == concat_range(-1, (z + 1) as nat, pairs)
                    + pairs(z as int));
                z = z + 1;
            }
            assert(rows(x as int) == concat_range(-1, 3, pairs));
            assert(concat_range(-1, (x + 2) as nat, rows) == concat_range(-1, (x + 1) as nat, rows)
                + rows(x as int));
            x = x + 1;
        }
        out
    }
}

/// Rounded horizontal offsets of big-oak branch cells, one for each branch
/// count `n` in `4..=6`, branch index `i < n`, angle jitter `s < 10` and
/// step `l` in `1..=5`: the offset is `round(l * (cos a, sin a))` with
/// `a = i / n * 6.283 + s / 10`. The caller computes them once.
#[derive(Debug)]
pub struct BranchDirections {
    pub offsets: Vec<(i32, i32)>,
}

/// Number of entries of a branch direction table.
pub const BRANCH_TABLE_LEN: usize = 900;

pub open spec fn branch_index(n: int, i: int, s: int, l: int) -> int {
    (((n - 4) * 6 + i) * 10 + s) * 5 + (l - 1)
}

pub open spec fn table_ok(t: Seq<(i32, i32)>) -> bool {
    t.len() == BRANCH_TABLE_LEN && forall|k: int|
        0 <= k < t.len() ==> -5 <= (#[trigger] t[k]).0 <= 5 && -5 <= t[k].1 <= 5
}

impl BranchDirections {
    pub open spec fn wf(&self) -> bool {
        table_ok(self.offsets@)
    }

    /// Accepts a table of the right length whose offsets are at most 5 in
    /// each direction.
    pub fn new(offsets: Vec<(i32, i32)>) -> (r: Option<BranchDirections>)
        ensures
            r is Some <==> table_ok(offsets@),
            r is Some ==> r.unwrap().offsets@ == offsets@,
    {
        if offsets.len() != BRANCH_TABLE_LEN {
            return None;
        }
        let mut k: usize = 0;
        while k < offsets.len()
            invariant
                k <= offsets.len(),
                forall|j: int| 0 <= j < k ==> -5 <= (#[trigger] offsets@[j]).0 <= 5 && -5 <= offsets@[j].1 <= 5,
            decreases offsets.len() - k,
        {
            let (a, b) = offsets[k];
            if a < -5 || a > 5 || b < -5 || b > 5 {
                return None;
            }
            k = k + 1;
        }
        Some(BranchDirections { offsets })
    }
}

pub open spec fn sphere_cell(c: IVec3, r: int, x: int, y: int, z: int) -> Seq<Write> {
    if x * x + y * y + z * z <= r * r + 1 {
        seq![(offset(c, x, y, z), Voxel { id: OAK_LEAVES })]
    } else {
        Seq::empty()
    }
}

pub open spec fn sphere_z_fn(c: IVec3, r: int, x: int, y: int) -> spec_fn(int) -> Seq<Write> {
    |z: int| sphere_cell(c, r, x, y, z)
}

pub open spec fn sphere_y_fn(c: IVec3, r: int, x: int) -> spec_fn(int) -> Seq<Write> {
    |y: int| concat_range(-r, (2 * r + 1) as nat, sphere_z_fn(c, r, x, y))
}

pub open spec fn sphere_x_fn(c: IVec3, r: int) -> spec_fn(int) -> Seq<Write> {
    |x: int| concat_range(-r, (2 * r + 1) as nat, sphere_y_fn(c, r, x))
}

/// Oak leaves at the cells of the cube `[-r, r]³` around `c` with
/// `x² + y² + z² <= r² + 1`, x outermost and z innermost.
pub open spec fn leaf_ball(c: IVec3, r: int) -> Seq<Write> {
    concat_range(-r, (2 * r + 1) as nat, sphere_x_fn(c, r))
}

fn push_leaf_ball(out: &mut Vec<Write>, c: IVec3, r: i32)
    requires
        0 <= r <= 3,
        -0x4000_0080 <= c.x <= 0x4000_0080,
        -0x4000_0080 <= c.y <= 0x4000_0080,
        -0x4000_0080 <= c.z <= 0x4000_0080,
    ensures
        final(out)@ == old(out)@ + leaf_ball(c, r as int),
{
    let ghost xs = sphere_x_fn(c, r as int);
    let mut x: i32 = -r;
    while x <= r
        invariant
            -r <= x <= r + 1,
            0 <= r <= 3,
            -0x4000_0080 <= c.x <= 0x4000_0080,
            -0x4000_0080 <= c.y <= 0x4000_0080,
            -0x4000_0080 <= c.z <= 0x4000_0080,
            xs == sphere_x_fn(c, r as int),
            out@ == old(out)@ + concat_range(-r as int, (x + r) as nat, xs),
        decreases r + 1 - x,
    {
        let ghost ys = sphere_y_fn(c, r as int, x as int);
        let ghost before_x = out@;
        let mut y: i32 = -r;
        while y <= r
            invariant
                -r <= x <= r,
                -r <= y <= r + 1,
                0 <= r <= 3,
                -0x4000_0080 <= c.x <= 0x4000_0080,
                -0x4000_0080 <= c.y <= 0x4000_0080,
                -0x4000_0080 <= c.z <= 0x4000_0080,
                ys == sphere_y_fn(c, r as int, x as int),
                out@ == before_x + concat_range(-r as int, (y + r) as nat, ys),
            decreases r + 1 - y,
        {
            let ghost zs = sphere_z_fn(c, r as int, x as int, y as int);
            let ghost before_y = out@;
            let mut z: i32 = -r;
            while z <= r
                invariant
                    -r <= x <= r,
                    -r <= y <= r,
                    -r <= z <= r + 1,
                    0 <= r <= 3,
                    -0x4000_0080 <= c.x <= 0x4000_0080,
                    -0x4000_0080 <= c.y <= 0x4000_0080,
                    -0x4000_0080 <= c.z <= 0x4000_0080,
                    zs == sphere_z_fn(c, r as int, x as int, y as int),
                    out@ == before_y + concat_range(-r as int, (z + r) as nat, zs),
                decreases r + 1 - z,
            {
                let ghost prev = out@;
                proof {
                    assert(0 <= x * x <= 9 && 0 <= y * y <= 9 && 0 <= z * z <= 9 && 0 <= r * r <= 9) by (nonlinear_arith)
                        requires
                            -3 <= x <= 3,
                            -3 <= y <= 3,
                            -3 <= z <= 3,
                            0 <= r <= 3,
                    ;
                }
                if x * x + y * y + z * z <= r * r + 1 {
                    out.push((IVec3 { x: c.x + x, y: c.y + y, z: c.z + z }, Voxel { id: OAK_LEAVES }));
                }
                assert(out@ =~= prev + zs(z as int));
                assert(concat_range(-r as int, (z + 1 + r) as nat, zs) == concat_range(
                    -r as int,
                    (z + r) as nat,
                    zs,
                ) + zs(z as int));
                z = z + 1;
            }
            assert(ys(y as int) == concat_range(-r as int, (2 * r + 1) as nat, zs));
            assert(concat_range(-r as int, (y + 1 + r) as nat, ys) == concat_range(
                -r as int,
                (y + r) as nat,
                ys,
            ) + ys(y as int));
            y = y + 1;
        }
        assert(xs(x as int) == concat_range(-r as int, (2 * r + 1) as nat, ys));
        assert(concat_range(-r as int, (x + 1 + r) as nat, xs) == concat_range(
            -r as int,
            (x + r) as nat,
            xs,
        ) + xs(x as int));
        x = x + 1;
    }
}

pub open spec fn oak_branch_count(h: u32) -> int {
    4 + ((h >> 3u32) % 3) as int
}

pub open spec fn oak_branch_seed(h: u32, i: int) -> u32 {
    u32_specs::wrapping_add(h, (i * 1923) as u32)
}

pub open spec fn oak_branch_len(bs: u32) -> int {
    3 + ((bs >> 4u32) % 3) as int
}

/// Cell `l` (from 1) of branch `i` of a big oak.
pub open spec fn oak_branch_cell(origin: IVec3, seed: u32, t: Seq<(i32, i32)>, i: int, l: int) -> IVec3 {
    let h = spec_hash(origin.x, origin.z, seed);
    let height = 10 + (h % 5) as int;
    let bs = oak_branch_seed(h, i);
    let start_h = height / 3 + (bs as int) % (height / 2);
    let o = t[branch_index(oak_branch_count(h), i, (bs % 10) as int, l)];
    offset(origin, o.0 as int, start_h + (l + 1) / 2, o.1 as int)
}

pub open spec fn oak_branch_fn(origin: IVec3, seed: u32, t: Seq<(i32, i32)>) -> spec_fn(int) -> Seq<Write> {
    |i: int|
        Seq::new(
            oak_branch_len(oak_branch_seed(spec_hash(origin.x, origin.z, seed), i)) as nat,
            |k: int| (oak_branch_cell(origin, seed, t, i, k + 1), Voxel { id: OAK_LOG }),
        )
}

/// The leaf-ball centres of a big oak: the top of the trunk with radius 3,
/// then the end of each branch with radius 2.
pub open spec fn oak_centers(origin: IVec3, seed: u32, t: Seq<(i32, i32)>) -> Seq<(IVec3, int)> {
    let h = spec_hash(origin.x, origin.z, seed);
    let height = 10 + (h % 5) as int;
    seq![(offset(origin, 0, height, 0), 3int)] + Seq::new(
        oak_branch_count(h) as nat,
        |i: int| (oak_branch_cell(origin, seed, t, i, oak_branch_len(oak_branch_seed(h, i))), 2int),
    )
}

pub open spec fn oak_ball_fn(cs: Seq<(IVec3, int)>) -> spec_fn(int) -> Seq<Write> {
    |j: int| leaf_ball(cs[j].0, cs[j].1)
}

/// Leaves first, then the trunk and the branches, so that a later log
/// write meets a leaf it cannot replace.
pub open spec fn big_oak_tree_spec(origin: IVec3, seed: u32, t: Seq<(i32, i32)>) -> Seq<Write> {
    let h = spec_hash(origin.x, origin.z, seed);
    let height = 10 + (h % 5) as int;
    let cs = oak_centers(origin, seed, t);
    concat_range(0, cs.len(), oak_ball_fn(cs)) + column(
        origin,
        0,
        height as nat,
        Voxel { id: OAK_LOG },
    ) + concat_range(0, oak_branch_count(h) as nat, oak_branch_fn(origin, seed, t))
}

pub struct BigOakTreeFeature;

impl BigOakTreeFeature {
    /// A tall trunk with four to six rising branches and a leaf ball at the
    /// top and at the end of each branch.
    pub fn place(&self, origin: IVec3, seed: u32, dirs: &BranchDirections) -> (r: Vec<Write>)
        requires
            origin_ok(origin),
            dirs.wf(),
        ensures
            r@ == big_oak_tree_spec(origin, seed, dirs.offsets@),
    {
        let ghost t = dirs.offsets@;
        let h = hash(origin.x, origin.z, seed);
        let height = 10 + h % 5;
        let mut logs: Vec<Write> = Vec::new();
        push_column(&mut logs, origin, 0, height, Voxel { id: OAK_LOG });
        let ghost trunk = logs@;
        let mut centers: Vec<(IVec3, i32)> = Vec::new();
        centers.push((IVec3 { x: origin.x, y: origin.y + height as i32, z: origin.z }, 3));
        let num_branches = 4 + ((h >> 3) % 3);
        let ghost branches = oak_branch_fn(origin, seed, t);
        let mut i: u32 = 0;
        while i < num_branches
            invariant
                i <= num_branches,
                num_branches == oak_branch_count(h),
                h == spec_hash(origin.x, origin.z, seed),
                height == 10 + h % 5,
                origin_ok(origin),
                t == dirs.offsets@,
                table_ok(t),
                branches == oak_branch_fn(origin, seed, t),
                logs@ == trunk + concat_range(0, i as nat, branches),
                centers@.len() == i + 1,
                forall|j: int|
                    0 <= j < centers@.len() ==> -0x4000_0080 <= (#[trigger] centers@[j]).0.x
                        <= 0x4000_0080 && -0x4000_0080 <= centers@[j].0.y <= 0x4000_0080
                        && -0x4000_0080 <= centers@[j].0.z <= 0x4000_0080 && 0 <= centers@[j].1 <= 3,
                forall|j: int|
                    0 <= j < centers@.len() ==> #[trigger] centers@[j] == ((
                        oak_centers(origin, seed, t)[j].0,
                        oak_centers(origin, seed, t)[j].1 as i32,
                    )),
            decreases num_branches - i,
        {
            let bs = h.wrapping_add(i * 1923);
            let start_h = height / 3 + bs % (height / 2);
            let length = 3 + ((bs >> 4) % 3);
            let s = bs % 10;
            let base: usize = ((((num_branches - 4) * 6 + i) * 10 + s) * 5) as usize;
            let ghost before = logs@;
            let ghost cells = branches(i as int);
            let mut end = origin;
            let mut l: u32 = 1;
            while l <= length
                invariant
                    1 <= l <= length + 1,
                    3 <= length <= 5,
                    length == oak_branch_len(bs),
                    bs == oak_branch_seed(h, i as int),
                    start_h == (height / 3 + bs % (height / 2)) as int,
                    start_h <= 14,
                    s == bs % 10,
                    i < num_branches,
                    num_branches == oak_branch_count(h),
                    base == branch_index(num_branches as int, i as int, s as int, 1),
                    h == spec_hash(origin.x, origin.z, seed),
                    height == 10 + h % 5,
                    origin_ok(origin),
                    t == dirs.offsets@,
                    table_ok(t),
                    cells == branches(i as int),
                    branches == oak_branch_fn(origin, seed, t),
                    logs@ == before + cells.take((l - 1) as int),
                    l > 1 ==> end == oak_branch_cell(origin, seed, t, i as int, (l - 1) as int),
                decreases length + 1 - l,
            {
                let k: usize = base + (l - 1) as usize;
                let (ox, oz) = dirs.offsets[k];
                end = IVec3 {
                    x: origin.x + ox,
                    y: origin.y + start_h as i32 + ((l as i32 + 1) / 2),
                    z: origin.z + oz,
                };
                assert(end == oak_branch_cell(origin, seed, t, i as int, l as int));
                logs.push((end, Voxel { id: OAK_LOG }));
                assert(cells.take(l as int) =~= cells.take((l - 1) as int).push(cells[(l - 1) as int]));
                l = l + 1;
            }
            assert(cells.take(length as int) =~= cells);
            centers.push((end, 2));
            assert(concat_range(0, (i + 1) as nat, branches) == concat_range(0, i as nat, branches)
                + branches(i as int));
            i = i + 1;
        }
        let ghost cs = oak_centers(origin, seed, t);
        let ghost balls = oak_ball_fn(cs);
        let mut leaves: Vec<Write> = Vec::new();
        let mut j: usize = 0;
        while j < centers.len()
            invariant
                j <= centers.len(),
                centers@.len() == cs.len(),
                cs == oak_centers(origin, seed, t),
                balls == oak_ball_fn(cs),
                forall|q: int|
                    0 <= q < centers@.len() ==> -0x4000_0080 <= (#[trigger] centers@[q]).0.x
                        <= 0x4000_0080 && -0x4000_0080 <= centers@[q].0.y <= 0x4000_0080
                        && -0x4000_0080 <= centers@[q].0.z <= 0x4000_0080 && 0 <= centers@[q].1 <= 3,
                forall|q: int|
                    0 <= q < centers@.len() ==> #[trigger] centers@[q] == ((cs[q].0, cs[q].1 as i32)),
                leaves@ == concat_range(0, j as nat, balls),
            decreases centers.len() - j,
        {
            let (c, r) = centers[j];
            push_leaf_ball(&mut leaves, c, r);
            assert(concat_range(0, (j + 1) as nat, balls) == concat_range(0, j as nat, balls)
                + balls(j as int));
            j = j + 1;
        }
        leaves.append(&mut logs);
        leaves
    }
}

/// The closed set of features, dispatched by matching.
#[derive(Debug, Clone, Copy, PartialEq, Eq, Structural)]
pub enum FeatureKind {
    OakTree,
    Cactus,
    Flower,
    PineTree,
    BirchTree,
    BigOakTree,
    IceSpike,
    Bamboo,
    AcaciaTree,
    JungleTree,
    MegaJungleTree,
    JungleBush,
}

pub open spec fn feature_spec(kind: FeatureKind, origin: IVec3, seed: u32, t: Seq<(i32, i32)>) -> Seq<
    Write,
> {
    match kind {
        FeatureKind::OakTree => oak_tree_spec(origin, seed),
        FeatureKind::Cactus => cactus_spec(origin, seed),
        FeatureKind::Flower => flower_spec(origin, seed),
        FeatureKind::PineTree => pine_tree_spec(origin, seed),
        FeatureKind::BirchTree => birch_tree_spec(origin, seed),
        FeatureKind::BigOakTree => big_oak_tree_spec(origin, seed, t),
        FeatureKind::IceSpike => ice_spike_spec(origin, seed),
        FeatureKind::Bamboo => bamboo_spec(origin, seed),
        FeatureKind::AcaciaTree => acacia_tree_spec(origin, seed),
        FeatureKind::JungleTree => jungle_tree_spec(origin, seed),
        FeatureKind::MegaJungleTree => mega_jungle_tree_spec(origin, seed),
        FeatureKind::JungleBush => jungle_bush_spec(origin),
    }
}

impl FeatureKind {
    /// The writes of this feature placed at `origin`.
    pub fn place(&self, origin: IVec3, seed: u32, dirs: &BranchDirections) -> (r: Vec<Write>)
        requires
            origin_ok(origin),
            dirs.wf(),
        ensures
            r@ == feature_spec(*self, origin, seed, dirs.offsets@),
    {
        match self {
            FeatureKind::OakTree => OakTreeFeature.place(origin, seed),
            FeatureKind::Cactus => CactusFeature.place(origin, seed),
            FeatureKind::Flower => FlowerFeature.place(origin, seed),
            FeatureKind::PineTree => PineTreeFeature.place(origin, seed),
            FeatureKind::BirchTree => BirchTreeFeature.place(origin, seed),
            FeatureKind::BigOakTree => BigOakTreeFeature.place(origin, seed, dirs),
            FeatureKind::IceSpike => IceSpikeFeature.place(origin, seed),
            FeatureKind::Bamboo => BambooFeature.place(origin, seed),
            FeatureKind::AcaciaTree => AcaciaTreeFeature.place(origin, seed),
            FeatureKind::JungleTree => JungleTreeFeature.place(origin, seed),
            FeatureKind::MegaJungleTree => MegaJungleTreeFeature.place(origin, seed),
            FeatureKind::JungleBush => JungleBushFeature.place(origin, seed),
        }
    }
}

} // verus!
