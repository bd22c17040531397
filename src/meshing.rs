//! The voxel side of meshing: per-voxel materials and visibility, the
//! classification that the greedy quad pass runs on, the cells that get
//! diagonal cross quads, and the grouping of quads by material so that each
//! material becomes one mesh.
//!
//! Faces are numbered -X, -Y, -Z, +X, +Y, +Z. A material handle is an index
//! into the host's table of materials.

use vstd::prelude::*;
use crate::chunk::{lemma_lin_split, Chunk};
use crate::coords::UVec3;
use crate::feature::concat_range;
use crate::voxel::{Voxel, VoxelMeshKind, VoxelVisibility};

verus! {

/// A quad from the greedy pass: face index, minimum corner in padded-chunk
/// coordinates, width and height.
pub type Quad = (usize, UVec3, u32, u32);

/// Per-face handles of a uniform material.
pub fn uniform_faces(m: u32) -> (r: [u32; 6])
    ensures
        r@ == seq![m, m, m, m, m, m],
{
    let r = [m, m, m, m, m, m];
    assert(r@ =~= seq![m, m, m, m, m, m]);
    r
}

/// Per-face handles of a column material: top on +Y, bottom on -Y, side on
/// the four others.
pub fn column_faces(top: u32, side: u32, bottom: u32) -> (r: [u32; 6])
    ensures
        r@ == seq![side, bottom, side, side, top, side],
{
    let r = [side, bottom, side, side, top, side];
    assert(r@ =~= seq![side, bottom, side, side, top, side]);
    r
}

fn find_group(groups: &Vec<((u32, bool), Vec<usize>)>, key: (u32, bool)) -> (r: usize)
    ensures
        r <= groups.len(),
        r < groups.len() ==> groups@[r as int].0 == key,
        r == groups.len() ==> forall|a: int| 0 <= a < groups.len() ==> groups@[a].0 != key,
{
    let mut g: usize = 0;
    while g < groups.len()
        invariant
            g <= groups.len(),
            forall|a: int| 0 <= a < g ==> groups@[a].0 != key,
        decreases groups.len() - g,
    {
        if groups[g].0.0 == key.0 && groups[g].0.1 == key.1 {
            return g;
        }
        g = g + 1;
    }
    g
}

/// Quad index `q` is a member of some group.
pub open spec fn grouped(groups: Seq<((u32, bool), Vec<usize>)>, q: int) -> bool {
    exists|g: int, k: int|
        0 <= g < groups.len() && 0 <= k < groups[g].1.len() && #[trigger] groups[g].1@[k] == q
}

/// A material registration with its per-face layout.
#[derive(Debug, Clone, Copy, PartialEq, Eq, Structural)]
pub enum MaterialType {
    NoMaterial,
    Uniform { material: u32, visibility: VoxelVisibility },
    Column { top: u32, side: u32, bottom: u32, visibility: VoxelVisibility },
    PerFace {
        west: u32,
        bottom: u32,
        north: u32,
        east: u32,
        top: u32,
        south: u32,
        visibility: VoxelVisibility,
    },
}

/// Per-face handles and visibility of a registration; no material means
/// the default material on every face and empty visibility.
pub open spec fn spec_registration(m: MaterialType, d: u32) -> (Seq<u32>, VoxelVisibility) {
    match m {
        MaterialType::NoMaterial => (seq![d, d, d, d, d, d], VoxelVisibility::Empty),
        MaterialType::Uniform { material, visibility } => (
            seq![material, material, material, material, material, material],
            visibility,
        ),
        MaterialType::Column { top, side, bottom, visibility } => (
            seq![side, bottom, side, side, top, side],
            visibility,
        ),
        MaterialType::PerFace { west, bottom, north, east, top, south, visibility } => (
            seq![west, bottom, north, east, top, south],
            visibility,
        ),
    }
}

/// Materials, visibility and mesh kind of each voxel id.
#[derive(Debug)]
pub struct MaterialRepository {
    pub default_material: u32,
    pub materials: Vec<[u32; 6]>,
    pub visibilities: Vec<VoxelVisibility>,
    pub voxel_kinds: Vec<VoxelMeshKind>,
}

impl MaterialRepository {
    pub open spec fn wf(&self) -> bool {
        self.materials.len() == self.visibilities.len() && self.materials.len()
            == self.voxel_kinds.len()
    }

    pub open spec fn spec_handle(&self, id: int, face: int) -> u32 {
        if id < self.materials.len() {
            self.materials@[id]@[face]
        } else {
            self.default_material
        }
    }

    pub open spec fn spec_visibility(&self, id: int) -> VoxelVisibility {
        if id < self.visibilities.len() {
            self.visibilities@[id]
        } else {
            VoxelVisibility::Opaque
        }
    }

    pub open spec fn spec_kind(&self, id: int) -> VoxelMeshKind {
        if id < self.voxel_kinds.len() {
            self.voxel_kinds@[id]
        } else {
            VoxelMeshKind::Cube
        }
    }

    /// An empty repository whose fallback material is `default_material`.
    pub fn new(default_material: u32) -> (r: MaterialRepository)
        ensures
            r.wf(),
            r.default_material == default_material,
            r.materials.len() == 0,
    {
        MaterialRepository {
            default_material,
            materials: Vec::new(),
            visibilities: Vec::new(),
            voxel_kinds: Vec::new(),
        }
    }

    /// Registers the materials, visibility and kind of voxel `id`; ids
    /// skipped over get the default material, empty visibility and cube
    /// kind.
    pub fn set_material(
        &mut self,
        id: u16,
        handles: [u32; 6],
        visibility: VoxelVisibility,
        kind: VoxelMeshKind,
    )
        requires
            old(self).wf(),
        ensures
            final(self).wf(),
            final(self).default_material == old(self).default_material,
            final(self).materials.len() == if id < old(self).materials.len() {
                old(self).materials.len() as int
            } else {
                id + 1
            },
            final(self).materials@[id as int] == handles,
            final(self).visibilities@[id as int] == visibility,
            final(self).voxel_kinds@[id as int] == kind,
            forall|j: int|
                0 <= j < old(self).materials.len() && j != id ==> #[trigger] final(self).materials@[j]
                    == old(self).materials@[j],
            forall|j: int|
                0 <= j < old(self).materials.len() && j != id
                    ==> #[trigger] final(self).visibilities@[j] == old(self).visibilities@[j],
            forall|j: int|
                0 <= j < old(self).materials.len() && j != id ==> #[trigger] final(self).voxel_kinds@[j]
                    == old(self).voxel_kinds@[j],
            forall|j: int, f: int|
                old(self).materials.len() <= j < final(self).materials.len() && j != id && 0 <= f < 6
                    ==> #[trigger] final(self).materials@[j]@[f] == old(self).default_material,
            forall|j: int|
                old(self).materials.len() <= j < final(self).materials.len() && j != id
                    ==> #[trigger] final(self).visibilities@[j] == VoxelVisibility::Empty,
            forall|j: int|
                old(self).materials.len() <= j < final(self).materials.len() && j != id
                    ==> #[trigger] final(self).voxel_kinds@[j] == VoxelMeshKind::Cube,
    {
        let idx = id as usize;
        let ghost n0 = self.materials.len();
        let ghost d = self.default_material;
        while self.materials.len() <= idx
            invariant
                self.wf(),
                self.default_material == d,
                d == old(self).default_material,
                n0 == old(self).materials.len(),
                n0 <= self.materials.len(),
                self.materials.len() > n0 ==> self.materials.len() <= idx + 1,
                forall|j: int| 0 <= j < n0 ==> #[trigger] self.materials@[j] == old(self).materials@[j],
                forall|j: int|
                    0 <= j < n0 ==> #[trigger] self.visibilities@[j] == old(self).visibilities@[j],
                forall|j: int|
                    0 <= j < n0 ==> #[trigger] self.voxel_kinds@[j] == old(self).voxel_kinds@[j],
                forall|j: int, f: int|
                    n0 <= j < self.materials.len() && 0 <= f < 6 ==> #[trigger] self.materials@[j]@[f]
                        == d,
                forall|j: int|
                    n0 <= j < self.materials.len() ==> #[trigger] self.visibilities@[j]
                        == VoxelVisibility::Empty,
                forall|j: int|
                    n0 <= j < self.materials.len() ==> #[trigger] self.voxel_kinds@[j]
                        == VoxelMeshKind::Cube,
            decreases idx + 1 - self.materials.len(),
        {
            self.materials.push(uniform_faces(self.default_material));
            self.visibilities.push(VoxelVisibility::Empty);
            self.voxel_kinds.push(VoxelMeshKind::Cube);
        }
        self.materials.set(idx, handles);
        self.visibilities.set(idx, visibility);
        self.voxel_kinds.set(idx, kind);
    }

    /// Appends a registration under the next free id, which it returns; the
    /// id is drawn as a cube.
    pub fn register_material(&mut self, material: MaterialType) -> (r: usize)
        requires
            old(self).wf(),
        ensures
            final(self).wf(),
            r == old(self).materials.len(),
            final(self).default_material == old(self).default_material,
            final(self).materials@ == old(self).materials@.push(final(self).materials@[r as int]),
            final(self).visibilities@ == old(self).visibilities@.push(final(self).visibilities@[r as int]),
            final(self).voxel_kinds@ == old(self).voxel_kinds@.push(VoxelMeshKind::Cube),
            (final(self).materials@[r as int]@, final(self).visibilities@[r as int]) == spec_registration(
                material,
                old(self).default_material,
            ),
    {
        let (handles, visibility) = match material {
            MaterialType::NoMaterial => (uniform_faces(self.default_material), VoxelVisibility::Empty),
            MaterialType::Uniform { material, visibility } => (uniform_faces(material), visibility),
            MaterialType::Column { top, side, bottom, visibility } => (
                column_faces(top, side, bottom),
                visibility,
            ),
            MaterialType::PerFace { west, bottom, north, east, top, south, visibility } => {
                let h = [west, bottom, north, east, top, south];
                assert(h@ =~= seq![west, bottom, north, east, top, south]);
                (h, visibility)
            },
        };
        self.materials.push(handles);
        self.visibilities.push(visibility);
        self.voxel_kinds.push(VoxelMeshKind::Cube);
        self.materials.len() - 1
    }

    /// Handle of face `face_index` of material `material_index`; the default
    /// material for unregistered indices.
    pub fn get_material_handle(&self, material_index: usize, face_index: usize) -> (r: u32)
        requires
            self.wf(),
            face_index < 6,
        ensures
            r == self.spec_handle(material_index as int, face_index as int),
    {
        if material_index >= self.materials.len() {
            self.default_material
        } else {
            self.materials[material_index][face_index]
        }
    }

    /// Visibility of voxel id; unregistered ids are opaque.
    pub fn get_visibility(&self, voxel_id: u16) -> (r: VoxelVisibility)
        requires
            self.wf(),
        ensures
            r == self.spec_visibility(voxel_id as int),
    {
        if (voxel_id as usize) < self.visibilities.len() {
            self.visibilities[voxel_id as usize]
        } else {
            VoxelVisibility::Opaque
        }
    }

    /// Mesh kind of voxel id; unregistered ids are cubes.
    pub fn get_voxel_kind(&self, voxel_id: u16) -> (r: VoxelMeshKind)
        requires
            self.wf(),
        ensures
            r == self.spec_kind(voxel_id as int),
    {
        if (voxel_id as usize) < self.voxel_kinds.len() {
            self.voxel_kinds[voxel_id as usize]
        } else {
            VoxelMeshKind::Cube
        }
    }

    /// What the greedy pass sees of a voxel: its id as merge value, and its
    /// visibility, with cross voxels treated as empty.
    pub open spec fn spec_meshing_voxel(&self, v: Voxel) -> (u16, VoxelVisibility) {
        if self.spec_kind(v.id as int) == VoxelMeshKind::Cross {
            (v.id, VoxelVisibility::Empty)
        } else {
            (v.id, self.spec_visibility(v.id as int))
        }
    }

    /// The greedy-pass input for a padded chunk, cell by cell.
    pub fn meshing_voxels(&self, chunk: &Chunk) -> (r: Vec<(u16, VoxelVisibility)>)
        requires
            self.wf(),
        ensures
            r.len() == chunk.voxels.len(),
            forall|i: int|
                0 <= i < r.len() ==> #[trigger] r@[i] == self.spec_meshing_voxel(chunk.voxels@[i]),
    {
        let mut r: Vec<(u16, VoxelVisibility)> = Vec::new();
        let mut i: usize = 0;
        while i < chunk.voxels.len()
            invariant
                self.wf(),
                i <= chunk.voxels.len(),
                r.len() == i,
                forall|j: int|
                    0 <= j < i ==> #[trigger] r@[j] == self.spec_meshing_voxel(chunk.voxels@[j]),
            decreases chunk.voxels.len() - i,
        {
            let v = chunk.voxels[i];
            let kind = self.get_voxel_kind(v.id);
            match kind {
                VoxelMeshKind::Cross => r.push((v.id, VoxelVisibility::Empty)),
                _ => r.push((v.id, self.get_visibility(v.id))),
            }
            i = i + 1;
        }
        r
    }

    /// The cross quad for storage index `i` of a padded chunk: only for
    /// cross voxels strictly inside the outer ring, with the handle of the
    /// voxel's first face.
    pub open spec fn spec_cross_cell(&self, chunk: Chunk, i: int) -> Seq<(u32, UVec3)> {
        let s = chunk.size as int;
        let x = i % s;
        let y = (i / s) % s;
        let z = (i / s) / s;
        let v = chunk.voxels@[i];
        if self.spec_kind(v.id as int) == VoxelMeshKind::Cross && 0 < x < s - 1 && 0 < y < s - 1
            && 0 < z < s - 1 {
            seq![(self.spec_handle(v.id as int, 0), UVec3 { x: x as u32, y: y as u32, z: z as u32 })]
        } else {
            Seq::empty()
        }
    }

    pub open spec fn cross_fn(&self, chunk: Chunk) -> spec_fn(int) -> Seq<(u32, UVec3)> {
        |i: int| self.spec_cross_cell(chunk, i)
    }

    /// Cells that get the two diagonal cross quads, with their material, in
    /// storage order.
    pub fn cross_voxels(&self, chunk: &Chunk) -> (r: Vec<(u32, UVec3)>)
        requires
            self.wf(),
            chunk.wf(),
        ensures
            r@ == concat_range(0, chunk.voxels.len() as nat, self.cross_fn(*chunk)),
    {
        let s = chunk.size;
        let ghost cells = self.cross_fn(*chunk);
        let mut r: Vec<(u32, UVec3)> = Vec::new();
        let mut i: usize = 0;
        while i < chunk.voxels.len()
            invariant
                self.wf(),
                chunk.wf(),
                s == chunk.size,
                i <= chunk.voxels.len(),
                cells == self.cross_fn(*chunk),
                r@ == concat_range(0, i as nat, cells),
            decreases chunk.voxels.len() - i,
        {
            let v = chunk.voxels[i];
            let ghost prev = r@;
            proof {
                lemma_lin_split(s as int, i as int);
            }
            let x = (i % s as usize) as u32;
            let y = ((i / s as usize) % s as usize) as u32;
            let z = ((i / s as usize) / s as usize) as u32;
            if self.get_voxel_kind(v.id) == VoxelMeshKind::Cross && 0 < x && x < s - 1 && 0 < y && y
                < s - 1 && 0 < z && z < s - 1 {
                r.push((self.get_material_handle(v.id as usize, 0), UVec3 { x, y, z }));
            }
            assert(r@ =~= prev + cells(i as int));
            assert(concat_range(0, (i + 1) as nat, cells) == concat_range(0, i as nat, cells) + cells(
                i as int,
            ));
            i = i + 1;
        }
        r
    }

    /// Material of a greedy quad: the handle registered for the face of the
    /// voxel at its minimum corner, and whether that voxel is water.
    pub open spec fn spec_quad_material(&self, chunk: Chunk, q: Quad) -> (u32, bool) {
        let v = chunk.at(q.1);
        (self.spec_handle(v.id as int, q.0 as int), self.spec_kind(v.id as int) == VoxelMeshKind::Water)
    }

    /// Groups greedy quads by material so that each group becomes one mesh:
    /// the groups have distinct materials, each holds, in increasing order,
    /// the indices of the quads of its material, and every quad is in one.
    pub fn group_quads(&self, chunk: &Chunk, quads: &Vec<Quad>) -> (r: Vec<((u32, bool), Vec<usize>)>)
        requires
            self.wf(),
            chunk.wf(),
            forall|k: int|
                0 <= k < quads.len() ==> (#[trigger] quads@[k]).0 < 6 && chunk.in_bounds(quads@[k].1),
        ensures
            forall|a: int, b: int| 0 <= a < b < r.len() ==> r@[a].0 != r@[b].0,
            forall|g: int, k: int|
                0 <= g < r.len() && 0 <= k < r@[g].1.len() ==> #[trigger] r@[g].1@[k] < quads.len()
                    && self.spec_quad_material(*chunk, quads@[r@[g].1@[k] as int]) == r@[g].0,
            forall|g: int, k: int, l: int|
                0 <= g < r.len() && 0 <= k < l < r@[g].1.len() ==> #[trigger] r@[g].1@[k]
                    < #[trigger] r@[g].1@[l],
            forall|q: int| 0 <= q < quads.len() ==> #[trigger] grouped(r@, q),
    {
        let mut groups: Vec<((u32, bool), Vec<usize>)> = Vec::new();
        let mut q: usize = 0;
        while q < quads.len()
            invariant
                self.wf(),
                chunk.wf(),
                q <= quads.len(),
                forall|k: int|
                    0 <= k < quads.len() ==> (#[trigger] quads@[k]).0 < 6 && chunk.in_bounds(
                        quads@[k].1,
                    ),
                forall|a: int, b: int| 0 <= a < b < groups.len() ==> groups@[a].0 != groups@[b].0,
                forall|g: int, k: int|
                    0 <= g < groups.len() && 0 <= k < groups@[g].1.len() ==> #[trigger] groups@[g].1@[k]
                        < q && self.spec_quad_material(*chunk, quads@[groups@[g].1@[k] as int])
                        == groups@[g].0,
                forall|g: int, k: int, l: int|
                    0 <= g < groups.len() && 0 <= k < l < groups@[g].1.len()
                        ==> #[trigger] groups@[g].1@[k] < #[trigger] groups@[g].1@[l],
                forall|p: int| 0 <= p < q ==> #[trigger] grouped(groups@, p),
            decreases quads.len() - q,
        {
            let (face, min, _w, _h) = quads[q];
            let v = chunk.get_at(min);
            let key = (
                self.get_material_handle(v.id as usize, face),
                self.get_voxel_kind(v.id) == VoxelMeshKind::Water,
            );
            let g = find_group(&groups, key);
            let ghost old_groups = groups@;
            if g == groups.len() {
                let mut members: Vec<usize> = Vec::new();
                members.push(q);
                groups.push((key, members));
                proof {
                    assert forall|p: int| 0 <= p < q + 1 implies #[trigger] grouped(groups@, p) by {
                        if p < q {
                            assert(grouped(old_groups, p));
                            let (gg, k) = choose|gg: int, k: int|
                                0 <= gg < old_groups.len() && 0 <= k < old_groups[gg].1.len()
                                    && #[trigger] old_groups[gg].1@[k] == p;
                            assert(groups@[gg] == old_groups[gg]);
                        } else {
                            assert(groups@[old_groups.len() as int].1@[0] == p);
                        }
                    }
                }
            } else {
                let (gk, mut members) = groups.remove(g);
                let ghost old_members = members@;
                members.push(q);
                groups.insert(g, (gk, members));
                proof {
                    assert(groups@ == old_groups.update(g as int, (gk, members)));
                    assert forall|p: int| 0 <= p < q + 1 implies #[trigger] grouped(groups@, p) by {
                        if p < q {
                            assert(grouped(old_groups, p));
                            let (gg, k) = choose|gg: int, k: int|
                                0 <= gg < old_groups.len() && 0 <= k < old_groups[gg].1.len()
                                    && #[trigger] old_groups[gg].1@[k] == p;
                            if gg == g {
                                assert(groups@[gg].1@[k] == old_members[k]);
                            } else {
                                assert(groups@[gg] == old_groups[gg]);
                            }
                        } else {
                            assert(groups@[g as int].1@[old_members.len() as int] == p);
                        }
                    }
                }
            }
            q = q + 1;
        }
        groups
    }
}

} // verus!
