//! Voxel identifiers and their static registry: visibility class and
//! material shape for each id.

use vstd::prelude::*;

verus! {

/// How a voxel takes part in meshing.
#[derive(Debug, Clone, Copy, PartialEq, Eq, Structural)]
pub enum VoxelVisibility {
    Empty,
    Opaque,
    Translucent,
}

/// The shape of the material that a voxel id is drawn with.
#[derive(Debug, Clone, Copy, PartialEq, Eq, Structural)]
pub enum MaterialShape {
    NoMaterial,
    Uniform,
    Column,
    Cross,
    Water,
}

/// How the mesher treats a voxel: merged cube faces, a diagonal billboard,
/// or cube faces flagged as water.
#[derive(Debug, Clone, Copy, PartialEq, Eq, Structural)]
pub enum VoxelMeshKind {
    Cube,
    Cross,
    Water,
}

/// A voxel, identified by a 16-bit id; id 0 is the empty voxel.
#[derive(Debug, Clone, Copy, PartialEq, Eq, Hash, Structural)]
pub struct Voxel {
    pub id: u16,
}

/// Ids of the registered voxels.
pub const EMPTY: u16 = 0;
pub const DEBUG: u16 = 1;
pub const DIRT: u16 = 2;
pub const COARSE_DIRT: u16 = 3;
pub const GRASS: u16 = 4;
pub const STONE: u16 = 5;
pub const COBBLESTONE: u16 = 6;
pub const GRAVEL: u16 = 7;
pub const SAND: u16 = 8;
pub const RED_SAND: u16 = 9;
pub const MUD: u16 = 10;
pub const CLAY: u16 = 11;
pub const SNOW: u16 = 12;
pub const ICE: u16 = 13;
pub const PACKED_ICE: u16 = 14;
pub const WATER: u16 = 15;
pub const OAK_LOG: u16 = 16;
pub const OAK_LEAVES: u16 = 17;
pub const PINE_LOG: u16 = 18;
pub const PINE_LEAVES: u16 = 19;
pub const BIRCH_LOG: u16 = 20;
pub const BIRCH_LEAVES: u16 = 21;
pub const ACACIA_LOG: u16 = 22;
pub const ACACIA_LEAVES: u16 = 23;
pub const JUNGLE_LOG: u16 = 24;
pub const JUNGLE_LEAVES: u16 = 25;
pub const CHERRY_LOG: u16 = 26;
pub const CHERRY_LEAVES: u16 = 27;
pub const CACTUS: u16 = 28;
pub const BAMBOO: u16 = 29;
pub const FLOWER_RED: u16 = 30;
pub const FLOWER_YELLOW: u16 = 31;
pub const TALL_GRASS: u16 = 32;

/// Number of ids that the registry defines (ids `0..VOXEL_ID_COUNT`).
pub const VOXEL_ID_COUNT: u16 = 33;

pub open spec fn spec_visibility(id: u16) -> VoxelVisibility {
    if id == 0 || id == 30 || id == 31 || id == 32 {
        VoxelVisibility::Empty
    } else if id == 13 || id == 15 || id == 17 || id == 19 || id == 21 || id == 23 || id == 25
        || id == 27 {
        VoxelVisibility::Translucent
    } else {
        VoxelVisibility::Opaque
    }
}

pub open spec fn spec_material_shape(id: u16) -> MaterialShape {
    if id == 0 {
        MaterialShape::NoMaterial
    } else if id == 4 {
        MaterialShape::Column
    } else if id == 15 {
        MaterialShape::Water
    } else if id == 30 || id == 31 || id == 32 {
        MaterialShape::Cross
    } else if id < VOXEL_ID_COUNT {
        MaterialShape::Uniform
    } else {
        MaterialShape::NoMaterial
    }
}

/// Empty, water and snow may be overwritten by procedural features.
pub open spec fn spec_is_soft(id: u16) -> bool {
    id == 0 || id == 15 || id == 12
}

impl Voxel {

    pub fn new(id: u16) -> (r: Voxel)
        ensures
            r.id == id,
    {
        Voxel { id }
    }

    /// Visibility class of this voxel; ids outside the registry are opaque.
    pub fn visibility(&self) -> (r: VoxelVisibility)
        ensures
            r == spec_visibility(self.id),
    {
        let id = self.id;
        if id == 0 || id == 30 || id == 31 || id == 32 {
            VoxelVisibility::Empty
        } else if id == 13 || id == 15 || id == 17 || id == 19 || id == 21 || id == 23 || id == 25
            || id == 27 {
            VoxelVisibility::Translucent
        } else {
            VoxelVisibility::Opaque
        }
    }

    /// The material shape registered for this voxel's id.
    pub fn material_shape(&self) -> (r: MaterialShape)
        ensures
            r == spec_material_shape(self.id),
    {
        let id = self.id;
        if id == 0 {
            MaterialShape::NoMaterial
        } else if id == 4 {
            MaterialShape::Column
        } else if id == 15 {
            MaterialShape::Water
        } else if id == 30 || id == 31 || id == 32 {
            MaterialShape::Cross
        } else if id < VOXEL_ID_COUNT {
            MaterialShape::Uniform
        } else {
            MaterialShape::NoMaterial
        }
    }

    /// True for the kinds that a bulk write may replace: empty, water, snow.
    pub fn is_soft(&self) -> (r: bool)
        ensures
            r == spec_is_soft(self.id),
    {
        self.id == 0 || self.id == 15 || self.id == 12
    }
}

/// Mesh kind that a material shape implies.
pub open spec fn spec_mesh_kind(shape: MaterialShape) -> VoxelMeshKind {
    match shape {
        MaterialShape::Cross => VoxelMeshKind::Cross,
        MaterialShape::Water => VoxelMeshKind::Water,
        _ => VoxelMeshKind::Cube,
    }
}

pub fn mesh_kind_of(shape: MaterialShape) -> (r: VoxelMeshKind)
    ensures
        r == spec_mesh_kind(shape),
{
    match shape {
        MaterialShape::Cross => VoxelMeshKind::Cross,
        MaterialShape::Water => VoxelMeshKind::Water,
        _ => VoxelMeshKind::Cube,
    }
}

/// The registry as a list: for each id in `0..VOXEL_ID_COUNT`, its
/// visibility and material shape, in id order.
pub fn get_voxel_definitions() -> (r: Vec<(u16, VoxelVisibility, MaterialShape)>)
    ensures
        r.len() == VOXEL_ID_COUNT,
        forall|i: int|
            0 <= i < r.len() ==> #[trigger] r[i] == (i as u16, spec_visibility(i as u16),
                spec_material_shape(i as u16)),
{
    let mut r: Vec<(u16, VoxelVisibility, MaterialShape)> = Vec::new();
    let mut id: u16 = 0;
    while id < VOXEL_ID_COUNT
        invariant
            id <= VOXEL_ID_COUNT,
            r.len() == id,
            forall|i: int|
                0 <= i < r.len() ==> #[trigger] r[i] == (i as u16, spec_visibility(i as u16),
                    spec_material_shape(i as u16)),
        decreases VOXEL_ID_COUNT - id,
    {
        let v = Voxel { id };
        r.push((id, v.visibility(), v.material_shape()));
        id = id + 1;
    }
    r
}

} // verus!
