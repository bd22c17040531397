use block_mesh::ndshape::{ConstShape, ConstShape3u32};
use block_mesh::{greedy_quads, GreedyQuadsBuffer, MergeVoxel, VoxelVisibility as BmVisibility, RIGHT_HANDED_Y_UP_CONFIG};
use voxel_world::chunk::{Chunk, TerrainChunkData};
use voxel_world::chunk_map::ChunkMap;
use voxel_world::coords::{IVec3, UVec3};
use voxel_world::meshing::{column_faces, uniform_faces, MaterialRepository, Quad};
use voxel_world::voxel::{
    get_voxel_definitions, mesh_kind_of, MaterialShape, Voxel, VoxelMeshKind, VoxelVisibility, EMPTY,
    FLOWER_RED, GRASS, STONE, WATER,
};

type Padded = ConstShape3u32<34, 34, 34>;

#[derive(Clone, Copy, PartialEq, Eq)]
struct Cell {
    id: u16,
    visibility: BmVisibility,
}

impl block_mesh::Voxel for Cell {
    fn get_visibility(&self) -> BmVisibility {
        self.visibility
    }
}

impl MergeVoxel for Cell {
    type MergeValue = u16;
    fn merge_value(&self) -> u16 {
        self.id
    }
}

fn repository() -> MaterialRepository {
    let mut repo = MaterialRepository::new(999);
    for (id, visibility, shape) in get_voxel_definitions() {
        let handles = match shape {
            MaterialShape::Column => column_faces(100 + id as u32, 200 + id as u32, 300 + id as u32),
            _ => uniform_faces(id as u32),
        };
        repo.set_material(id, handles, visibility, mesh_kind_of(shape));
    }
    repo
}

fn quads(repo: &MaterialRepository, padded: &Chunk) -> Vec<Quad> {
    let cells: Vec<Cell> = repo
        .meshing_voxels(padded)
        .into_iter()
        .map(|(id, v)| Cell {
            id,
            visibility: match v {
                VoxelVisibility::Empty => BmVisibility::Empty,
                VoxelVisibility::Opaque => BmVisibility::Opaque,
                VoxelVisibility::Translucent => BmVisibility::Translucent,
            },
        })
        .collect();
    let mut buffer = GreedyQuadsBuffer::new(cells.len());
    greedy_quads(&cells, &Padded {}, [0; 3], [33; 3], &RIGHT_HANDED_Y_UP_CONFIG.faces, &mut buffer);
    let mut out = Vec::new();
    for (face, group) in buffer.quads.groups.iter().enumerate() {
        for q in group {
            out.push((face, UVec3::new(q.minimum[0], q.minimum[1], q.minimum[2]), q.width, q.height));
        }
    }
    out
}

fn filled(pos: IVec3, id: u16) -> TerrainChunkData {
    TerrainChunkData::new_from_fn(pos, move |_| Voxel::new(id))
}

#[test]
fn enclosed_solid_chunk_has_no_quads() {
    let mut map = ChunkMap::new();
    map.insert(filled(IVec3::new(0, 0, 0), STONE));
    for (dx, dy, dz) in [(1, 0, 0), (-1, 0, 0), (0, 1, 0), (0, -1, 0), (0, 0, 1), (0, 0, -1)] {
        map.insert(filled(IVec3::new(dx, dy, dz), STONE));
    }
    let padded = map.get_padded_chunk_vec(&IVec3::new(0, 0, 0)).unwrap();
    assert_eq!(Padded::USIZE, padded.voxels.len());
    assert!(quads(&repository(), &padded).is_empty());
}

#[test]
fn lone_voxel_has_six_unit_quads() {
    let mut map = ChunkMap::new();
    map.insert(TerrainChunkData::new_from_fn(IVec3::new(0, 0, 0), |w| {
        if w == IVec3::new(5, 5, 5) { Voxel::new(STONE) } else { Voxel::new(EMPTY) }
    }));
    let padded = map.get_padded_chunk_vec(&IVec3::new(0, 0, 0)).unwrap();
    let repo = repository();
    let qs = quads(&repo, &padded);
    assert_eq!(qs.len(), 6);
    assert!(qs.iter().all(|q| q.1 == UVec3::new(6, 6, 6) && q.2 == 1 && q.3 == 1));
    let groups = repo.group_quads(&padded, &qs);
    assert_eq!(groups, vec![((STONE as u32, false), vec![0, 1, 2, 3, 4, 5])]);
}

#[test]
fn column_material_splits_faces() {
    let mut map = ChunkMap::new();
    map.insert(TerrainChunkData::new_from_fn(IVec3::new(0, 0, 0), |w| {
        if w == IVec3::new(1, 1, 1) { Voxel::new(GRASS) } else { Voxel::new(EMPTY) }
    }));
    let padded = map.get_padded_chunk_vec(&IVec3::new(0, 0, 0)).unwrap();
    let repo = repository();
    let qs = quads(&repo, &padded);
    let groups = repo.group_quads(&padded, &qs);
    let side = 200 + GRASS as u32;
    let bottom = 300 + GRASS as u32;
    let top = 100 + GRASS as u32;
    assert_eq!(
        groups,
        vec![((side, false), vec![0, 2, 3, 5]), ((bottom, false), vec![1]), ((top, false), vec![4])]
    );
}

#[test]
fn water_groups_are_flagged() {
    let mut map = ChunkMap::new();
    map.insert(TerrainChunkData::new_from_fn(IVec3::new(0, 0, 0), |w| {
        if w.y == 0 { Voxel::new(WATER) } else { Voxel::new(EMPTY) }
    }));
    let padded = map.get_padded_chunk_vec(&IVec3::new(0, 0, 0)).unwrap();
    let repo = repository();
    let qs = quads(&repo, &padded);
    let groups = repo.group_quads(&padded, &qs);
    assert_eq!(groups.len(), 1);
    assert_eq!(groups[0].0, (WATER as u32, true));
    assert_eq!(groups[0].1.len(), qs.len());
}

#[test]
fn flowers_become_cross_quads_not_cubes() {
    let mut map = ChunkMap::new();
    map.insert(TerrainChunkData::new_from_fn(IVec3::new(0, 0, 0), |w| {
        if w == IVec3::new(3, 3, 3) { Voxel::new(FLOWER_RED) } else { Voxel::new(EMPTY) }
    }));
    map.insert(TerrainChunkData::new_from_fn(IVec3::new(1, 0, 0), |_| Voxel::new(FLOWER_RED)));
    let padded = map.get_padded_chunk_vec(&IVec3::new(0, 0, 0)).unwrap();
    let repo = repository();
    assert!(quads(&repo, &padded).is_empty());
    // the copy of the neighbour's layer in the outer ring gets no cross
    assert_eq!(repo.cross_voxels(&padded), vec![(FLOWER_RED as u32, UVec3::new(4, 4, 4))]);
    let mv = repo.meshing_voxels(&padded);
    let i = 4 + 34 * (4 + 34 * 4);
    assert_eq!(mv[i], (FLOWER_RED, VoxelVisibility::Empty));
}

#[test]
fn repository_lookups_and_fallbacks() {
    let mut repo = MaterialRepository::new(7);
    repo.set_material(3, uniform_faces(11), VoxelVisibility::Translucent, VoxelMeshKind::Water);
    assert_eq!(repo.materials.len(), 4);
    assert_eq!(repo.get_material_handle(3, 5), 11);
    assert_eq!(repo.get_material_handle(1, 0), 7);
    assert_eq!(repo.get_material_handle(40, 2), 7);
    assert_eq!(repo.get_visibility(1), VoxelVisibility::Empty);
    assert_eq!(repo.get_visibility(3), VoxelVisibility::Translucent);
    assert_eq!(repo.get_visibility(400), VoxelVisibility::Opaque);
    assert_eq!(repo.get_voxel_kind(3), VoxelMeshKind::Water);
    assert_eq!(repo.get_voxel_kind(400), VoxelMeshKind::Cube);
    assert_eq!(column_faces(1, 2, 3), [2, 3, 2, 2, 1, 2]);
}
