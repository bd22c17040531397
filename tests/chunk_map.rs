use voxel_world::chunk::TerrainChunkData;
use voxel_world::chunk_map::ChunkMap;
use voxel_world::coords::{
    chunk_of, local_of, world_of, IVec3, UVec3, MAX_CHUNK_COORD, MIN_CHUNK_COORD, PADDED_CHUNK_SIZE,
};
use voxel_world::voxel::{Voxel, DIRT, EMPTY, GRASS, OAK_LEAVES, SNOW, STONE, WATER};

fn filled(pos: IVec3, id: u16) -> TerrainChunkData {
    TerrainChunkData::new_from_fn(pos, move |_| Voxel::new(id))
}

fn padded_at(c: &voxel_world::chunk::Chunk, x: u32, y: u32, z: u32) -> Voxel {
    c.get_at(UVec3::new(x, y, z))
}

#[test]
fn euclidean_split_of_negative_coordinates() {
    assert_eq!(chunk_of(IVec3::new(-1, 0, 31)), IVec3::new(-1, 0, 0));
    assert_eq!(local_of(IVec3::new(-1, 0, 31)), UVec3::new(31, 0, 31));
    assert_eq!(chunk_of(IVec3::new(-32, -33, 32)), IVec3::new(-1, -2, 1));
    assert_eq!(local_of(IVec3::new(-32, -33, 32)), UVec3::new(0, 31, 0));
}

#[test]
fn get_at_reads_across_chunks_and_misses_absent_ones() {
    let mut map = ChunkMap::new();
    let chunk = TerrainChunkData::new_from_fn(IVec3::new(-1, 0, 0), |w| {
        if w.x == -1 && w.y == 5 { Voxel::new(STONE) } else { Voxel::new(EMPTY) }
    });
    map.insert(chunk);
    assert_eq!(map.get_at(IVec3::new(-1, 5, 7)), Some(Voxel::new(STONE)));
    assert_eq!(map.get_at(IVec3::new(-2, 5, 7)), Some(Voxel::new(EMPTY)));
    assert_eq!(map.get_at(IVec3::new(0, 5, 7)), None);
    assert!(map.get(&IVec3::new(-1, 0, 0)).is_some());
    assert!(map.get(&IVec3::new(0, 0, 0)).is_none());
    assert_eq!(map.get_slice(&IVec3::new(-1, 0, 0)).map(|s| s.len()), Some(32 * 32 * 32));
}

#[test]
fn insert_replaces_and_remove_unloads() {
    let mut map = ChunkMap::new();
    map.insert(filled(IVec3::new(2, 3, 4), DIRT));
    map.insert(filled(IVec3::new(2, 3, 4), GRASS));
    assert_eq!(map.get_at(IVec3::new(64, 96, 128)), Some(Voxel::new(GRASS)));
    let removed = map.remove(&IVec3::new(2, 3, 4));
    assert!(removed.is_some());
    assert_eq!(map.get_at(IVec3::new(64, 96, 128)), None);
    assert!(map.remove(&IVec3::new(2, 3, 4)).is_none());
}

#[test]
fn set_at_writes_only_loaded_chunks() {
    let mut map = ChunkMap::new();
    map.insert(filled(IVec3::new(0, 0, 0), EMPTY));
    assert!(map.set_at(IVec3::new(3, 4, 5), Voxel::new(STONE)));
    assert_eq!(map.get_at(IVec3::new(3, 4, 5)), Some(Voxel::new(STONE)));
    assert_eq!(map.get_at(IVec3::new(4, 4, 5)), Some(Voxel::new(EMPTY)));
    assert!(!map.set_at(IVec3::new(-3, 4, 5), Voxel::new(STONE)));
}

#[test]
fn padded_east_face_copies_neighbour_west_layer() {
    let mut map = ChunkMap::new();
    map.insert(filled(IVec3::new(0, 0, 0), DIRT));
    let b = TerrainChunkData::new_from_fn(IVec3::new(1, 0, 0), |w| {
        if w.x == 32 { Voxel::new(((w.y + w.z) % 5) as u16 + 1) } else { Voxel::new(STONE) }
    });
    map.insert(b);
    let padded = map.get_padded_chunk_vec(&IVec3::new(0, 0, 0)).unwrap();
    assert_eq!(padded.size, PADDED_CHUNK_SIZE);
    assert_eq!(padded.voxels.len(), 34 * 34 * 34);
    let b = map.get(&IVec3::new(1, 0, 0)).unwrap();
    for y in 0..32u32 {
        for z in 0..32u32 {
            assert_eq!(padded_at(&padded, 33, y + 1, z + 1), b.get_local_at(UVec3::new(0, y, z)));
            assert_eq!(padded_at(&padded, 0, y + 1, z + 1), Voxel::new(EMPTY));
        }
    }
    assert_eq!(padded_at(&padded, 1, 1, 1), Voxel::new(DIRT));
    assert_eq!(padded_at(&padded, 32, 32, 32), Voxel::new(DIRT));
}

#[test]
fn padded_face_is_empty_without_neighbour_and_edges_are_empty() {
    let mut map = ChunkMap::new();
    map.insert(filled(IVec3::new(0, 0, 0), DIRT));
    map.insert(filled(IVec3::new(1, 1, 0), STONE));
    map.insert(filled(IVec3::new(0, 1, 0), GRASS));
    let padded = map.get_padded_chunk_vec(&IVec3::new(0, 0, 0)).unwrap();
    for y in 0..34u32 {
        for z in 0..34u32 {
            assert_eq!(padded_at(&padded, 33, y, z), Voxel::new(EMPTY));
        }
    }
    assert_eq!(padded_at(&padded, 5, 33, 5), Voxel::new(GRASS));
    assert_eq!(padded_at(&padded, 33, 33, 5), Voxel::new(EMPTY));
    assert_eq!(padded_at(&padded, 0, 0, 0), Voxel::new(EMPTY));
    assert!(map.get_padded_chunk_vec(&IVec3::new(5, 5, 5)).is_none());
}

#[test]
fn set_bulk_only_overwrites_soft_voxels() {
    let mut map = ChunkMap::new();
    let chunk = TerrainChunkData::new_from_fn(IVec3::new(0, 0, 0), |w| match w.x {
        0 => Voxel::new(STONE),
        1 => Voxel::new(WATER),
        2 => Voxel::new(SNOW),
        _ => Voxel::new(EMPTY),
    });
    map.insert(chunk);
    let changes = vec![
        (IVec3::new(0, 0, 0), Voxel::new(OAK_LEAVES)),
        (IVec3::new(1, 0, 0), Voxel::new(OAK_LEAVES)),
        (IVec3::new(2, 0, 0), Voxel::new(OAK_LEAVES)),
        (IVec3::new(3, 0, 0), Voxel::new(OAK_LEAVES)),
        (IVec3::new(-1, 0, 0), Voxel::new(OAK_LEAVES)),
    ];
    let modified = map.set_bulk(changes);
    assert_eq!(modified, vec![IVec3::new(0, 0, 0)]);
    assert_eq!(map.get_at(IVec3::new(0, 0, 0)), Some(Voxel::new(STONE)));
    assert_eq!(map.get_at(IVec3::new(1, 0, 0)), Some(Voxel::new(OAK_LEAVES)));
    assert_eq!(map.get_at(IVec3::new(2, 0, 0)), Some(Voxel::new(OAK_LEAVES)));
    assert_eq!(map.get_at(IVec3::new(3, 0, 0)), Some(Voxel::new(OAK_LEAVES)));
    assert_eq!(map.get_at(IVec3::new(-1, 0, 0)), None);
}

#[test]
fn set_bulk_first_hard_write_wins() {
    let mut map = ChunkMap::new();
    map.insert(filled(IVec3::new(0, 0, 0), EMPTY));
    let p = IVec3::new(4, 4, 4);
    map.set_bulk(vec![(p, Voxel::new(OAK_LEAVES)), (p, Voxel::new(STONE))]);
    assert_eq!(map.get_at(p), Some(Voxel::new(OAK_LEAVES)));
}

#[test]
fn set_bulk_reports_each_modified_chunk_once() {
    let mut map = ChunkMap::new();
    map.insert(filled(IVec3::new(0, 0, 0), EMPTY));
    map.insert(filled(IVec3::new(-1, 0, 0), EMPTY));
    map.insert(filled(IVec3::new(0, 0, 1), STONE));
    let modified = map.set_bulk(vec![
        (IVec3::new(1, 1, 1), Voxel::new(DIRT)),
        (IVec3::new(-1, 1, 1), Voxel::new(DIRT)),
        (IVec3::new(2, 1, 1), Voxel::new(DIRT)),
        (IVec3::new(2, 1, 40), Voxel::new(DIRT)),
    ]);
    assert_eq!(modified, vec![IVec3::new(0, 0, 0), IVec3::new(-1, 0, 0)]);
}

#[test]
fn set_bulk_twice_equals_once() {
    let build = || {
        let mut map = ChunkMap::new();
        map.insert(TerrainChunkData::new_from_fn(IVec3::new(0, 0, 0), |w| {
            if w.y < 10 { Voxel::new(STONE) } else if w.y < 12 { Voxel::new(WATER) } else { Voxel::new(EMPTY) }
        }));
        map
    };
    let changes = vec![
        (IVec3::new(3, 9, 3), Voxel::new(DIRT)),
        (IVec3::new(3, 10, 3), Voxel::new(SNOW)),
        (IVec3::new(3, 10, 3), Voxel::new(GRASS)),
        (IVec3::new(3, 11, 3), Voxel::new(OAK_LEAVES)),
        (IVec3::new(3, 13, 3), Voxel::new(WATER)),
        (IVec3::new(3, 13, 3), Voxel::new(EMPTY)),
    ];
    let mut once = build();
    once.set_bulk(changes.clone());
    let mut twice = build();
    twice.set_bulk(changes.clone());
    let second = twice.set_bulk(changes);
    let a = once.get_slice(&IVec3::new(0, 0, 0)).unwrap().to_vec();
    let b = twice.get_slice(&IVec3::new(0, 0, 0)).unwrap().to_vec();
    assert_eq!(a, b);
    assert_eq!(once.get_at(IVec3::new(3, 10, 3)), Some(Voxel::new(GRASS)));
    assert_eq!(once.get_at(IVec3::new(3, 13, 3)), Some(Voxel::new(EMPTY)));
    // the soft cells written again in the second pass still count as modified
    assert_eq!(second, vec![IVec3::new(0, 0, 0)]);
}

#[test]
fn chunk_get_range_orders_z_then_y_then_x() {
    let c = TerrainChunkData::new_from_fn(IVec3::new(0, 0, 0), |w| Voxel::new((w.x + 2 * w.y + 4 * w.z) as u16));
    let r = c.chunk.get_range(1, 3, 0, 2, 5, 6);
    let ids: Vec<u16> = r.iter().map(|v| v.id).collect();
    assert_eq!(ids, vec![21, 22, 23, 24]);
    assert!(c.chunk.get_range(3, 1, 0, 2, 0, 1).is_empty());
    assert_eq!(c.chunk_origin(), IVec3::new(0, 0, 0));
}

#[test]
fn terrain_chunk_origin_scales_by_chunk_size() {
    let t = voxel_world::chunk::TerrainChunk { position: IVec3::new(-2, 1, 3) };
    assert_eq!(t.chunk_origin(), IVec3::new(-64, 32, 96));
    let d = TerrainChunkData::new_empty(IVec3::new(-2, 1, 3));
    assert_eq!(d.chunk_origin(), IVec3::new(-64, 32, 96));
    assert_eq!(d.get_at(IVec3::new(-64, 63, 127)), Voxel::new(EMPTY));
}

#[test]
fn extreme_world_coordinates_split_into_valid_chunks() {
    let w = IVec3::new(i32::MIN, i32::MAX, 0);
    assert_eq!(chunk_of(w), IVec3::new(MIN_CHUNK_COORD, MAX_CHUNK_COORD, 0));
    assert_eq!(local_of(w), UVec3::new(0, 31, 0));
    assert_eq!(world_of(chunk_of(w), local_of(w)), w);
    let mut map = ChunkMap::new();
    map.insert(filled(IVec3::new(MAX_CHUNK_COORD, MIN_CHUNK_COORD, MAX_CHUNK_COORD), DIRT));
    assert_eq!(map.get_at(IVec3::new(i32::MAX, i32::MIN, i32::MAX)), Some(Voxel::new(DIRT)));
    let padded = map
        .get_padded_chunk_vec(&IVec3::new(MAX_CHUNK_COORD, MIN_CHUNK_COORD, MAX_CHUNK_COORD))
        .unwrap();
    assert_eq!(padded_at(&padded, 33, 5, 5), Voxel::new(EMPTY));
    assert_eq!(padded_at(&padded, 5, 5, 5), Voxel::new(DIRT));
}

#[test]
fn empty_bulk_write_changes_nothing() {
    let mut map = ChunkMap::new();
    map.insert(filled(IVec3::new(0, 0, 0), WATER));
    assert!(map.set_bulk(Vec::new()).is_empty());
    assert_eq!(map.get_at(IVec3::new(1, 1, 1)), Some(Voxel::new(WATER)));
}
