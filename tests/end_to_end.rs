use noise::{NoiseFn, Perlin};
use voxel_world::biomes::BiomeRegistry;
use voxel_world::chunk_map::ChunkMap;
use voxel_world::coords::{IVec3, UVec3, CHUNK_SIZE};
use voxel_world::feature::BranchDirections;
use voxel_world::generation::{generate_base_terrain, generate_biome_map, generate_features, COLUMN_CELLS};
use voxel_world::pipeline::GenerationStorage;

fn branch_table() -> BranchDirections {
    let mut offsets = Vec::new();
    for n in 4..=6u32 {
        for i in 0..6u32 {
            for s in 0..10u32 {
                for l in 1..=5u32 {
                    let angle = (i as f32 / n as f32) * 6.283 + (s as f32 * 0.1);
                    offsets.push(((angle.cos() * l as f32).round() as i32, (angle.sin() * l as f32).round() as i32));
                }
            }
        }
    }
    BranchDirections::new(offsets).unwrap()
}

fn column(seed: u32, cx: i32, cz: i32, reg: &BiomeRegistry) -> (Vec<i32>, Vec<u8>) {
    let height = Perlin::new(seed);
    let temp = Perlin::new(seed + 100);
    let hum = Perlin::new(seed + 200);
    let rare = Perlin::new(seed + 300);
    let mut alt = Vec::with_capacity(COLUMN_CELLS);
    let mut samples = Vec::with_capacity(COLUMN_CELLS);
    for z in 0..32 {
        for x in 0..32 {
            let wx = (cx * 32 + x) as f64;
            let wz = (cz * 32 + z) as f64;
            alt.push((height.get([wx * 0.01, wz * 0.01]) * 24.0) as i32);
            let m = |v: f64| (v * 1_000_000.0).floor() as i64;
            samples.push((
                m(temp.get([wx * 0.0004, wz * 0.0004])),
                m(hum.get([wx * 0.0004, wz * 0.0004])),
                m(rare.get([wx * 0.002, wz * 0.002])),
            ));
        }
    }
    let biomes = generate_biome_map(&alt, &samples, reg);
    (alt, biomes)
}

fn run(seed: u32) -> ChunkMap {
    let reg = BiomeRegistry::new(seed);
    let dirs = branch_table();
    let mut map = ChunkMap::new();
    let mut storage = GenerationStorage::new();
    let mut columns = Vec::new();
    for cx in -1..=1 {
        for cz in -1..=1 {
            columns.push(((cx, cz), column(seed, cx, cz, &reg)));
        }
    }
    for ((cx, cz), (alt, biomes)) in &columns {
        for cy in -1..=1 {
            let pos = IVec3::new(*cx, cy, *cz);
            map.insert(generate_base_terrain(pos, alt, biomes, &reg));
            storage.mark_base_terrain(pos);
        }
    }
    for ((cx, cz), (alt, biomes)) in &columns {
        for cy in -1..=1 {
            let pos = IVec3::new(*cx, cy, *cz);
            if storage.neighbors_ready(pos) {
                let writes = generate_features(pos, seed, alt, biomes, &reg, &dirs);
                map.set_bulk(writes);
            }
        }
    }
    map
}

#[test]
fn seeded_world_is_reproducible() {
    let a = run(12345);
    let b = run(12345);
    let origin = IVec3::new(0, 0, 0);
    assert_eq!(a.get_at(origin), b.get_at(origin));
    assert!(a.get_at(origin).is_some());
    for x in -1..=1 {
        for y in -1..=1 {
            for z in -1..=1 {
                let p = IVec3::new(x, y, z);
                assert_eq!(a.get_slice(&p).unwrap(), b.get_slice(&p).unwrap());
            }
        }
    }
}

#[test]
fn padded_faces_match_neighbours_in_generated_world() {
    let a = run(12345);
    let padded = a.get_padded_chunk_vec(&IVec3::new(0, 0, 0)).unwrap();
    let west = a.get(&IVec3::new(-1, 0, 0)).unwrap();
    let down = a.get(&IVec3::new(0, -1, 0)).unwrap();
    let north = a.get(&IVec3::new(0, 0, -1)).unwrap();
    for u in 0..CHUNK_SIZE {
        for v in 0..CHUNK_SIZE {
            assert_eq!(padded.get_at(UVec3::new(0, u + 1, v + 1)), west.get_local_at(UVec3::new(31, u, v)));
            assert_eq!(padded.get_at(UVec3::new(u + 1, 0, v + 1)), down.get_local_at(UVec3::new(u, 31, v)));
            assert_eq!(padded.get_at(UVec3::new(u + 1, v + 1, 0)), north.get_local_at(UVec3::new(u, v, 31)));
        }
    }
    // the corner cell touches no face neighbour and stays empty
    assert_eq!(padded.get_at(UVec3::new(0, 0, 0)).id, 0);
}
