use voxel_world::biomes::{
    BiomeRegistry, Biome, BAMBOO_JUNGLE, BEACH, BIRCH_FOREST, COLD_OCEAN, DESERT, FLOWER_FIELD,
    ICE_SPIKES, JUNGLE, MOUNTAINS, OAK_FOREST, OCEAN, PLAINS, RED_DESERT, SAVANNA, SNOWY_TAIGA,
    SNOW_FIELD, SUNFLOWER_PLAINS,
};
use voxel_world::coords::{IVec3, UVec3};
use voxel_world::feature::{hash, FeatureKind, FlowerFeature, BranchDirections};
use voxel_world::generation::{
    feature_placements, generate_base_terrain, generate_biome_map, generate_features, COLUMN_CELLS,
};
use voxel_world::voxel::{Voxel, DIRT, EMPTY, GRASS, GRAVEL, ICE, STONE, WATER};

fn branch_table() -> BranchDirections {
    let mut offsets = Vec::new();
    for n in 4..=6u32 {
        for i in 0..6u32 {
            for s in 0..10u32 {
                for l in 1..=5u32 {
                    let angle = (i as f32 / n as f32) * 6.283 + (s as f32 * 0.1);
                    offsets.push(((angle.cos() * l as f32).round() as i32, (angle.sin() * l as f32).round() as i32));
                }
            }
        }
    }
    BranchDirections::new(offsets).unwrap()
}

#[test]
fn base_terrain_layers() {
    let reg = BiomeRegistry::new(1);
    let alt = vec![10; COLUMN_CELLS];
    let biomes = vec![PLAINS; COLUMN_CELLS];
    let c = generate_base_terrain(IVec3::new(0, 0, 0), &alt, &biomes, &reg);
    let at = |y: u32| c.get_local_at(UVec3::new(3, y, 17)).id;
    assert_eq!(at(0), STONE);
    assert_eq!(at(6), STONE);
    assert_eq!(at(7), DIRT);
    assert_eq!(at(9), DIRT);
    assert_eq!(at(10), GRASS);
    assert_eq!(at(11), EMPTY);
    assert_eq!(at(31), EMPTY);
    let below = generate_base_terrain(IVec3::new(0, -1, 0), &alt, &biomes, &reg);
    assert!(below.chunk.voxels.iter().all(|v| v.id == STONE));
}

#[test]
fn base_terrain_water_and_ice() {
    let reg = BiomeRegistry::new(1);
    let alt = vec![-5; COLUMN_CELLS];
    let c = generate_base_terrain(IVec3::new(0, -1, 0), &alt, &vec![OCEAN; COLUMN_CELLS], &reg);
    let at = |y: i32| c.get_local_at(UVec3::new(0, (y + 32) as u32, 0)).id;
    assert_eq!(at(-9), STONE);
    assert_eq!(at(-8), STONE);
    assert_eq!(at(-5), GRAVEL);
    assert_eq!(at(-4), WATER);
    assert_eq!(at(-1), WATER);
    let cold = generate_base_terrain(IVec3::new(0, -1, 0), &alt, &vec![COLD_OCEAN; COLUMN_CELLS], &reg);
    assert_eq!(cold.get_local_at(UVec3::new(0, 31, 0)).id, ICE);
    assert_eq!(cold.get_local_at(UVec3::new(0, 30, 0)).id, WATER);
    let above = generate_base_terrain(IVec3::new(0, 0, 0), &alt, &vec![OCEAN; COLUMN_CELLS], &reg);
    assert!(above.chunk.voxels.iter().all(|v| v.id == EMPTY));
}

#[test]
fn unknown_biome_ids_fall_back_to_plains() {
    let reg = BiomeRegistry::new(7);
    let d = reg.get_biome_data_by_id(200);
    assert_eq!(d.id, PLAINS);
    assert_eq!(reg.get_biome_data(Biome::new(ICE_SPIKES)).name, "Ice Spikes");
    assert_eq!(reg.get_biome_data_by_id(RED_DESERT).features, vec![(FeatureKind::Cactus, 100)]);
}

#[test]
fn biome_decision_tree() {
    let reg = BiomeRegistry::new(0);
    let r = |t: i64, h: i64, q: i64, a: i32| reg.resolve_biome(t, h, q, a).id;
    assert_eq!(r(0, 0, 0, -2), BEACH);
    assert_eq!(r(-400_000, 0, 0, -2), COLD_OCEAN);
    assert_eq!(r(0, 0, 0, -10), OCEAN);
    assert_eq!(r(-400_000, -1, 400_000, 10), ICE_SPIKES);
    assert_eq!(r(-400_000, -1, 0, 10), SNOW_FIELD);
    assert_eq!(r(-400_000, 0, 0, 10), SNOWY_TAIGA);
    assert_eq!(r(0, -400_000, 0, 10), MOUNTAINS);
    assert_eq!(r(0, -200_000, 400_000, 10), SUNFLOWER_PLAINS);
    assert_eq!(r(0, -200_000, 0, 10), PLAINS);
    assert_eq!(r(0, -50_000, 0, 10), BIRCH_FOREST);
    assert_eq!(r(0, 100_000, 400_000, 10), FLOWER_FIELD);
    assert_eq!(r(0, 100_000, 0, 10), OAK_FOREST);
    assert_eq!(r(0, 400_000, 0, 10), OAK_FOREST);
    assert_eq!(r(300_000, -200_000, 400_000, 10), RED_DESERT);
    assert_eq!(r(300_000, -200_000, 0, 10), DESERT);
    assert_eq!(r(300_000, 0, 0, 10), SAVANNA);
    assert_eq!(r(300_000, 200_000, 400_000, 10), BAMBOO_JUNGLE);
    assert_eq!(r(300_000, 200_000, 0, 10), JUNGLE);
}

#[test]
fn climate_feedback() {
    assert_eq!(BiomeRegistry::climate(100_000, 5, 7, 30), (0, 5, 7));
    assert_eq!(BiomeRegistry::climate(0, 0, 0, 25), (-50_000, -10_000, 0));
    assert_eq!(BiomeRegistry::climate(-3, 0, 0, 20), (-3, -1, 0));
    assert_eq!(BiomeRegistry::climate(3, 0, 0, 20), (3, 0, 0));
    let reg = BiomeRegistry::new(0);
    // lapse turns a temperate column at altitude 80 into a cold one
    assert_eq!(reg.get_biome(200_000, 100_000, 0, 80).id, SNOWY_TAIGA);
}

#[test]
fn biome_map_from_samples() {
    let reg = BiomeRegistry::new(0);
    let mut alt = vec![10; COLUMN_CELLS];
    alt[1] = -2;
    let mut samples = vec![(0i64, 100_000i64, 0i64); COLUMN_CELLS];
    samples[2] = (400_000, -100_000, 0);
    let m = generate_biome_map(&alt, &samples, &reg);
    assert_eq!(m.len(), COLUMN_CELLS);
    assert_eq!(m[0], OAK_FOREST);
    assert_eq!(m[1], BEACH);
    assert_eq!(m[2], SAVANNA);
}

#[test]
fn flower_field_placements_follow_the_hash() {
    let reg = BiomeRegistry::new(0);
    let seed = 12345u32;
    let alt = vec![40; COLUMN_CELLS];
    let biomes = vec![FLOWER_FIELD; COLUMN_CELLS];
    let pos = IVec3::new(2, 1, -1);
    let ps = feature_placements(pos, seed, &alt, &biomes, &reg);
    let mut expected = Vec::new();
    for z in 0..32 {
        for x in 0..32 {
            let wx = 64 + x;
            let wz = -32 + z;
            if hash(wx, wz, seed) % 10000 < 3000 {
                expected.push((IVec3::new(wx, 41, wz), FeatureKind::Flower));
            }
        }
    }
    assert_eq!(ps, expected);
    assert!(!ps.is_empty());
    let writes = generate_features(pos, seed, &alt, &biomes, &reg, &branch_table());
    let expected_writes: Vec<_> = expected.iter().flat_map(|(o, _)| FlowerFeature.place(*o, seed)).collect();
    assert_eq!(writes, expected_writes);
    // surface outside this chunk layer: nothing
    assert!(feature_placements(IVec3::new(2, 0, -1), seed, &alt, &biomes, &reg).is_empty());
}

#[test]
fn each_feature_is_drawn_with_its_own_seed_offset() {
    let reg = BiomeRegistry::new(0);
    let seed = 99u32;
    let alt = vec![5; COLUMN_CELLS];
    let biomes = vec![OAK_FOREST; COLUMN_CELLS];
    let ps = feature_placements(IVec3::new(0, 0, 0), seed, &alt, &biomes, &reg);
    let mut expected = Vec::new();
    for z in 0..32 {
        for x in 0..32 {
            if hash(x, z, seed) % 10000 < 200 {
                expected.push((IVec3::new(x, 6, z), FeatureKind::OakTree));
            }
            if hash(x, z, seed + 1) % 10000 < 200 {
                expected.push((IVec3::new(x, 6, z), FeatureKind::Flower));
            }
        }
    }
    assert_eq!(ps, expected);
}

#[test]
fn generation_is_deterministic() {
    let reg = BiomeRegistry::new(3);
    let alt: Vec<i32> = (0..COLUMN_CELLS as i32).map(|i| (i * 7919) % 40 - 10).collect();
    let biomes: Vec<u8> = (0..COLUMN_CELLS).map(|i| (i % 17) as u8).collect();
    let a = generate_base_terrain(IVec3::new(1, 0, -2), &alt, &biomes, &reg);
    let b = generate_base_terrain(IVec3::new(1, 0, -2), &alt, &biomes, &reg);
    assert_eq!(a.chunk.voxels, b.chunk.voxels);
    let t = branch_table();
    let f1 = generate_features(IVec3::new(1, 0, -2), 42, &alt, &biomes, &reg, &t);
    let f2 = generate_features(IVec3::new(1, 0, -2), 42, &alt, &biomes, &reg, &t);
    assert_eq!(f1, f2);
    assert!(!f1.is_empty());
    // column 0 has its surface at -10, below this chunk
    assert_eq!(a.get_local_at(UVec3::new(0, 0, 0)), Voxel::new(EMPTY));
    // column 1 has its surface at 29
    assert_eq!(a.get_local_at(UVec3::new(1, 0, 0)).id, STONE);
    assert_eq!(a.get_local_at(UVec3::new(1, 29, 0)).id, biome_surface_of(1));
}

fn biome_surface_of(id: u8) -> u16 {
    BiomeRegistry::new(0).get_biome_data_by_id(id).surface_block.id
}
