use voxel_world::coords::IVec3;
use voxel_world::feature::{
    hash, AcaciaTreeFeature, BambooFeature, BigOakTreeFeature, BirchTreeFeature, BranchDirections,
    CactusFeature, FeatureKind, FlowerFeature, IceSpikeFeature, JungleBushFeature,
    JungleTreeFeature, MegaJungleTreeFeature, OakTreeFeature, PineTreeFeature, BRANCH_TABLE_LEN,
};
use voxel_world::voxel::{
    Voxel, ACACIA_LEAVES, ACACIA_LOG, BAMBOO, BIRCH_LOG, CACTUS, FLOWER_RED, FLOWER_YELLOW,
    JUNGLE_LEAVES, JUNGLE_LOG, OAK_LEAVES, OAK_LOG, PACKED_ICE, PINE_LEAVES, PINE_LOG,
};

#[test]
fn hash_is_deterministic_and_seed_sensitive() {
    assert_eq!(hash(10, -20, 12345), hash(10, -20, 12345));
    assert_ne!(hash(10, -20, 12345), hash(10, -20, 12346));
    assert_ne!(hash(10, -20, 12345), hash(-20, 10, 12345));
}

#[test]
fn hash_exact_value() {
    // h = 0; h += 0; h += 0; h = (0 ^ 0) * c = 0; 0 ^ 0 = 0
    assert_eq!(hash(0, 0, 0), 0);
    // seed 1: h = 1, then (1 ^ 0) * 1274126177 = 1274126177; ^ (>> 16)
    let h: u32 = 1274126177;
    assert_eq!(hash(0, 0, 1), h ^ (h >> 16));
}

#[test]
fn cactus_is_a_column() {
    let origin = IVec3::new(5, 64, -3);
    let w = CactusFeature.place(origin, 7);
    let height = 2 + hash(5, -3, 7) % 3;
    assert_eq!(w.len() as u32, height);
    for (i, (p, v)) in w.iter().enumerate() {
        assert_eq!(*p, IVec3::new(5, 64 + i as i32, -3));
        assert_eq!(*v, Voxel::new(CACTUS));
    }
}

#[test]
fn flower_colour_follows_hash_parity() {
    let origin = IVec3::new(1, 2, 3);
    let w = FlowerFeature.place(origin, 99);
    assert_eq!(w.len(), 1);
    let expected = if hash(1, 3, 99) % 2 == 0 { FLOWER_RED } else { FLOWER_YELLOW };
    assert_eq!(w[0], (origin, Voxel::new(expected)));
}

#[test]
fn oak_tree_trunk_then_leaves() {
    let origin = IVec3::new(0, 10, 0);
    let w = OakTreeFeature.place(origin, 1);
    let height = 4 + hash(0, 0, 1) % 4;
    for i in 0..height as usize {
        assert_eq!(w[i], (IVec3::new(0, 10 + i as i32, 0), Voxel::new(OAK_LOG)));
    }
    // two layers of 5x5 minus corners, two of 3x3 minus corners
    assert_eq!(w.len(), height as usize + 2 * 21 + 2 * 5);
    assert!(w[height as usize..].iter().all(|(_, v)| v.id == OAK_LEAVES));
}

fn branch_table() -> BranchDirections {
    let mut offsets = Vec::new();
    for n in 4..=6u32 {
        for i in 0..6u32 {
            for s in 0..10u32 {
                for l in 1..=5u32 {
                    let angle = (i as f32 / n as f32) * 6.283 + (s as f32 * 0.1);
                    offsets.push(((angle.cos() * l as f32).round() as i32, (angle.sin() * l as f32).round() as i32));
                }
            }
        }
    }
    BranchDirections::new(offsets).unwrap()
}

#[test]
fn branch_table_is_validated() {
    assert!(BranchDirections::new(vec![(0, 0); BRANCH_TABLE_LEN]).is_some());
    assert!(BranchDirections::new(vec![(0, 0); BRANCH_TABLE_LEN - 1]).is_none());
    let mut bad = vec![(0, 0); BRANCH_TABLE_LEN];
    bad[17] = (6, 0);
    assert!(BranchDirections::new(bad).is_none());
    assert_eq!(branch_table().offsets.len(), BRANCH_TABLE_LEN);
}

#[test]
fn bamboo_is_capped_with_a_leaf() {
    let o = IVec3::new(-7, 3, 12);
    let w = BambooFeature.place(o, 5);
    let height = 8 + hash(-7, 12, 5) % 8;
    assert_eq!(w.len() as u32, height + 1);
    assert!(w[..height as usize].iter().all(|(_, v)| v.id == BAMBOO));
    assert_eq!(*w.last().unwrap(), (IVec3::new(-7, 3 + height as i32, 12), Voxel::new(JUNGLE_LEAVES)));
}

#[test]
fn pine_tree_cone() {
    let o = IVec3::new(0, 0, 0);
    let w = PineTreeFeature.place(o, 3);
    let height = 6 + hash(0, 0, 3) % 5;
    let mut leaves = 0;
    for y in 3..=height {
        let r: i32 = if y == height { 0 } else if y > height - 3 { 1 } else { 2 };
        for x in -r..=r {
            for z in -r..=r {
                if x == 0 && z == 0 && y < height {
                    continue;
                }
                if x.abs() + z.abs() > r + 1 {
                    continue;
                }
                leaves += 1;
            }
        }
    }
    assert_eq!(w.len() as u32, height + leaves + 1);
    assert!(w[..height as usize].iter().all(|(_, v)| v.id == PINE_LOG));
    assert_eq!(*w.last().unwrap(), (IVec3::new(0, height as i32 + 1, 0), Voxel::new(PINE_LEAVES)));
}

#[test]
fn birch_and_jungle_trees() {
    let o = IVec3::new(4, 20, 4);
    let b = BirchTreeFeature.place(o, 8);
    let hb = 5 + hash(4, 4, 8) % 3;
    assert_eq!(b.len() as u32, hb + 2 * 21 + 2 * 5);
    assert_eq!(b[0], (o, Voxel::new(BIRCH_LOG)));
    let j = JungleTreeFeature.place(o, 8);
    let hj = 4 + hash(4, 4, 8) % 8;
    assert_eq!(j.len() as u32, hj + 3 * 21 + 2 * 5);
    assert!(j[..hj as usize].iter().all(|(_, v)| v.id == JUNGLE_LOG));
}

#[test]
fn ice_spike_narrows() {
    let o = IVec3::new(100, 64, -100);
    let w = IceSpikeFeature.place(o, 77);
    let height = 10 + hash(100, -100, 77) % 10;
    let wide = height / 2;
    let mid = height - 2 - wide;
    assert_eq!(w.len() as u32, 21 * wide + 9 * mid + 2);
    assert!(w.iter().all(|(_, v)| v.id == PACKED_ICE));
    assert_eq!(w.last().unwrap().0, IVec3::new(100, 64 + height as i32 - 1, -100));
}

#[test]
fn jungle_bush_shape() {
    let o = IVec3::new(1, 1, 1);
    let w = JungleBushFeature.place(o, 0);
    assert_eq!(w.len(), 1 + 8 + 5);
    assert_eq!(w[0], (o, Voxel::new(JUNGLE_LOG)));
    assert_eq!(w[1], (IVec3::new(0, 1, 0), Voxel::new(JUNGLE_LEAVES)));
    assert!(!w.contains(&(IVec3::new(0, 2, 0), Voxel::new(JUNGLE_LEAVES))));
    assert!(w.contains(&(IVec3::new(1, 2, 1), Voxel::new(JUNGLE_LEAVES))));
}

#[test]
fn mega_jungle_tree_disc_canopy() {
    let o = IVec3::new(0, 0, 0);
    let w = MegaJungleTreeFeature.place(o, 11);
    let height = 20 + hash(0, 0, 11) % 10;
    let disc = |r: i32| {
        let mut n = 0;
        for x in -r..=r + 1 {
            for z in -r..=r + 1 {
                let d = ((x as f32 - 0.5).powi(2) + (z as f32 - 0.5).powi(2)).sqrt();
                if d <= r as f32 + 0.5 {
                    n += 1;
                }
            }
        }
        n
    };
    assert_eq!(w.len() as u32, 4 * height + 5 * disc(4) + 2 * disc(2));
    assert_eq!(w[1], (IVec3::new(1, 0, 0), Voxel::new(JUNGLE_LOG)));
}

#[test]
fn acacia_branches_and_crowns() {
    for seed in 0..20u32 {
        let o = IVec3::new(10, 70, 10);
        let w = AcaciaTreeFeature.place(o, seed);
        let h = hash(10, 10, seed);
        let height = 5 + h % 3;
        let two = h % 4 != (h >> 2) % 4;
        let expected = height + 3 + if two { 2 } else { 0 } + 30 * if two { 2 } else { 1 };
        assert_eq!(w.len() as u32, expected);
        assert!(w[..(height + 3) as usize].iter().all(|(_, v)| v.id == ACACIA_LOG));
        assert_eq!(w.last().unwrap().1, Voxel::new(ACACIA_LEAVES));
    }
}

#[test]
fn big_oak_leaves_then_logs() {
    let t = branch_table();
    let o = IVec3::new(-40, 30, 8);
    let w = BigOakTreeFeature.place(o, 12345, &t);
    let h = hash(-40, 8, 12345);
    let height = 10 + h % 5;
    let branches = 4 + ((h >> 3) % 3);
    let ball = |r: i32| {
        let mut n = 0;
        for x in -r..=r {
            for y in -r..=r {
                for z in -r..=r {
                    if x * x + y * y + z * z <= r * r + 1 {
                        n += 1;
                    }
                }
            }
        }
        n
    };
    let mut logs = height;
    for i in 0..branches {
        let bs = h.wrapping_add(i * 1923);
        logs += 3 + ((bs >> 4) % 3);
    }
    let leaves = ball(3) + branches * ball(2);
    assert_eq!(w.len() as u32, leaves + logs);
    assert!(w[..leaves as usize].iter().all(|(_, v)| v.id == OAK_LEAVES));
    assert!(w[leaves as usize..].iter().all(|(_, v)| v.id == OAK_LOG));
    assert_eq!(w[leaves as usize], (o, Voxel::new(OAK_LOG)));
    let kind = FeatureKind::BigOakTree.place(o, 12345, &t);
    assert_eq!(kind, w);
}
