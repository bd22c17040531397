use std::collections::HashSet;
use voxel_world::chunk_map::chunk_key;
use voxel_world::coords::IVec3;
use voxel_world::streaming::{
    chunks_to_create, chunks_to_remove, is_within_active_chunk_range,
    is_within_active_chunk_range_with_margin, should_unload_chunk, should_unload_chunk_with_factor,
    update_chunk_entities, RenderDistanceParams,
};

fn params(h: i32, v: i32, at: IVec3) -> RenderDistanceParams {
    RenderDistanceParams { player_chunk: at, horizontal: h, vertical: v }
}

#[test]
fn unload_uses_scaled_radius() {
    let p = params(8, 4, IVec3::new(0, 0, 0));
    assert!(!should_unload_chunk(IVec3::new(9, 0, 0), &p));
    assert!(!should_unload_chunk(IVec3::new(12, 0, 0), &p));
    assert!(should_unload_chunk(IVec3::new(13, 0, 0), &p));
    assert!(should_unload_chunk_with_factor(IVec3::new(9, 0, 0), &p, 1, 1));
    assert!(!should_unload_chunk_with_factor(IVec3::new(9, 0, 0), &p, 9, 8));
}

#[test]
fn active_range_with_margin() {
    let p = params(8, 4, IVec3::new(10, 0, -10));
    assert!(is_within_active_chunk_range(IVec3::new(20, 6, -10), &p));
    assert!(!is_within_active_chunk_range(IVec3::new(21, 0, -10), &p));
    assert!(!is_within_active_chunk_range(IVec3::new(10, 7, -10), &p));
    assert!(is_within_active_chunk_range_with_margin(IVec3::new(18, 0, -10), &p, 0));
    assert!(!is_within_active_chunk_range_with_margin(IVec3::new(17, 0, -4), &p, 0));
}

#[test]
fn create_plan_covers_the_cylinder() {
    let p = params(1, 0, IVec3::new(0, 0, 0));
    let created = chunks_to_create(&p, &HashSet::new());
    assert_eq!(
        created,
        vec![
            IVec3::new(-1, 0, 0),
            IVec3::new(0, 0, -1),
            IVec3::new(0, 0, 0),
            IVec3::new(0, 0, 1),
            IVec3::new(1, 0, 0)
        ]
    );
    let p = params(16, 4, IVec3::new(0, 0, 0));
    let created = chunks_to_create(&p, &HashSet::new());
    let per_layer = (-16i32..=16)
        .flat_map(|x| (-16i32..=16).map(move |z| (x, z)))
        .filter(|(x, z)| x * x + z * z <= 256)
        .count();
    assert_eq!(created.len(), per_layer * 9);
}

#[test]
fn create_plan_skips_loaded_chunks() {
    let p = params(1, 1, IVec3::new(5, 5, 5));
    let mut loaded = HashSet::new();
    loaded.insert(chunk_key(IVec3::new(5, 5, 5)));
    loaded.insert(chunk_key(IVec3::new(6, 4, 5)));
    let created = chunks_to_create(&p, &loaded);
    assert_eq!(created.len(), 15 - 2);
    assert!(!created.contains(&IVec3::new(5, 5, 5)));
    assert!(created.contains(&IVec3::new(6, 5, 5)));
}

#[test]
fn remove_plan_keeps_margin() {
    let p = params(8, 4, IVec3::new(0, 0, 0));
    let loaded = vec![
        IVec3::new(9, 0, 0),
        IVec3::new(13, 0, 0),
        IVec3::new(0, 6, 0),
        IVec3::new(0, 7, 0),
        IVec3::new(8, 0, 9),
    ];
    assert_eq!(
        chunks_to_remove(&p, &loaded),
        vec![IVec3::new(13, 0, 0), IVec3::new(0, 7, 0), IVec3::new(8, 0, 9)]
    );
}

#[test]
fn stepping_away_and_back_evicts_nothing_at_the_edge() {
    let h = 8;
    let start = params(h, 2, IVec3::new(0, 0, 0));
    let wanted = chunks_to_create(&start, &HashSet::new());
    let keys: HashSet<i128> = wanted.iter().map(|p| chunk_key(*p)).collect();
    let moved = params(h, 2, IVec3::new(1, 0, 0));
    let (to_create, to_remove) = update_chunk_entities(&moved, &keys, &wanted);
    assert!(to_remove.is_empty());
    assert!(!to_create.is_empty());
    let mut all = wanted.clone();
    all.extend(to_create.iter().copied());
    let keys: HashSet<i128> = all.iter().map(|p| chunk_key(*p)).collect();
    let (again, removed_back) = update_chunk_entities(&start, &keys, &all);
    assert!(removed_back.is_empty());
    assert!(again.is_empty());
    assert!(wanted.contains(&IVec3::new(-8, 0, 0)));
}

#[test]
fn default_render_distance() {
    let p = RenderDistanceParams::default();
    assert_eq!(p.horizontal, 16);
    assert_eq!(p.vertical, 4);
    assert_eq!(p.player_chunk, IVec3::new(0, 0, 0));
}

#[test]
fn observer_update_reports_chunk_changes() {
    let mut p = RenderDistanceParams::default();
    assert!(!p.update_player_chunk(IVec3::new(0, 0, 0)));
    assert!(p.update_player_chunk(IVec3::new(1, 0, 0)));
    assert_eq!(p.player_chunk, IVec3::new(1, 0, 0));
    assert_eq!(p.horizontal, 16);
    assert!(!p.update_player_chunk(IVec3::new(1, 0, 0)));
}
