use voxel_world::coords::IVec3;
use voxel_world::pipeline::{select_nearest, step, GenAction, GenEvent, GenStage, GenerationStorage};

fn tick(cached: bool, ready: bool) -> GenEvent {
    GenEvent::Tick { column_cached: cached, neighbors_ready: ready }
}

#[test]
fn stages_advance_in_order() {
    assert_eq!(step(GenStage::Pending, tick(false, false)), (GenStage::ComputingAltitude, GenAction::SpawnAltitude));
    assert_eq!(step(GenStage::Pending, tick(true, false)), (GenStage::WaitingForBaseTerrain, GenAction::Wait));
    assert_eq!(step(GenStage::ComputingAltitude, GenEvent::AltitudeDone), (GenStage::WaitingForBaseTerrain, GenAction::Wait));
    assert_eq!(step(GenStage::WaitingForBaseTerrain, tick(true, false)), (GenStage::ComputingBaseTerrain, GenAction::SpawnBaseTerrain));
    assert_eq!(step(GenStage::WaitingForBaseTerrain, tick(false, true)), (GenStage::WaitingForBaseTerrain, GenAction::Wait));
    assert_eq!(step(GenStage::ComputingBaseTerrain, GenEvent::BaseTerrainDone), (GenStage::WaitingForNeighbors, GenAction::Wait));
    assert_eq!(step(GenStage::WaitingForNeighbors, tick(true, false)), (GenStage::WaitingForNeighbors, GenAction::Wait));
    assert_eq!(step(GenStage::WaitingForNeighbors, tick(true, true)), (GenStage::ComputingFeatures, GenAction::SpawnFeatures));
    assert_eq!(step(GenStage::ComputingFeatures, GenEvent::FeaturesDone), (GenStage::Done, GenAction::Finish));
}

#[test]
fn unrelated_events_change_nothing() {
    assert_eq!(step(GenStage::Done, tick(true, true)), (GenStage::Done, GenAction::Wait));
    assert_eq!(step(GenStage::Pending, GenEvent::FeaturesDone), (GenStage::Pending, GenAction::Wait));
    assert_eq!(step(GenStage::ComputingFeatures, tick(true, true)), (GenStage::ComputingFeatures, GenAction::Wait));
}

#[test]
fn delayed_neighbour_holds_back_features() {
    let mut storage = GenerationStorage::new();
    let center = IVec3::new(0, 0, 0);
    storage.mark_base_terrain(center);
    for dx in -1..=1 {
        for dz in -1..=1 {
            if (dx, dz) != (0, 0) && (dx, dz) != (1, 1) {
                storage.mark_base_terrain(IVec3::new(dx, 0, dz));
            }
        }
    }
    // vertical neighbours do not count
    storage.mark_base_terrain(IVec3::new(0, 1, 0));
    let mut stage = GenStage::WaitingForNeighbors;
    let mut feature_runs = 0;
    for _ in 0..5 {
        let (next, action) = step(stage, storage.tick(center, true));
        if action == GenAction::SpawnFeatures {
            feature_runs += 1;
        }
        stage = next;
    }
    assert_eq!(feature_runs, 0);
    assert_eq!(stage, GenStage::WaitingForNeighbors);
    storage.mark_base_terrain(IVec3::new(1, 0, 1));
    assert!(storage.neighbors_ready(center));
    let (next, action) = step(stage, storage.tick(center, true));
    assert_eq!(action, GenAction::SpawnFeatures);
    assert_eq!(next, GenStage::ComputingFeatures);
}

#[test]
fn mesh_waits_for_all_26_neighbours() {
    let mut storage = GenerationStorage::new();
    for dx in -1..=1 {
        for dy in -1..=1 {
            for dz in -1..=1 {
                if (dx, dy, dz) != (1, 1, 1) {
                    storage.mark_fully_generated(IVec3::new(dx, dy, dz));
                }
            }
        }
    }
    assert!(!storage.mesh_ready(IVec3::new(0, 0, 0)));
    assert!(storage.mesh_candidates(IVec3::new(0, 0, 0)).is_empty());
    storage.mark_fully_generated(IVec3::new(1, 1, 1));
    assert!(storage.mesh_ready(IVec3::new(0, 0, 0)));
    assert_eq!(storage.mesh_candidates(IVec3::new(1, 1, 1)), vec![IVec3::new(0, 0, 0)]);
    assert!(storage.is_fully_done(IVec3::new(1, 1, 1)));
    assert!(!storage.is_base_done(IVec3::new(1, 1, 1)));
}

#[test]
fn nearest_pending_chunks_first() {
    let pending = vec![
        IVec3::new(5, 0, 0),
        IVec3::new(1, 0, 0),
        IVec3::new(0, 0, 3),
        IVec3::new(-1, 0, 0),
        IVec3::new(0, 2, 0),
    ];
    let chosen = select_nearest(&pending, IVec3::new(0, 0, 0), 3);
    assert_eq!(chosen, vec![1, 3, 4]);
    let all = select_nearest(&pending, IVec3::new(0, 0, 0), 10);
    assert_eq!(all, vec![1, 3, 4, 2, 0]);
    assert!(select_nearest(&pending, IVec3::new(0, 0, 0), 0).is_empty());
}

#[test]
fn column_maps_are_cached_once() {
    let mut storage = GenerationStorage::new();
    assert!(storage.get_column(3, -4).is_none());
    storage.store_column(3, -4, vec![7; 1024], vec![2; 1024]);
    storage.store_column(3, -4, vec![9; 1024], vec![5; 1024]);
    let (alt, biomes) = storage.get_column(3, -4).unwrap();
    assert_eq!(alt[0], 7);
    assert_eq!(biomes[1023], 2);
    assert!(storage.get_column(-4, 3).is_none());
    storage.store_column(i32::MIN, i32::MAX, vec![1; 1024], vec![1; 1024]);
    assert!(storage.get_column(i32::MIN, i32::MAX).is_some());
    assert!(storage.get_column(i32::MAX, i32::MIN).is_none());
}
