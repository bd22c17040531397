//! Biomes: the static table of surface blocks and weighted features, and the
//! decision tree that resolves a biome from climate values and altitude.
//!
//! Climate values are fixed-point numbers in millionths (`-300_000` stands
//! for -0.3); feature probabilities are in parts per ten thousand.

use vstd::prelude::*;
use crate::feature::FeatureKind;
use crate::voxel::{
    Voxel, DIRT, GRASS, GRAVEL, PACKED_ICE, RED_SAND, SAND, SNOW, STONE,
};

verus! {

pub const PLAINS: u8 = 0;
pub const DESERT: u8 = 1;
pub const MOUNTAINS: u8 = 2;
pub const SNOWY_TAIGA: u8 = 3;
pub const OCEAN: u8 = 4;
pub const OAK_FOREST: u8 = 5;
pub const BIRCH_FOREST: u8 = 6;
pub const FLOWER_FIELD: u8 = 7;
pub const SNOW_FIELD: u8 = 8;
pub const SAVANNA: u8 = 9;
pub const JUNGLE: u8 = 10;
pub const BEACH: u8 = 11;
pub const COLD_OCEAN: u8 = 12;
pub const SUNFLOWER_PLAINS: u8 = 13;
pub const ICE_SPIKES: u8 = 14;
pub const RED_DESERT: u8 = 15;
pub const BAMBOO_JUNGLE: u8 = 16;

/// Number of biome ids (`0..BIOME_COUNT`).
pub const BIOME_COUNT: u8 = 17;

/// Denominator of feature probabilities.
pub const PROBABILITY_SCALE: u32 = 10000;

/// A biome id.
#[derive(Debug, Clone, Copy, PartialEq, Eq, Hash, Structural)]
pub struct Biome {
    pub id: u8,
}

impl Biome {
    pub fn new(id: u8) -> (r: Biome)
        ensures
            r.id == id,
    {
        Biome { id }
    }
}

pub open spec fn spec_surface(id: u8) -> u16 {
    if id == DESERT || id == BEACH {
        SAND
    } else if id == MOUNTAINS {
        STONE
    } else if id == SNOWY_TAIGA || id == SNOW_FIELD || id == ICE_SPIKES {
        SNOW
    } else if id == OCEAN || id == COLD_OCEAN {
        GRAVEL
    } else if id == RED_DESERT {
        RED_SAND
    } else {
        GRASS
    }
}

pub open spec fn spec_sub_surface(id: u8) -> u16 {
    if id == DESERT || id == BEACH {
        SAND
    } else if id == MOUNTAINS || id == OCEAN || id == COLD_OCEAN {
        STONE
    } else if id == SNOW_FIELD {
        SNOW
    } else if id == ICE_SPIKES {
        PACKED_ICE
    } else if id == RED_DESERT {
        RED_SAND
    } else {
        DIRT
    }
}

/// Weighted feature list of each biome: (feature, chance per cell in parts
/// per ten thousand).
pub open spec fn spec_features(id: u8) -> Seq<(FeatureKind, u32)> {
    if id == PLAINS {
        seq![(FeatureKind::BigOakTree, 1u32)]
    } else if id == DESERT || id == RED_DESERT {
        seq![(FeatureKind::Cactus, 100u32)]
    } else if id == SNOWY_TAIGA {
        seq![(FeatureKind::PineTree, 200u32)]
    } else if id == OAK_FOREST {
        seq![(FeatureKind::OakTree, 200u32), (FeatureKind::Flower, 200u32)]
    } else if id == BIRCH_FOREST {
        seq![(FeatureKind::BirchTree, 200u32), (FeatureKind::Flower, 200u32)]
    } else if id == FLOWER_FIELD {
        seq![(FeatureKind::Flower, 3000u32)]
    } else if id == SAVANNA {
        seq![(FeatureKind::AcaciaTree, 20u32)]
    } else if id == JUNGLE {
        seq![
            (FeatureKind::MegaJungleTree, 50u32),
            (FeatureKind::JungleTree, 300u32),
            (FeatureKind::JungleBush, 500u32),
            (FeatureKind::Flower, 100u32),
        ]
    } else if id == SUNFLOWER_PLAINS {
        seq![(FeatureKind::BigOakTree, 10u32), (FeatureKind::Flower, 2000u32)]
    } else if id == ICE_SPIKES {
        seq![(FeatureKind::IceSpike, 100u32)]
    } else if id == BAMBOO_JUNGLE {
        seq![
            (FeatureKind::Bamboo, 1000u32),
            (FeatureKind::JungleTree, 50u32),
            (FeatureKind::JungleBush, 100u32),
        ]
    } else {
        Seq::empty()
    }
}

/// The static record of one biome.
#[derive(Debug)]
pub struct BiomeData {
    pub id: u8,
    pub name: &'static str,
    pub surface_block: Voxel,
    pub sub_surface_block: Voxel,
    pub features: Vec<(FeatureKind, u32)>,
}

impl BiomeData {
    /// This record is the table's entry for `id`.
    pub open spec fn is_entry(&self, id: u8) -> bool {
        &&& self.id == id
        &&& self.surface_block.id == spec_surface(id)
        &&& self.sub_surface_block.id == spec_sub_surface(id)
        &&& self.features@ == spec_features(id)
    }
}

fn entry(id: u8, name: &'static str, features: Vec<(FeatureKind, u32)>) -> (r: BiomeData)
    requires
        features@ == spec_features(id),
    ensures
        r.is_entry(id),
        r.name == name,
{
    let surface = if id == DESERT || id == BEACH {
        SAND
    } else if id == MOUNTAINS {
        STONE
    } else if id == SNOWY_TAIGA || id == SNOW_FIELD || id == ICE_SPIKES {
        SNOW
    } else if id == OCEAN || id == COLD_OCEAN {
        GRAVEL
    } else if id == RED_DESERT {
        RED_SAND
    } else {
        GRASS
    };
    let sub = if id == DESERT || id == BEACH {
        SAND
    } else if id == MOUNTAINS || id == OCEAN || id == COLD_OCEAN {
        STONE
    } else if id == SNOW_FIELD {
        SNOW
    } else if id == ICE_SPIKES {
        PACKED_ICE
    } else if id == RED_DESERT {
        RED_SAND
    } else {
        DIRT
    };
    BiomeData {
        id,
        name,
        surface_block: Voxel { id: surface },
        sub_surface_block: Voxel { id: sub },
        features,
    }
}

/// The table entry for `id`, which must be below [`BIOME_COUNT`].
pub fn biome_data(id: u8) -> (r: BiomeData)
    requires
        id < BIOME_COUNT,
    ensures
        r.is_entry(id),
{
    let f = if id == PLAINS {
        vec![(FeatureKind::BigOakTree, 1u32)]
    } else if id == DESERT || id == RED_DESERT {
        vec![(FeatureKind::Cactus, 100u32)]
    } else if id == SNOWY_TAIGA {
        vec![(FeatureKind::PineTree, 200u32)]
    } else if id == OAK_FOREST {
        vec![(FeatureKind::OakTree, 200u32), (FeatureKind::Flower, 200u32)]
    } else if id == BIRCH_FOREST {
        vec![(FeatureKind::BirchTree, 200u32), (FeatureKind::Flower, 200u32)]
    } else if id == FLOWER_FIELD {
        vec![(FeatureKind::Flower, 3000u32)]
    } else if id == SAVANNA {
        vec![(FeatureKind::AcaciaTree, 20u32)]
    } else if id == JUNGLE {
        vec![
            (FeatureKind::MegaJungleTree, 50u32),
            (FeatureKind::JungleTree, 300u32),
            (FeatureKind::JungleBush, 500u32),
            (FeatureKind::Flower, 100u32),
        ]
    } else if id == SUNFLOWER_PLAINS {
        vec![(FeatureKind::BigOakTree, 10u32), (FeatureKind::Flower, 2000u32)]
    } else if id == ICE_SPIKES {
        vec![(FeatureKind::IceSpike, 100u32)]
    } else if id == BAMBOO_JUNGLE {
        vec![
            (FeatureKind::Bamboo, 1000u32),
            (FeatureKind::JungleTree, 50u32),
            (FeatureKind::JungleBush, 100u32),
        ]
    } else {
        Vec::new()
    };
    assert(f@ =~= spec_features(id));
    let name = if id == PLAINS {
        "Plains"
    } else if id == DESERT {
        "Desert"
    } else if id == MOUNTAINS {
        "Mountains"
    } else if id == SNOWY_TAIGA {
        "Snow"
    } else if id == OCEAN {
        "Ocean"
    } else if id == OAK_FOREST {
        "Oak Forest"
    } else if id == BIRCH_FOREST {
        "Birch Forest"
    } else if id == FLOWER_FIELD {
        "Flower Field"
    } else if id == SNOW_FIELD {
        "Snow Field"
    } else if id == SAVANNA {
        "Savanna"
    } else if id == JUNGLE {
        "Jungle"
    } else if id == BEACH {
        "Beach"
    } else if id == COLD_OCEAN {
        "Cold Ocean"
    } else if id == SUNFLOWER_PLAINS {
        "Sunflower Plains"
    } else if id == ICE_SPIKES {
        "Ice Spikes"
    } else if id == RED_DESERT {
        "Red Desert"
    } else {
        "Bamboo Jungle"
    };
    entry(id, name, f)
}

/// The whole table, in id order.
pub fn get_biome_definitions() -> (r: Vec<BiomeData>)
    ensures
        r.len() == BIOME_COUNT,
        forall|i: int| 0 <= i < r.len() ==> (#[trigger] r[i]).is_entry(i as u8),
{
    let mut r: Vec<BiomeData> = Vec::new();
    let mut id: u8 = 0;
    while id < BIOME_COUNT
        invariant
            id <= BIOME_COUNT,
            r.len() == id,
            forall|i: int| 0 <= i < r.len() ==> (#[trigger] r[i]).is_entry(i as u8),
        decreases BIOME_COUNT - id,
    {
        r.push(biome_data(id));
        id = id + 1;
    }
    r
}

/// The table entry that an id stands for: unknown ids fall back to plains.
pub open spec fn effective_biome(id: u8) -> u8 {
    if id < BIOME_COUNT { id } else { PLAINS }
}

/// Biome decision tree over climate (millionths) and altitude.
pub open spec fn spec_resolve_biome(temp: int, humidity: int, rarity: int, altitude: int) -> u8 {
    if -3 <= altitude < 0 && temp > -100_000 {
        BEACH
    } else if altitude < 0 {
        if temp < -300_000 { COLD_OCEAN } else { OCEAN }
    } else if temp < -300_000 {
        if humidity < 0 {
            if rarity > 300_000 { ICE_SPIKES } else { SNOW_FIELD }
        } else {
            SNOWY_TAIGA
        }
    } else if temp < 200_000 {
        if humidity < -300_000 {
            MOUNTAINS
        } else if humidity < -100_000 {
            if rarity > 300_000 { SUNFLOWER_PLAINS } else { PLAINS }
        } else if humidity < 0 {
            BIRCH_FOREST
        } else if humidity < 300_000 {
            if rarity > 300_000 { FLOWER_FIELD } else { OAK_FOREST }
        } else {
            OAK_FOREST
        }
    } else {
        if humidity < -150_000 {
            if rarity > 300_000 { RED_DESERT } else { DESERT }
        } else if humidity < 150_000 {
            SAVANNA
        } else {
            if rarity > 300_000 { BAMBOO_JUNGLE } else { JUNGLE }
        }
    }
}

/// Largest magnitude of a climate value, in millionths.
pub const CLIMATE_LIMIT: i64 = 0x4000_0000;

/// Largest magnitude of an altitude.
pub const ALTITUDE_LIMIT: i32 = 0x10_0000;

/// Temperature after the altitude lapse: 0.01 colder per block above 20.
pub open spec fn spec_lapsed_temperature(raw_temp: int, altitude: int) -> int {
    raw_temp - (altitude - 20) * 10_000
}

/// Humidity after temperature feedback: plus a fifth of the temperature,
/// rounded down.
pub open spec fn spec_fed_humidity(raw_humidity: int, temp: int) -> int {
    raw_humidity + temp / 5
}

/// Final (temperature, humidity, rarity) for raw noise samples at altitude.
pub open spec fn spec_climate(raw_temp: int, raw_humidity: int, raw_rarity: int, altitude: int) -> (
    int,
    int,
    int,
) {
    let t = spec_lapsed_temperature(raw_temp, altitude);
    (t, spec_fed_humidity(raw_humidity, t), raw_rarity)
}

pub open spec fn climate_ok(v: int) -> bool {
    -CLIMATE_LIMIT <= v <= CLIMATE_LIMIT
}

/// The biome table, indexed by id.
#[derive(Debug)]
pub struct BiomeRegistry {
    pub biomes: Vec<BiomeData>,
}

impl BiomeRegistry {
    pub open spec fn wf(&self) -> bool {
        &&& self.biomes.len() == BIOME_COUNT
        &&& forall|i: int| 0 <= i < self.biomes.len() ==> (#[trigger] self.biomes[i]).is_entry(i as u8)
    }

    /// The registry holds the same table for every seed.
    pub fn new(seed: u32) -> (r: BiomeRegistry)
        ensures
            r.wf(),
    {
        BiomeRegistry { biomes: get_biome_definitions() }
    }

    /// The entry for `id`; unknown ids give plains.
    pub fn get_biome_data_by_id(&self, id: u8) -> (r: &BiomeData)
        requires
            self.wf(),
        ensures
            r.is_entry(effective_biome(id)),
    {
        if id < BIOME_COUNT {
            &self.biomes[id as usize]
        } else {
            &self.biomes[0]
        }
    }

    /// The entry for a biome; unknown ids give plains.
    pub fn get_biome_data(&self, biome: Biome) -> (r: &BiomeData)
        requires
            self.wf(),
        ensures
            r.is_entry(effective_biome(biome.id)),
    {
        self.get_biome_data_by_id(biome.id)
    }

    /// The biome for final climate values (millionths) at an altitude.
    pub fn resolve_biome(&self, temp: i64, humidity: i64, rarity: i64, altitude: i32) -> (r: Biome)
        ensures
            r.id == spec_resolve_biome(temp as int, humidity as int, rarity as int, altitude as int),
    {
        let id = if altitude >= -3 && altitude < 0 && temp > -100_000 {
            BEACH
        } else if altitude < 0 {
            if temp < -300_000 { COLD_OCEAN } else { OCEAN }
        } else if temp < -300_000 {
            if humidity < 0 {
                if rarity > 300_000 { ICE_SPIKES } else { SNOW_FIELD }
            } else {
                SNOWY_TAIGA
            }
        } else if temp < 200_000 {
            if humidity < -300_000 {
                MOUNTAINS
            } else if humidity < -100_000 {
                if rarity > 300_000 { SUNFLOWER_PLAINS } else { PLAINS }
            } else if humidity < 0 {
                BIRCH_FOREST
            } else if humidity < 300_000 {
                if rarity > 300_000 { FLOWER_FIELD } else { OAK_FOREST }
            } else {
                OAK_FOREST
            }
        } else {
            if humidity < -150_000 {
                if rarity > 300_000 { RED_DESERT } else { DESERT }
            } else if humidity < 150_000 {
                SAVANNA
            } else {
                if rarity > 300_000 { BAMBOO_JUNGLE } else { JUNGLE }
            }
        };
        Biome { id }
    }

    /// Applies the altitude lapse to temperature and the temperature
    /// feedback to humidity, for raw noise samples in millionths.
    pub fn climate(raw_temp: i64, raw_humidity: i64, raw_rarity: i64, altitude: i32) -> (r: (
        i64,
        i64,
        i64,
    ))
        requires
            climate_ok(raw_temp as int),
            climate_ok(raw_humidity as int),
            -ALTITUDE_LIMIT <= altitude <= ALTITUDE_LIMIT,
        ensures
            (r.0 as int, r.1 as int, r.2 as int) == spec_climate(
                raw_temp as int,
                raw_humidity as int,
                raw_rarity as int,
                altitude as int,
            ),
    {
        let t = raw_temp - (altitude as i64 - 20) * 10_000;
        let fifth = match t.checked_div_euclid(5) {
            Some(q) => q,
            None => 0,
        };
        let h = raw_humidity + fifth;
        (t, h, raw_rarity)
    }

    /// The biome for raw noise samples (millionths) at an altitude.
    pub fn get_biome(&self, raw_temp: i64, raw_humidity: i64, raw_rarity: i64, altitude: i32) -> (r:
        Biome)
        requires
            climate_ok(raw_temp as int),
            climate_ok(raw_humidity as int),
            -ALTITUDE_LIMIT <= altitude <= ALTITUDE_LIMIT,
        ensures
            ({
                let c = spec_climate(
                    raw_temp as int,
                    raw_humidity as int,
                    raw_rarity as int,
                    altitude as int,
                );
                r.id == spec_resolve_biome(c.0, c.1, c.2, altitude as int)
            }),
    {
        let (t, h, r) = BiomeRegistry::climate(raw_temp, raw_humidity, raw_rarity, altitude);
        self.resolve_biome(t, h, r, altitude)
    }
}

} // verus!
