//! The generated map as plain data: biomes, roads, points of interest.

use vstd::prelude::*;

verus! {

#[derive(Debug, Clone, Copy, PartialEq, Eq, Hash, Structural)]
pub enum Biome {
    Grassland,
    Forest,
    DenseForest,
    Mountain,
    Desert,
    Snow,
    Swamp,
    Water,
    DeepWater,
}

/// Number of biomes, and so of biome codes.
pub const BIOME_COUNT: usize = 9;

/// The code of a biome, shared with the ground shader.
pub open spec fn biome_code(biome: Biome) -> u8 {
    match biome {
        Biome::Water => 0,
        Biome::DeepWater => 1,
        Biome::Swamp => 2,
        Biome::Desert => 3,
        Biome::Grassland => 4,
        Biome::Forest => 5,
        Biome::DenseForest => 6,
        Biome::Mountain => 7,
        Biome::Snow => 8,
    }
}

/// Height of a biome in hundredths of the tallest.
pub open spec fn biome_hundredths(biome: Biome) -> u8 {
    match biome {
        Biome::Water | Biome::DeepWater => 0,
        Biome::Swamp => 15,
        Biome::Desert => 25,
        Biome::Grassland => 40,
        Biome::Forest => 50,
        Biome::DenseForest => 55,
        Biome::Mountain => 100,
        Biome::Snow => 85,
    }
}

pub open spec fn biome_is_water(biome: Biome) -> bool {
    biome == Biome::Water || biome == Biome::DeepWater
}

impl Biome {
    pub fn code(self) -> (code: u8)
        ensures
            code == biome_code(self),
    {
        match self {
            Biome::Water => 0,
            Biome::DeepWater => 1,
            Biome::Swamp => 2,
            Biome::Desert => 3,
            Biome::Grassland => 4,
            Biome::Forest => 5,
            Biome::DenseForest => 6,
            Biome::Mountain => 7,
            Biome::Snow => 8,
        }
    }

    /// Per-biome height factor in hundredths. Mountain peaks at 100.
    pub fn height_hundredths(self) -> (height: u8)
        ensures
            height == biome_hundredths(self),
    {
        match self {
            Biome::Water | Biome::DeepWater => 0,
            Biome::Swamp => 15,
            Biome::Desert => 25,
            Biome::Grassland => 40,
            Biome::Forest => 50,
            Biome::DenseForest => 55,
            Biome::Mountain => 100,
            Biome::Snow => 85,
        }
    }

    pub fn is_water(self) -> (water: bool)
        ensures
            water == biome_is_water(self),
    {
        match self {
            Biome::Water | Biome::DeepWater => true,
            _ => false,
        }
    }
}

#[derive(Debug, Clone, Copy, PartialEq, Eq, Hash, Structural)]
pub enum PoiType {
    Town,
    Village,
    Cave,
    Cabin,
    Shrine,
    Ruins,
    Dungeon,
    Camp,
    Tower,
    Port,
    CastleFrost,
    CastleFlame,
    CastleShadow,
    CastleStorm,
    TravelGate,
    RefugeeCamp,
    WizardsSpire,
}

/// A landmark on the map.
#[derive(Debug, Clone)]
pub struct PointOfInterest {
    pub id: usize,
    pub poi_type: PoiType,
    pub x: usize,
    pub y: usize,
    pub biome: Biome,
    pub has_road: bool,
    pub name: String,
    pub description: String,
}

#[derive(Debug, Clone, Copy, PartialEq, Eq, Hash, Structural)]
pub enum MonsterType {
    Slime,
    ClubGoblin,
    ArcherGoblin,
    GiantCrab,
    Minotaur,
    Yeti,
    Wendigo,
    PurpleDemon,
    Necromancer,
    SkeletonSoldier,
}

/// A monster that the map places on a tile.
#[derive(Debug, Clone)]
pub struct MonsterSpawn {
    pub monster_type: MonsterType,
    pub x: usize,
    pub y: usize,
    pub difficulty: u32,
}

/// What the map generator answers about each tile, row by row, and the
/// features it placed.
#[derive(Debug, Clone)]
pub struct WorldMap {
    pub width: usize,
    pub height: usize,
    pub biomes: Vec<Biome>,
    /// Whether a road runs through the tile.
    pub has_road: Vec<bool>,
    /// Whether the tile belongs to a point of interest.
    pub on_poi: Vec<bool>,
    /// Meters the game server charges for crossing the tile.
    pub step_costs: Vec<u32>,
    pub roads: Vec<Vec<(usize, usize)>>,
    pub pois: Vec<PointOfInterest>,
    pub chests: Vec<(usize, usize)>,
    pub monsters: Vec<MonsterSpawn>,
    /// For each biome code, the item a player must carry to enter.
    pub required_items: Vec<Option<String>>,
}

/// Position of a tile in the row-by-row tables.
pub open spec fn tile_slot(width: int, x: int, y: int) -> int {
    y * width + x
}

pub proof fn lemma_tile_slot(width: int, height: int, x: int, y: int)
    requires
        0 <= x < width,
        0 <= y < height,
    ensures
        0 <= tile_slot(width, x, y) < width * height,
        tile_slot(width, x, y) / width == y,
        tile_slot(width, x, y) % width == x,
{
    assert(0 <= y * width + x < width * height) by (nonlinear_arith)
        requires
            0 <= x < width,
            0 <= y < height,
    ;
    vstd::arithmetic::div_mod::lemma_fundamental_div_mod_converse(
        tile_slot(width, x, y),
        width,
        y,
        x,
    );
}

/// Two tiles of one row-by-row table share a slot only if they are the same.
pub proof fn lemma_slot_injective(width: int, x1: int, y1: int, x2: int, y2: int)
    requires
        0 <= x1 < width,
        0 <= x2 < width,
        tile_slot(width, x1, y1) == tile_slot(width, x2, y2),
    ensures
        x1 == x2,
        y1 == y2,
{
    assert(y1 == y2) by (nonlinear_arith)
        requires
            0 <= x1 < width,
            0 <= x2 < width,
            y1 * width + x1 == y2 * width + x2,
    ;
}

/// Every slot of a row-by-row table belongs to a tile.
pub proof fn lemma_slot_onto(width: int, height: int, slot: int)
    requires
        0 <= slot < width * height,
        0 < width,
    ensures
        0 <= slot % width < width,
        0 <= slot / width < height,
        tile_slot(width, slot % width, slot / width) == slot,
{
    vstd::arithmetic::div_mod::lemma_fundamental_div_mod(slot, width);
    vstd::arithmetic::mul::lemma_mul_is_commutative(width, slot / width);
    assert(0 <= slot / width < height) by (nonlinear_arith)
        requires
            0 <= slot < width * height,
            0 < width,
            slot == width * (slot / width) + slot % width,
            0 <= slot % width < width,
    ;
}

/// The same, knowing only that the table is not empty.
pub proof fn lemma_slot_onto_nonempty(width: int, height: int, slot: int)
    requires
        0 <= slot < width * height,
        0 <= width,
    ensures
        0 < width,
        0 <= slot % width < width,
        0 <= slot / width < height,
        tile_slot(width, slot % width, slot / width) == slot,
{
    if width == 0 {
        assert(width * height == 0) by (nonlinear_arith)
            requires
                width == 0,
        ;
    }
    lemma_slot_onto(width, height, slot);
}

impl WorldMap {
    /// Every table covers the whole map, and every biome has its gate entry.
    pub open spec fn wf(&self) -> bool {
        &&& 0 < self.width
        &&& 0 < self.height
        &&& self.width * self.height <= usize::MAX
        &&& self.biomes.len() == self.width * self.height
        &&& self.has_road.len() == self.width * self.height
        &&& self.on_poi.len() == self.width * self.height
        &&& self.step_costs.len() == self.width * self.height
        &&& self.required_items.len() == BIOME_COUNT
    }

    pub open spec fn contains(&self, x: int, y: int) -> bool {
        0 <= x < self.width && 0 <= y < self.height
    }

    pub open spec fn biome(&self, x: int, y: int) -> Biome {
        self.biomes@[tile_slot(self.width as int, x, y)]
    }

    pub open spec fn road(&self, x: int, y: int) -> bool {
        self.has_road@[tile_slot(self.width as int, x, y)]
    }

    pub open spec fn poi_tile(&self, x: int, y: int) -> bool {
        self.on_poi@[tile_slot(self.width as int, x, y)]
    }

    pub open spec fn step_cost(&self, x: int, y: int) -> u32 {
        self.step_costs@[tile_slot(self.width as int, x, y)]
    }

    /// The item that a biome demands.
    pub open spec fn gate(&self, biome: Biome) -> Option<Seq<char>> {
        match self.required_items@[biome_code(biome) as int] {
            Some(item) => Some(item@),
            None => None,
        }
    }

    /// Whether the map is large enough to have tiles and its tables fit it.
    pub fn is_well_formed(&self) -> (ok: bool)
        ensures
            ok == self.wf(),
    {
        match self.width.checked_mul(self.height) {
            Some(area) => self.width > 0 && self.height > 0 && self.biomes.len() == area
                && self.has_road.len() == area && self.on_poi.len() == area
                && self.step_costs.len() == area && self.required_items.len() == BIOME_COUNT,
            None => false,
        }
    }

    /// Slot of a tile of the map.
    pub fn slot(&self, x: usize, y: usize) -> (slot: usize)
        requires
            self.wf(),
            self.contains(x as int, y as int),
        ensures
            slot == tile_slot(self.width as int, x as int, y as int),
            slot < self.width * self.height,
    {
        proof {
            lemma_tile_slot(self.width as int, self.height as int, x as int, y as int);
            assert(y * self.width <= y * self.width + x);
        }
        y * self.width + x
    }

    pub fn biome_at(&self, x: usize, y: usize) -> (biome: Biome)
        requires
            self.wf(),
            self.contains(x as int, y as int),
        ensures
            biome == self.biome(x as int, y as int),
    {
        let slot: usize = self.slot(x, y);
        self.biomes[slot]
    }

    pub fn has_road_at(&self, x: usize, y: usize) -> (road: bool)
        requires
            self.wf(),
            self.contains(x as int, y as int),
        ensures
            road == self.road(x as int, y as int),
    {
        let slot: usize = self.slot(x, y);
        self.has_road[slot]
    }

    pub fn is_poi_tile(&self, x: usize, y: usize) -> (poi: bool)
        requires
            self.wf(),
            self.contains(x as int, y as int),
        ensures
            poi == self.poi_tile(x as int, y as int),
    {
        let slot: usize = self.slot(x, y);
        self.on_poi[slot]
    }
}

/// The codes that the ground shader knows the biomes by: a number each, from
/// the water up to the snow.
pub proof fn codes_of_the_biomes(biome: Biome)
    ensures
        biome_code(biome) < BIOME_COUNT,
        biome_code(biome) == 0 <==> biome == Biome::Water,
        biome_code(biome) == 1 <==> biome == Biome::DeepWater,
        biome_code(biome) == 2 <==> biome == Biome::Swamp,
        biome_code(biome) == 3 <==> biome == Biome::Desert,
        biome_code(biome) == 4 <==> biome == Biome::Grassland,
        biome_code(biome) == 5 <==> biome == Biome::Forest,
        biome_code(biome) == 6 <==> biome == Biome::DenseForest,
        biome_code(biome) == 7 <==> biome == Biome::Mountain,
        biome_code(biome) == 8 <==> biome == Biome::Snow,
{
}

/// Heights rise from the water over swamp, desert, meadow, woods and snow to
/// the mountains.
pub proof fn heights_of_the_biomes(biome: Biome)
    ensures
        biome_hundredths(biome) == 0 <==> biome == Biome::Water || biome == Biome::DeepWater,
        biome_hundredths(biome) == 15 <==> biome == Biome::Swamp,
        biome_hundredths(biome) == 25 <==> biome == Biome::Desert,
        biome_hundredths(biome) == 40 <==> biome == Biome::Grassland,
        biome_hundredths(biome) == 50 <==> biome == Biome::Forest,
        biome_hundredths(biome) == 55 <==> biome == Biome::DenseForest,
        biome_hundredths(biome) == 85 <==> biome == Biome::Snow,
        biome_hundredths(biome) == 100 <==> biome == Biome::Mountain,
        biome_is_water(biome) <==> biome_hundredths(biome) == 0,
{
}

/// What the map says of a tile stands in its tables at the tile's row and
/// column, and what a biome demands stands under the biome's own code.
pub proof fn tables_go_row_by_row(map: WorldMap, x: int, y: int, biome: Biome)
    ensures
        map.biome(x, y) == map.biomes@[y * map.width + x],
        map.road(x, y) == map.has_road@[y * map.width + x],
        map.poi_tile(x, y) == map.on_poi@[y * map.width + x],
        map.step_cost(x, y) == map.step_costs@[y * map.width + x],
        map.gate(biome) is Some <==> map.required_items@[biome_code(biome) as int] is Some,
        map.gate(biome) matches Some(item) ==> item == map.required_items@[biome_code(
            biome,
        ) as int]->0@,
        map.contains(x, y) <==> 0 <= x && x < map.width && 0 <= y && y < map.height,
{
}

} // verus!
