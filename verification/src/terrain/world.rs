//! The tile grid of the overworld.

use vstd::prelude::*;

use super::world_map::{Biome, PoiType, PointOfInterest, WorldMap};
use super::{Ground, Overlay, Terrain};

verus! {

/// Size of the world unless the server asks for another.
pub const WORLD_W: usize = 100;

pub const WORLD_H: usize = 80;

/// Side of a tile in world pixels.
pub const TILE_PX: usize = 16;

#[derive(Debug, Clone, Copy)]
pub struct Cell {
    pub ground: Ground,
    pub overlay: Option<Overlay>,
}

impl Cell {
    pub fn terrain(&self) -> (terrain: Terrain)
        ensures
            terrain == (Terrain { ground: self.ground, overlay: self.overlay }),
    {
        Terrain { ground: self.ground, overlay: self.overlay }
    }
}

pub struct WorldGrid {
    pub cells: Vec<Vec<Cell>>,
    pub width: usize,
    pub height: usize,
    /// The underlying generated map (for points of interest, roads, etc.)
    pub map: WorldMap,
}

/// Ground that a biome lies on.
pub open spec fn biome_ground(biome: Biome) -> Ground {
    match biome {
        Biome::Grassland | Biome::Forest | Biome::DenseForest => Ground::Grass,
        Biome::Mountain => Ground::Mountain,
        Biome::Desert => Ground::Sand,
        Biome::Snow => Ground::Snow,
        Biome::Swamp => Ground::Swamp,
        Biome::Water | Biome::DeepWater => Ground::Water,
    }
}

/// Pseudo-random value of a tile, fixed by its coordinates alone.
pub open spec fn tile_hash(x: int, y: int) -> u32 {
    scrambled(((x * 374761393 + y * 668265263) % 0x1_0000_0000) as u32)
}

/// Spreads the bits of a number.
pub open spec fn scrambled(h: u32) -> u32 {
    let mixed = (((h ^ (h >> 13u32)) * 1274126177) % 0x1_0000_0000) as u32;
    mixed ^ (mixed >> 16u32)
}

/// What grows or lies on open ground of a biome, for a tile's hash.
pub open spec fn decoration(biome: Biome, hash: u32) -> Option<Overlay> {
    match biome {
        Biome::Forest => if hash % 3 != 0 {
            Some(Overlay::Tree)
        } else {
            None
        },
        Biome::DenseForest => if hash % 4 != 0 {
            Some(Overlay::Tree)
        } else {
            None
        },
        Biome::Grassland => if hash % 12 == 0 {
            Some(Overlay::Tree)
        } else {
            None
        },
        Biome::Mountain => if hash % 4 == 0 {
            Some(Overlay::Rock)
        } else {
            None
        },
        Biome::Snow => if hash % 6 == 0 {
            Some(Overlay::PineTree)
        } else {
            None
        },
        _ => None,
    }
}

/// Some road of the map passes through the tile.
pub open spec fn on_road(roads: Seq<Vec<(usize, usize)>>, x: int, y: int) -> bool {
    exists|i: int, j: int|
        0 <= i < roads.len() && 0 <= j < (#[trigger] roads[i])@.len() && #[trigger] roads[i]@[j] == (
            x as usize,
            y as usize,
        )
}

/// The landmark's 3x3 surroundings take in the tile.
pub open spec fn poi_covers(poi: PointOfInterest, width: int, height: int, x: int, y: int) -> bool {
    &&& poi.x < width
    &&& poi.y < height
    &&& -1 <= x - poi.x <= 1
    &&& -1 <= y - poi.y <= 1
}

/// Landmarks with an illustration of their own get no overlay.
pub open spec fn poi_has_illustration(poi_type: PoiType) -> bool {
    super::tilemap::illustration(poi_type) is Some
}

/// A tile of a landmark's surroundings: road, with an overlay in the middle
/// where the landmark has no illustration.
pub open spec fn poi_cell(poi: PointOfInterest, x: int, y: int) -> Cell {
    Cell {
        ground: Ground::Road,
        overlay: if x == poi.x && y == poi.y && !poi_has_illustration(poi.poi_type) {
            Some(Overlay::Village)
        } else {
            None
        },
    }
}

/// A tile before landmarks are placed: a bare road where one passes, else the
/// biome's ground, decorated unless a landmark claims the tile.
pub open spec fn open_cell(map: WorldMap, x: int, y: int) -> Cell {
    if on_road(map.roads@, x, y) {
        Cell { ground: Ground::Road, overlay: None }
    } else {
        Cell {
            ground: biome_ground(map.biome(x, y)),
            overlay: if map.poi_tile(x, y) {
                None
            } else {
                decoration(map.biome(x, y), tile_hash(x, y))
            },
        }
    }
}

/// A tile once the first `count` landmarks are placed: the last of them that
/// covers the tile decides.
pub open spec fn generated_cell(map: WorldMap, count: int, x: int, y: int) -> Cell
    decreases count,
{
    if count <= 0 {
        open_cell(map, x, y)
    } else if poi_covers(map.pois@[count - 1], map.width as int, map.height as int, x, y) {
        poi_cell(map.pois@[count - 1], x, y)
    } else {
        generated_cell(map, count - 1, x, y)
    }
}

/// Tile under a pixel coordinate, held inside a map side of `count` tiles.
pub open spec fn tile_under(px: int, count: int) -> int {
    let tile = px / 16;
    if tile < 0 {
        0
    } else if tile >= count {
        count - 1
    } else {
        tile
    }
}

fn biome_to_ground(biome: Biome) -> (ground: Ground)
    ensures
        ground == biome_ground(biome),
{
    match biome {
        Biome::Grassland => Ground::Grass,
        Biome::Forest => Ground::Grass,  // grass base, trees as overlay
        Biome::DenseForest => Ground::Grass,  // grass base, trees as overlay
        Biome::Mountain => Ground::Mountain,
        Biome::Desert => Ground::Sand,
        Biome::Snow => Ground::Snow,
        Biome::Swamp => Ground::Swamp,
        Biome::Water => Ground::Water,
        Biome::DeepWater => Ground::Water,
    }
}

pub(crate) fn hash(x: usize, y: usize) -> (h: u32)
    ensures
        h == tile_hash(x as int, y as int),
{
    scramble(((x as u128 * 374761393 + y as u128 * 668265263) % 0x1_0000_0000) as u32)
}

pub(crate) fn scramble(h: u32) -> (out: u32)
    ensures
        out == scrambled(h),
{
    let mixed: u32 = (((h ^ (h >> 13u32)) as u64 * 1274126177) % 0x1_0000_0000) as u32;
    mixed ^ (mixed >> 16u32)
}

fn decorate(biome: Biome, h: u32) -> (overlay: Option<Overlay>)
    ensures
        overlay == decoration(biome, h),
{
    match biome {
        Biome::Forest => if h % 3 != 0 {
            Some(Overlay::Tree)
        } else {
            None
        },
        Biome::DenseForest => if h % 4 != 0 {
            Some(Overlay::Tree)
        } else {
            None
        },
        Biome::Grassland => if h % 12 == 0 {
            Some(Overlay::Tree)
        } else {
            None
        },
        Biome::Mountain => if h % 4 == 0 {
            Some(Overlay::Rock)
        } else {
            None
        },
        Biome::Snow => if h % 6 == 0 {
            Some(Overlay::PineTree)
        } else {
            None
        },
        _ => None,
    }
}

spec fn grid_shape(cells: Seq<Vec<Cell>>, width: int, height: int) -> bool {
    &&& cells.len() == height
    &&& forall|y: int| 0 <= y < height ==> (#[trigger] cells[y])@.len() == width
}

fn set_cell(cells: &mut Vec<Vec<Cell>>, x: usize, y: usize, cell: Cell)
    requires
        y < old(cells).len(),
        x < old(cells)@[y as int].len(),
    ensures
        final(cells)@.len() == old(cells)@.len(),
        final(cells)@[y as int]@ == old(cells)@[y as int]@.update(x as int, cell),
        forall|i: int|
            0 <= i < old(cells)@.len() && i != y ==> #[trigger] final(cells)@[i] == old(cells)@[i],
{
    cells[y][x] = cell;
}

/// Some step of the roads before `(i, j)`, road by road, is the tile.
spec fn carved(roads: Seq<Vec<(usize, usize)>>, i: int, j: int, x: int, y: int) -> bool {
    exists|a: int, b: int|
        0 <= a < roads.len() && 0 <= b < (#[trigger] roads[a])@.len() && (a < i || (a == i && b < j))
            && #[trigger] roads[a]@[b] == (x as usize, y as usize)
}

/// The bare ground of every tile of the map.
fn lay_ground(map: &WorldMap) -> (cells: Vec<Vec<Cell>>)
    requires
        map.wf(),
    ensures
        grid_shape(cells@, map.width as int, map.height as int),
        forall|x: int, y: int|
            map.contains(x, y) ==> #[trigger] cells@[y]@[x] == (Cell {
                ground: biome_ground(map.biome(x, y)),
                overlay: None,
            }),
{
    let mut cells: Vec<Vec<Cell>> = Vec::new();
    let mut y: usize = 0;
    while y < map.height
        invariant
            map.wf(),
            y <= map.height,
            grid_shape(cells@, map.width as int, y as int),
            forall|cx: int, cy: int|
                0 <= cx < map.width && 0 <= cy < y ==> #[trigger] cells@[cy]@[cx] == (Cell {
                    ground: biome_ground(map.biome(cx, cy)),
                    overlay: None,
                }),
        decreases map.height - y,
    {
        let mut row: Vec<Cell> = Vec::new();
        let mut x: usize = 0;
        while x < map.width
            invariant
                map.wf(),
                y < map.height,
                x <= map.width,
                row.len() == x,
                forall|cx: int|
                    0 <= cx < x ==> #[trigger] row@[cx] == (Cell {
                        ground: biome_ground(map.biome(cx, y as int)),
                        overlay: None,
                    }),
            decreases map.width - x,
        {
            let ground = biome_to_ground(map.biome_at(x, y));
            row.push(Cell { ground, overlay: None });
            x = x + 1;
        }
        cells.push(row);
        y = y + 1;
    }
    cells
}

/// Turns every tile of a road into bare road.
fn carve_roads(map: &WorldMap, cells: &mut Vec<Vec<Cell>>)
    requires
        map.wf(),
        grid_shape(old(cells)@, map.width as int, map.height as int),
    ensures
        grid_shape(final(cells)@, map.width as int, map.height as int),
        forall|x: int, y: int|
            map.contains(x, y) ==> #[trigger] final(cells)@[y]@[x] == (if on_road(
                map.roads@,
                x,
                y,
            ) {
                Cell { ground: Ground::Road, overlay: None }
            } else {
                old(cells)@[y]@[x]
            }),
{
    let ghost before = cells@;
    let mut i: usize = 0;
    while i < map.roads.len()
        invariant
            map.wf(),
            i <= map.roads.len(),
            grid_shape(cells@, map.width as int, map.height as int),
            forall|x: int, y: int|
                map.contains(x, y) ==> #[trigger] cells@[y]@[x] == (if carved(
                    map.roads@,
                    i as int,
                    0,
                    x,
                    y,
                ) {
                    Cell { ground: Ground::Road, overlay: None }
                } else {
                    before[y]@[x]
                }),
        decreases map.roads.len() - i,
    {
        let mut j: usize = 0;
        while j < map.roads[i].len()
            invariant
                map.wf(),
                i < map.roads.len(),
                j <= map.roads@[i as int].len(),
                grid_shape(cells@, map.width as int, map.height as int),
                forall|x: int, y: int|
                    map.contains(x, y) ==> #[trigger] cells@[y]@[x] == (if carved(
                        map.roads@,
                        i as int,
                        j as int,
                        x,
                        y,
                    ) {
                        Cell { ground: Ground::Road, overlay: None }
                    } else {
                        before[y]@[x]
                    }),
            decreases map.roads@[i as int].len() - j,
        {
            let (rx, ry) = map.roads[i][j];
            if rx < map.width && ry < map.height {
                set_cell(cells, rx, ry, Cell { ground: Ground::Road, overlay: None });
            }
            proof {
                assert(map.roads@[i as int]@[j as int] == (rx, ry));
                assert forall|x: int, y: int| map.contains(x, y) implies carved(
                    map.roads@,
                    i as int,
                    j + 1,
                    x,
                    y,
                ) == (carved(map.roads@, i as int, j as int, x, y) || (rx == x && ry == y)) by {
                    if carved(map.roads@, i as int, j as int, x, y) {
                        let (a, b) = choose|a: int, b: int|
                            0 <= a < map.roads@.len() && 0 <= b < (#[trigger] map.roads@[a])@.len()
                                && (a < i || (a == i && b < j)) && #[trigger] map.roads@[a]@[b] == (
                                x as usize,
                                y as usize,
                            );
                        assert(map.roads@[a]@[b] == (x as usize, y as usize));
                    }
                }
            }
            j = j + 1;
        }
        proof {
            assert forall|x: int, y: int|
                map.contains(x, y) implies carved(map.roads@, i + 1, 0, x, y) == carved(
                map.roads@,
                i as int,
                j as int,
                x,
                y,
            ) by {
                if carved(map.roads@, i + 1, 0, x, y) {
                    let (a, b) = choose|a: int, b: int|
                        0 <= a < map.roads@.len() && 0 <= b < (#[trigger] map.roads@[a])@.len() && (
                        a < i + 1 || (a == i + 1 && b < 0)) && #[trigger] map.roads@[a]@[b] == (
                            x as usize,
                            y as usize,
                        );
                    assert(map.roads@[a]@[b] == (x as usize, y as usize));
                }
                if carved(map.roads@, i as int, j as int, x, y) {
                    let (a, b) = choose|a: int, b: int|
                        0 <= a < map.roads@.len() && 0 <= b < (#[trigger] map.roads@[a])@.len() && (
                        a < i || (a == i && b < j)) && #[trigger] map.roads@[a]@[b] == (
                            x as usize,
                            y as usize,
                        );
                    assert(map.roads@[a]@[b] == (x as usize, y as usize));
                }
            }
        }
        i = i + 1;
    }
    proof {
        assert forall|x: int, y: int| map.contains(x, y) implies on_road(map.roads@, x, y)
            == carved(map.roads@, i as int, 0, x, y) by {
            if on_road(map.roads@, x, y) {
                let (a, b) = choose|a: int, b: int|
                    0 <= a < map.roads@.len() && 0 <= b < (#[trigger] map.roads@[a])@.len()
                        && #[trigger] map.roads@[a]@[b] == (x as usize, y as usize);
                assert(map.roads@[a]@[b] == (x as usize, y as usize));
            }
        }
    }
}

/// Scatters trees and rocks over open ground.
fn place_decorations(map: &WorldMap, cells: &mut Vec<Vec<Cell>>)
    requires
        map.wf(),
        grid_shape(old(cells)@, map.width as int, map.height as int),
        forall|x: int, y: int|
            map.contains(x, y) ==> #[trigger] old(cells)@[y]@[x] == (Cell {
                ground: if on_road(map.roads@, x, y) {
                    Ground::Road
                } else {
                    biome_ground(map.biome(x, y))
                },
                overlay: None,
            }),
    ensures
        grid_shape(final(cells)@, map.width as int, map.height as int),
        forall|x: int, y: int|
            map.contains(x, y) ==> #[trigger] final(cells)@[y]@[x] == open_cell(*map, x, y),
{
    let ghost before = cells@;
    let mut y: usize = 0;
    while y < map.height
        invariant
            map.wf(),
            y <= map.height,
            grid_shape(cells@, map.width as int, map.height as int),
            forall|cx: int, cy: int|
                map.contains(cx, cy) ==> #[trigger] before[cy]@[cx] == (Cell {
                    ground: if on_road(map.roads@, cx, cy) {
                        Ground::Road
                    } else {
                        biome_ground(map.biome(cx, cy))
                    },
                    overlay: None,
                }),
            forall|cx: int, cy: int|
                map.contains(cx, cy) ==> #[trigger] cells@[cy]@[cx] == (if cy < y {
                    open_cell(*map, cx, cy)
                } else {
                    before[cy]@[cx]
                }),
        decreases map.height - y,
    {
        let mut x: usize = 0;
        while x < map.width
            invariant
                map.wf(),
                y < map.height,
                x <= map.width,
                grid_shape(cells@, map.width as int, map.height as int),
                forall|cx: int, cy: int|
                    map.contains(cx, cy) ==> #[trigger] before[cy]@[cx] == (Cell {
                        ground: if on_road(map.roads@, cx, cy) {
                            Ground::Road
                        } else {
                            biome_ground(map.biome(cx, cy))
                        },
                        overlay: None,
                    }),
                forall|cx: int, cy: int|
                    map.contains(cx, cy) ==> #[trigger] cells@[cy]@[cx] == (if cy < y || (cy == y
                        && cx < x) {
                        open_cell(*map, cx, cy)
                    } else {
                        before[cy]@[cx]
                    }),
            decreases map.width - x,
        {
            let cell = cells[y][x];
            assert(cell == before[y as int]@[x as int]);
            // Nothing grows on roads or on a landmark's tiles.
            if cell.ground != Ground::Road && !map.is_poi_tile(x, y) {
                let overlay = decorate(map.biome_at(x, y), hash(x, y));
                set_cell(cells, x, y, Cell { ground: cell.ground, overlay });
            }
            x = x + 1;
        }
        y = y + 1;
    }
}

/// Stamps a landmark's surroundings: walkable road, with a marker in the
/// middle where the landmark has no illustration.
fn stamp_poi(poi: &PointOfInterest, width: usize, height: usize, cells: &mut Vec<Vec<Cell>>)
    requires
        grid_shape(old(cells)@, width as int, height as int),
    ensures
        grid_shape(final(cells)@, width as int, height as int),
        forall|x: int, y: int|
            0 <= x < width && 0 <= y < height ==> #[trigger] final(cells)@[y]@[x] == (
            if poi_covers(*poi, width as int, height as int, x, y) {
                poi_cell(*poi, x, y)
            } else {
                old(cells)@[y]@[x]
            }),
{
    if poi.x >= width || poi.y >= height {
        return ;
    }
    let has_custom_sprite = super::tilemap::poi_sprite_path(poi.poi_type).is_some();
    let left: usize = if poi.x == 0 {
        0
    } else {
        poi.x - 1
    };
    let right: usize = if poi.x == width - 1 {
        poi.x
    } else {
        poi.x + 1
    };
    let top: usize = if poi.y == 0 {
        0
    } else {
        poi.y - 1
    };
    let bottom: usize = if poi.y == height - 1 {
        poi.y
    } else {
        poi.y + 1
    };
    let ghost before = cells@;
    let mut y: usize = top;
    while y <= bottom
        invariant
            top <= y <= bottom + 1,
            bottom < height,
            left <= right < width,
            poi.x < width,
            poi.y < height,
            left == (if poi.x == 0 { 0 } else { poi.x - 1 }),
            right == (if poi.x == width - 1 { poi.x as int } else { poi.x + 1 }),
            top == (if poi.y == 0 { 0 } else { poi.y - 1 }),
            bottom == (if poi.y == height - 1 { poi.y as int } else { poi.y + 1 }),
            has_custom_sprite == poi_has_illustration(poi.poi_type),
            grid_shape(cells@, width as int, height as int),
            forall|cx: int, cy: int|
                0 <= cx < width && 0 <= cy < height ==> #[trigger] cells@[cy]@[cx] == (if cy < y
                    && poi_covers(*poi, width as int, height as int, cx, cy) {
                    poi_cell(*poi, cx, cy)
                } else {
                    before[cy]@[cx]
                }),
        decreases bottom + 1 - y,
    {
        let mut x: usize = left;
        while x <= right
            invariant
                left <= x <= right + 1,
                top <= y <= bottom,
                bottom < height,
                left <= right < width,
                poi.x < width,
                poi.y < height,
                left == (if poi.x == 0 { 0 } else { poi.x - 1 }),
                right == (if poi.x == width - 1 { poi.x as int } else { poi.x + 1 }),
                top == (if poi.y == 0 { 0 } else { poi.y - 1 }),
                bottom == (if poi.y == height - 1 { poi.y as int } else { poi.y + 1 }),
                has_custom_sprite == poi_has_illustration(poi.poi_type),
                grid_shape(cells@, width as int, height as int),
                forall|cx: int, cy: int|
                    0 <= cx < width && 0 <= cy < height ==> #[trigger] cells@[cy]@[cx] == (if (cy
                        < y || (cy == y && cx < x)) && poi_covers(
                        *poi,
                        width as int,
                        height as int,
                        cx,
                        cy,
                    ) {
                        poi_cell(*poi, cx, cy)
                    } else {
                        before[cy]@[cx]
                    }),
            decreases right + 1 - x,
        {
            let overlay = if x == poi.x && y == poi.y && !has_custom_sprite {
                Some(Overlay::Village)
            } else {
                None
            };
            set_cell(cells, x, y, Cell { ground: Ground::Road, overlay });
            x = x + 1;
        }
        y = y + 1;
    }
}

impl WorldGrid {
    /// The cells cover the map.
    pub open spec fn wf(&self) -> bool {
        &&& self.map.wf()
        &&& self.width == self.map.width
        &&& self.height == self.map.height
        &&& self.cells.len() == self.height
        &&& forall|y: int| 0 <= y < self.height ==> (#[trigger] self.cells@[y])@.len() == self.width
    }

    /// Terrain of a tile; everything beyond the map is water.
    pub open spec fn terrain_at(&self, x: int, y: int) -> Terrain {
        if 0 <= x < self.width && 0 <= y < self.height {
            Terrain { ground: self.cells@[y]@[x].ground, overlay: self.cells@[y]@[x].overlay }
        } else {
            Terrain { ground: Ground::Water, overlay: None }
        }
    }

    /// Builds the grid over the map generated for the world's seed.
    ///
    /// Biomes give the ground and roads are carved into it. Trees and rocks
    /// grow on open ground. Landmarks come last: the 3x3 tiles around each are
    /// made walkable, and the center is marked unless the landmark has an
    /// illustration of its own.
    pub fn from_seed(map: WorldMap) -> (grid: WorldGrid)
        requires
            map.wf(),
        ensures
            grid.wf(),
            grid.map == map,
            forall|x: int, y: int|
                map.contains(x, y) ==> #[trigger] grid.cells@[y]@[x] == generated_cell(
                    map,
                    map.pois.len() as int,
                    x,
                    y,
                ),
    {
        let mut cells = lay_ground(&map);
        carve_roads(&map, &mut cells);
        place_decorations(&map, &mut cells);
        let mut i: usize = 0;
        while i < map.pois.len()
            invariant
                map.wf(),
                i <= map.pois.len(),
                grid_shape(cells@, map.width as int, map.height as int),
                forall|x: int, y: int|
                    map.contains(x, y) ==> #[trigger] cells@[y]@[x] == generated_cell(
                        map,
                        i as int,
                        x,
                        y,
                    ),
            decreases map.pois.len() - i,
        {
            stamp_poi(&map.pois[i], map.width, map.height, &mut cells);
            i = i + 1;
        }
        WorldGrid { cells, width: map.width, height: map.height, map }
    }

    /// Terrain of a tile. Beyond the map everything is water.
    pub fn get(&self, x: usize, y: usize) -> (terrain: Terrain)
        requires
            self.wf(),
        ensures
            terrain == self.terrain_at(x as int, y as int),
    {
        if x < self.width && y < self.height {
            self.cells[y][x].terrain()
        } else {
            Terrain { ground: Ground::Water, overlay: None }
        }
    }

    pub fn get_ground(&self, x: usize, y: usize) -> (ground: Ground)
        requires
            self.wf(),
        ensures
            ground == self.terrain_at(x as int, y as int).ground,
    {
        if x < self.width && y < self.height {
            self.cells[y][x].ground
        } else {
            Ground::Water
        }
    }

    /// Meters that the server charges for a tile; tiles beyond the map cannot
    /// be walked on.
    pub open spec fn server_cost(&self, x: int, y: int) -> u32 {
        if 0 <= x < self.width && 0 <= y < self.height {
            self.map.step_cost(x, y)
        } else {
            u32::MAX
        }
    }

    /// Movement cost matching the server's calculation.
    /// MUST be used for position computation to stay in sync with the game
    /// master.
    pub fn server_tile_cost(&self, x: usize, y: usize) -> (cost: u32)
        requires
            self.wf(),
        ensures
            cost == self.server_cost(x as int, y as int),
    {
        if x < self.width && y < self.height {
            let slot: usize = self.map.slot(x, y);
            self.map.step_costs[slot]
        } else {
            u32::MAX
        }
    }

    /// World position of a tile's center in pixels, y pointing up.
    pub fn tile_to_world(x: usize, y: usize) -> (pos: (i64, i64))
        requires
            x <= u32::MAX,
            y <= u32::MAX,
        ensures
            pos.0 == x * TILE_PX,
            pos.1 == -(y * TILE_PX),
    {
        (x as i64 * 16, -(y as i64 * 16))
    }

    /// Tile under a world position. The position comes as whole pixels right
    /// of and below the corner of tile (0, 0), which lies half a tile up and
    /// left of its center; positions beyond the map give its nearest tile.
    pub fn world_to_tile(&self, right: i64, down: i64) -> (tile: (usize, usize))
        requires
            self.wf(),
        ensures
            tile.0 == tile_under(right as int, self.width as int),
            tile.1 == tile_under(down as int, self.height as int),
            tile.0 < self.width,
            tile.1 < self.height,
    {
        (clamp_tile(right, self.width), clamp_tile(down, self.height))
    }
}

fn clamp_tile(px: i64, count: usize) -> (tile: usize)
    requires
        count > 0,
    ensures
        tile == tile_under(px as int, count as int),
        tile < count,
{
    if px < 0 {
        return 0;
    }
    let tile: u64 = px as u64 / 16;
    if tile < count as u64 {
        tile as usize
    } else {
        count - 1
    }
}

/// The tile found under the center of a tile, seen from the map's corner, is
/// that tile.
pub proof fn tile_found_at_its_center(grid: WorldGrid, x: int, y: int)
    requires
        grid.wf(),
        0 <= x < grid.width,
        0 <= y < grid.height,
    ensures
        tile_under(x * TILE_PX + TILE_PX / 2, grid.width as int) == x,
        tile_under(y * TILE_PX + TILE_PX / 2, grid.height as int) == y,
{
}

/// Nothing beyond the map can be walked on.
pub proof fn beyond_the_map_is_impassable(grid: WorldGrid, x: int, y: int)
    requires
        !grid.map.contains(x, y),
        grid.wf(),
    ensures
        !super::terrain_passable(grid.terrain_at(x, y)),
        grid.server_cost(x, y) == u32::MAX,
{
}

/// Every tile of a landmark's surroundings, and every tile of a road, is road
/// in the generated grid.
pub proof fn landmarks_and_roads_are_road(map: WorldMap, x: int, y: int)
    requires
        map.wf(),
        map.contains(x, y),
        on_road(map.roads@, x, y) || exists|i: int|
            0 <= i < map.pois.len() && #[trigger] poi_covers(
                map.pois@[i],
                map.width as int,
                map.height as int,
                x,
                y,
            ),
    ensures
        generated_cell(map, map.pois.len() as int, x, y).ground == Ground::Road,
{
    lemma_generated_road(map, map.pois.len() as int, x, y);
}

proof fn lemma_generated_road(map: WorldMap, count: int, x: int, y: int)
    requires
        map.contains(x, y),
        0 <= count <= map.pois.len(),
        on_road(map.roads@, x, y) || exists|i: int|
            0 <= i < count && #[trigger] poi_covers(
                map.pois@[i],
                map.width as int,
                map.height as int,
                x,
                y,
            ),
    ensures
        generated_cell(map, count, x, y).ground == Ground::Road,
    decreases count,
{
    if count > 0 && !poi_covers(map.pois@[count - 1], map.width as int, map.height as int, x, y) {
        lemma_generated_road(map, count - 1, x, y);
    }
}

/// Every tile of a landmark's surroundings can be walked on, and an overlay
/// only stands there in the middle of a landmark that has no illustration.
pub proof fn nothing_under_illustrations(map: WorldMap, x: int, y: int)
    requires
        map.wf(),
        map.contains(x, y),
        exists|i: int|
            0 <= i < map.pois.len() && #[trigger] poi_covers(
                map.pois@[i],
                map.width as int,
                map.height as int,
                x,
                y,
            ),
    ensures
        ({
            let cell = generated_cell(map, map.pois.len() as int, x, y);
            &&& super::terrain_passable(Terrain { ground: cell.ground, overlay: cell.overlay })
            &&& cell.overlay is None || exists|i: int|
                0 <= i < map.pois.len() && is_bare_center(#[trigger] map.pois@[i], x, y)
        }),
{
    lemma_generated_road(map, map.pois.len() as int, x, y);
    lemma_generated_overlay(map, map.pois.len() as int, x, y);
}

/// The tile is the middle of a landmark without an illustration.
pub open spec fn is_bare_center(poi: PointOfInterest, x: int, y: int) -> bool {
    poi.x == x && poi.y == y && super::tilemap::illustration(poi.poi_type) is None
}

proof fn lemma_generated_overlay(map: WorldMap, count: int, x: int, y: int)
    requires
        0 <= count <= map.pois.len(),
        exists|i: int|
            0 <= i < count && #[trigger] poi_covers(
                map.pois@[i],
                map.width as int,
                map.height as int,
                x,
                y,
            ),
    ensures
        generated_cell(map, count, x, y).overlay is None || exists|i: int|
            0 <= i < count && is_bare_center(#[trigger] map.pois@[i], x, y),
    decreases count,
{
    let last = map.pois@[count - 1];
    if poi_covers(last, map.width as int, map.height as int, x, y) {
        if generated_cell(map, count, x, y).overlay is Some {
            assert(is_bare_center(map.pois@[count - 1], x, y));
        }
    } else {
        lemma_generated_overlay(map, count - 1, x, y);
    }
}

/// The generated grid lays no lava.
pub proof fn no_lava_is_generated(map: WorldMap, count: int, x: int, y: int)
    ensures
        generated_cell(map, count, x, y).ground != Ground::Lava,
    decreases count,
{
    if count > 0 {
        no_lava_is_generated(map, count - 1, x, y);
    }
}

/// The server charges for a tile of the map what its own table says for that
/// tile, and nothing else.
pub proof fn server_charges_by_its_table(grid: WorldGrid, x: int, y: int)
    requires
        grid.wf(),
        0 <= x < grid.width,
        0 <= y < grid.height,
    ensures
        grid.server_cost(x, y) == grid.map.step_costs@[y * grid.width + x],
{
}

/// The terrain of a tile is what stands in its row and column, and open water
/// beyond the map.
pub proof fn terrain_stands_in_its_cell(grid: WorldGrid, x: int, y: int)
    ensures
        0 <= x < grid.width && 0 <= y < grid.height ==> {
            &&& grid.terrain_at(x, y).ground == grid.cells@[y]@[x].ground
            &&& grid.terrain_at(x, y).overlay == grid.cells@[y]@[x].overlay
        },
        !(0 <= x < grid.width && 0 <= y < grid.height) ==> {
            &&& grid.terrain_at(x, y).ground == Ground::Water
            &&& grid.terrain_at(x, y).overlay is None
        },
{
}

/// Open land lies on the ground of its biome: all woods and meadows on grass,
/// deserts on sand, and so on; only the two kinds of water are water.
pub proof fn land_lies_on_its_biome(map: WorldMap, x: int, y: int)
    requires
        map.wf(),
        map.contains(x, y),
        forall|i: int, j: int|
            0 <= i < map.roads.len() && 0 <= j < (#[trigger] map.roads@[i])@.len()
                ==> #[trigger] map.roads@[i]@[j] != (x as usize, y as usize),
        forall|i: int|
            0 <= i < map.pois.len() ==> {
                let poi = #[trigger] map.pois@[i];
                poi.x >= map.width || poi.y >= map.height || x < poi.x - 1 || x > poi.x + 1 || y
                    < poi.y - 1 || y > poi.y + 1
            },
    ensures
        ({
            let biome = map.biomes@[y * map.width + x];
            let cell = generated_cell(map, map.pois.len() as int, x, y);
            &&& cell.ground == Ground::Grass <==> biome == Biome::Grassland || biome
                == Biome::Forest || biome == Biome::DenseForest
            &&& cell.ground == Ground::Mountain <==> biome == Biome::Mountain
            &&& cell.ground == Ground::Sand <==> biome == Biome::Desert
            &&& cell.ground == Ground::Snow <==> biome == Biome::Snow
            &&& cell.ground == Ground::Swamp <==> biome == Biome::Swamp
            &&& cell.ground == Ground::Water <==> biome == Biome::Water || biome
                == Biome::DeepWater
            &&& cell.ground != Ground::Road
            &&& map.on_poi@[y * map.width + x] ==> cell.overlay is None
            &&& !map.on_poi@[y * map.width + x] ==> {
                let h = scrambled(((x * 374761393 + y * 668265263) % 0x1_0000_0000) as u32);
                &&& cell.overlay == Some(Overlay::Tree) <==> (biome == Biome::Forest && h % 3 != 0)
                    || (biome == Biome::DenseForest && h % 4 != 0) || (biome == Biome::Grassland
                    && h % 12 == 0)
                &&& cell.overlay == Some(Overlay::Rock) <==> biome == Biome::Mountain && h % 4 == 0
                &&& cell.overlay == Some(Overlay::PineTree) <==> biome == Biome::Snow && h % 6 == 0
                &&& cell.overlay != Some(Overlay::Bridge) && cell.overlay != Some(
                    Overlay::Village,
                ) && cell.overlay != Some(Overlay::DenseTree) && cell.overlay != Some(
                    Overlay::CaveEntrance,
                )
            }
        }),
{
    lemma_untouched(map, map.pois.len() as int, x, y);
}

proof fn lemma_untouched(map: WorldMap, count: int, x: int, y: int)
    requires
        0 <= count <= map.pois.len(),
        forall|i: int|
            0 <= i < count ==> !poi_covers(
                #[trigger] map.pois@[i],
                map.width as int,
                map.height as int,
                x,
                y,
            ),
    ensures
        generated_cell(map, count, x, y) == open_cell(map, x, y),
    decreases count,
{
    if count > 0 {
        lemma_untouched(map, count - 1, x, y);
    }
}

/// Every step of every road is bare road unless a landmark stands there, and so
/// are the nine tiles at and around every landmark, which stand above roads: of
/// two landmarks that meet, the later one decides.
pub proof fn roads_and_landmarks_shape_the_land(map: WorldMap, i: int, x: int, y: int)
    requires
        map.wf(),
        map.contains(x, y),
        0 <= i < map.pois.len(),
        map.pois@[i].x < map.width,
        map.pois@[i].y < map.height,
        -1 <= x - map.pois@[i].x <= 1,
        -1 <= y - map.pois@[i].y <= 1,
        forall|k: int|
            i < k < map.pois.len() ==> {
                let poi = #[trigger] map.pois@[k];
                poi.x >= map.width || poi.y >= map.height || x < poi.x - 1 || x > poi.x + 1 || y
                    < poi.y - 1 || y > poi.y + 1
            },
    ensures
        ({
            let cell = generated_cell(map, map.pois.len() as int, x, y);
            let poi = map.pois@[i];
            &&& cell.ground == Ground::Road
            &&& cell.overlay is Some <==> x == poi.x && y == poi.y && poi.poi_type == PoiType::Port
            &&& cell.overlay is Some ==> cell.overlay == Some(Overlay::Village)
        }),
{
    lemma_last_landmark(map, i, map.pois.len() as int, x, y);
}

proof fn lemma_last_landmark(map: WorldMap, i: int, count: int, x: int, y: int)
    requires
        0 <= i < count <= map.pois.len(),
        poi_covers(map.pois@[i], map.width as int, map.height as int, x, y),
        forall|k: int|
            i < k < count ==> !poi_covers(
                #[trigger] map.pois@[k],
                map.width as int,
                map.height as int,
                x,
                y,
            ),
    ensures
        generated_cell(map, count, x, y) == poi_cell(map.pois@[i], x, y),
    decreases count,
{
    if count - 1 > i {
        lemma_last_landmark(map, i, count - 1, x, y);
    }
}

/// Every step of a road is walkable at a road's meters, whatever biome it
/// crosses, unless a landmark stands there.
pub proof fn roads_are_short(map: WorldMap, i: int, j: int)
    requires
        map.wf(),
        0 <= i < map.roads.len(),
        0 <= j < map.roads@[i].len(),
        map.contains(map.roads@[i]@[j].0 as int, map.roads@[i]@[j].1 as int),
    ensures
        ({
            let (x, y) = map.roads@[i]@[j];
            let cell = generated_cell(map, map.pois.len() as int, x as int, y as int);
            let cost = super::terrain_cost(Terrain { ground: cell.ground, overlay: cell.overlay });
            cell.ground == Ground::Road && (cost == 100 || cost == 150)
        }),
{
    let (x, y) = map.roads@[i]@[j];
    assert(map.roads@[i]@[j] == (x as int as usize, y as int as usize));
    assert(on_road(map.roads@, x as int, y as int));
    lemma_generated_road(map, map.pois.len() as int, x as int, y as int);
    lemma_overlay_on_road(map, map.pois.len() as int, x as int, y as int);
}

proof fn lemma_overlay_on_road(map: WorldMap, count: int, x: int, y: int)
    requires
        0 <= count <= map.pois.len(),
        on_road(map.roads@, x, y),
    ensures
        ({
            let overlay = generated_cell(map, count, x, y).overlay;
            overlay is None || overlay == Some(Overlay::Village)
        }),
    decreases count,
{
    if count > 0 {
        lemma_overlay_on_road(map, count - 1, x, y);
    }
}

/// A tile takes in the sixteen pixels from its own edge on; what lies beyond
/// the map belongs to its nearest tile.
pub proof fn tiles_are_sixteen_pixels(px: int, count: int)
    requires
        count > 0,
    ensures
        ({
            let tile = tile_under(px, count);
            &&& 0 <= tile < count
            &&& 0 <= px < count * 16 ==> tile * 16 <= px < tile * 16 + 16
            &&& px < 0 ==> tile == 0
            &&& px >= count * 16 ==> tile == count - 1
        }),
{
}

/// Numbers of up to thirteen bits are only multiplied, and the upper half of
/// the product is mixed into the lower one.
pub proof fn small_numbers_are_multiplied(h: u32)
    requires
        h < 0x2000,
    ensures
        ({
            let product = (h * 1274126177) % 0x1_0000_0000;
            &&& scrambled(h) / 0x1_0000 == product / 0x1_0000
            &&& scrambled(h) == (product as u32) ^ ((product / 0x1_0000) as u32)
        }),
{
    assert(h >> 13u32 == 0) by (bit_vector)
        requires
            h < 0x2000,
    ;
    assert(h ^ 0u32 == h) by (bit_vector);
    let mixed = ((h * 1274126177) % 0x1_0000_0000) as u32;
    assert(mixed >> 16u32 == mixed / 0x1_0000) by (bit_vector);
    assert((mixed ^ (mixed >> 16u32)) / 0x1_0000 == mixed / 0x1_0000) by (bit_vector);
}

} // verus!
