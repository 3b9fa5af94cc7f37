//! Data for the ground shader: biome codes, distance to water, the tile mesh.

use vstd::prelude::*;

use super::world_map::{biome_hundredths, Biome, WorldMap};
use crate::reconcile::{layer_step, manage_layer, LayerAction};

verus! {

/// Shape of a feature of the test grid, around the middle of its cell.
#[derive(Debug, Clone, Copy, PartialEq, Eq, Structural)]
pub enum Shape {
    Single,
    StripAcross,
    StripDown,
    Cluster,
    Column,
    Corner,
    Plus,
}

/// The shape takes in the tile at that offset from the middle of its cell.
pub open spec fn shape_covers(shape: Shape, dx: int, dy: int) -> bool {
    match shape {
        Shape::Single => dx == 0 && dy == 0,
        Shape::StripAcross => 0 <= dx <= 1 && dy == 0,
        Shape::StripDown => dx == 0 && 0 <= dy <= 1,
        Shape::Cluster => 0 <= dx <= 1 && 0 <= dy <= 1,
        Shape::Column => dx == 0 && -1 <= dy <= 1,
        Shape::Corner => (dx == 0 && -1 <= dy <= 0) || (dx == 1 && dy == 0),
        Shape::Plus => (dx == 0 && -1 <= dy <= 1) || (dy == 0 && -1 <= dx <= 1),
    }
}

/// Background of a cell of the test grid: grass above, then a band each of
/// water, sand and snow, and swamp in the right half of the last row.
pub open spec fn cell_background(col: int, row: int) -> Biome {
    if row == 4 && 0 <= col < 6 {
        Biome::Water
    } else if row == 5 && 0 <= col < 6 {
        Biome::Desert
    } else if row == 6 && 0 <= col < 6 {
        Biome::Snow
    } else if row == 7 && 3 <= col < 6 {
        Biome::Swamp
    } else {
        Biome::Grassland
    }
}

/// The three features that are tried on grass.
pub open spec fn grass_feature(i: int) -> Biome {
    if i == 0 {
        Biome::Water
    } else if i == 1 {
        Biome::Desert
    } else {
        Biome::Snow
    }
}

/// Feature of a cell of the test grid.
pub open spec fn cell_feature(col: int, row: int) -> Option<(Biome, Shape)> {
    if !(0 <= col < 6 && 0 <= row < 8) {
        None
    } else if row < 4 && col < 3 {
        Some(
            (
                grass_feature(col),
                if row == 0 {
                    Shape::Single
                } else if row == 1 {
                    Shape::StripAcross
                } else if row == 2 {
                    Shape::Cluster
                } else {
                    Shape::Column
                },
            ),
        )
    } else if row < 3 {
        Some(
            (
                grass_feature(row),
                if col == 3 {
                    Shape::Corner
                } else if col == 4 {
                    Shape::Plus
                } else {
                    Shape::StripDown
                },
            ),
        )
    } else if row == 3 {
        None
    } else if row == 4 {
        Some(
            (
                if col % 3 == 0 {
                    Biome::Desert
                } else if col % 3 == 1 {
                    Biome::Snow
                } else {
                    Biome::Grassland
                },
                if col < 3 {
                    Shape::Single
                } else {
                    Shape::StripDown
                },
            ),
        )
    } else if row == 5 {
        Some(
            (
                if col % 3 == 0 {
                    Biome::Water
                } else if col % 3 == 1 {
                    Biome::Snow
                } else {
                    Biome::Grassland
                },
                if col < 3 {
                    Shape::Single
                } else {
                    Shape::Column
                },
            ),
        )
    } else if row == 6 {
        Some(
            (
                if col % 3 == 0 {
                    Biome::Water
                } else if col % 3 == 1 {
                    Biome::Desert
                } else {
                    Biome::Grassland
                },
                if col < 3 {
                    Shape::Single
                } else {
                    Shape::Cluster
                },
            ),
        )
    } else if col < 3 {
        Some(
            (
                Biome::Swamp,
                if col == 0 {
                    Shape::Single
                } else if col == 1 {
                    Shape::StripAcross
                } else {
                    Shape::Cluster
                },
            ),
        )
    } else {
        Some(
            (
                if col == 3 {
                    Biome::Grassland
                } else if col == 4 {
                    Biome::Desert
                } else {
                    Biome::Snow
                },
                Shape::Single,
            ),
        )
    }
}

/// Biome of a tile of the test grid, whose cells of nine tiles each way start
/// two tiles from the map's corner: the cell's feature where it lies, else
/// its background.
pub open spec fn test_biome(x: int, y: int) -> Biome {
    if x < 2 || y < 2 {
        Biome::Grassland
    } else {
        let col = (x - 2) / 9;
        let row = (y - 2) / 9;
        match cell_feature(col, row) {
            Some((biome, shape)) => if shape_covers(shape, (x - 2) % 9 - 4, (y - 2) % 9 - 4) {
                biome
            } else {
                cell_background(col, row)
            },
            None => cell_background(col, row),
        }
    }
}

fn covers(shape: Shape, dx: i64, dy: i64) -> (yes: bool)
    ensures
        yes == shape_covers(shape, dx as int, dy as int),
{
    match shape {
        Shape::Single => dx == 0 && dy == 0,
        Shape::StripAcross => 0 <= dx && dx <= 1 && dy == 0,
        Shape::StripDown => dx == 0 && 0 <= dy && dy <= 1,
        Shape::Cluster => 0 <= dx && dx <= 1 && 0 <= dy && dy <= 1,
        Shape::Column => dx == 0 && -1 <= dy && dy <= 1,
        Shape::Corner => (dx == 0 && -1 <= dy && dy <= 0) || (dx == 1 && dy == 0),
        Shape::Plus => (dx == 0 && -1 <= dy && dy <= 1) || (dy == 0 && -1 <= dx && dx <= 1),
    }
}

fn background(col: usize, row: usize) -> (biome: Biome)
    ensures
        biome == cell_background(col as int, row as int),
{
    if row == 4 && col < 6 {
        Biome::Water
    } else if row == 5 && col < 6 {
        Biome::Desert
    } else if row == 6 && col < 6 {
        Biome::Snow
    } else if row == 7 && 3 <= col && col < 6 {
        Biome::Swamp
    } else {
        Biome::Grassland
    }
}

/// One of three, by the remainder of the column.
fn pick(col: usize, first: Biome, second: Biome, third: Biome) -> (biome: Biome)
    ensures
        biome == (if col % 3 == 0 {
            first
        } else if col % 3 == 1 {
            second
        } else {
            third
        }),
{
    if col % 3 == 0 {
        first
    } else if col % 3 == 1 {
        second
    } else {
        third
    }
}

fn feature(col: usize, row: usize) -> (found: Option<(Biome, Shape)>)
    ensures
        found == cell_feature(col as int, row as int),
{
    if col >= 6 || row >= 8 {
        return None;
    }
    if row < 4 && col < 3 {
        let biome = pick(col, Biome::Water, Biome::Desert, Biome::Snow);
        let shape = match row {
            0 => Shape::Single,
            1 => Shape::StripAcross,
            2 => Shape::Cluster,
            _ => Shape::Column,
        };
        return Some((biome, shape));
    }
    if row < 3 {
        let biome = pick(row, Biome::Water, Biome::Desert, Biome::Snow);
        let shape = match col {
            3 => Shape::Corner,
            4 => Shape::Plus,
            _ => Shape::StripDown,
        };
        return Some((biome, shape));
    }
    match row {
        3 => None,
        4 => {
            let biome = pick(col, Biome::Desert, Biome::Snow, Biome::Grassland);
            Some(
                (
                    biome,
                    if col < 3 {
                        Shape::Single
                    } else {
                        Shape::StripDown
                    },
                ),
            )
        },
        5 => {
            let biome = pick(col, Biome::Water, Biome::Snow, Biome::Grassland);
            Some(
                (
                    biome,
                    if col < 3 {
                        Shape::Single
                    } else {
                        Shape::Column
                    },
                ),
            )
        },
        6 => {
            let biome = pick(col, Biome::Water, Biome::Desert, Biome::Grassland);
            Some(
                (
                    biome,
                    if col < 3 {
                        Shape::Single
                    } else {
                        Shape::Cluster
                    },
                ),
            )
        },
        _ => {
            if col < 3 {
                let shape = match col {
                    0 => Shape::Single,
                    1 => Shape::StripAcross,
                    _ => Shape::Cluster,
                };
                Some((Biome::Swamp, shape))
            } else {
                Some((pick(col, Biome::Grassland, Biome::Desert, Biome::Snow), Shape::Single))
            }
        },
    }
}

fn tile_of_test_grid(x: usize, y: usize) -> (biome: Biome)
    ensures
        biome == test_biome(x as int, y as int),
{
    if x < 2 || y < 2 {
        return Biome::Grassland;
    }
    let col: usize = (x - 2) / 9;
    let row: usize = (y - 2) / 9;
    let dx: i64 = ((x - 2) % 9) as i64 - 4;
    let dy: i64 = ((y - 2) % 9) as i64 - 4;
    match feature(col, row) {
        Some((biome, shape)) => if covers(shape, dx, dy) {
            biome
        } else {
            background(col, row)
        },
        None => background(col, row),
    }
}

/// Synthetic biome layout for the test grid, one biome code per tile. Each
/// cell shows one shape in one combination of biomes.
pub fn generate_test_biome_texture(w: usize, h: usize) -> (data: Vec<u8>)
    requires
        w * h <= usize::MAX,
    ensures
        data.len() == w * h,
        forall|x: int, y: int|
            0 <= x < w && 0 <= y < h ==> data@[#[trigger] super::world_map::tile_slot(
                w as int,
                x,
                y,
            )] == super::world_map::biome_code(test_biome(x, y)),
{
    let mut data: Vec<u8> = Vec::new();
    let mut i: usize = 0;
    while i < w * h
        invariant
            w * h <= usize::MAX,
            i <= w * h,
            data.len() == i,
            forall|x: int, y: int|
                0 <= x < w && 0 <= y < h && super::world_map::tile_slot(w as int, x, y) < i
                    ==> data@[#[trigger] super::world_map::tile_slot(w as int, x, y)]
                    == super::world_map::biome_code(test_biome(x, y)),
        decreases w * h - i,
    {
        proof {
            super::world_map::lemma_slot_onto_nonempty(w as int, h as int, i as int);
        }
        let biome = tile_of_test_grid(i % w, i / w);
        data.push(biome.code());
        proof {
            assert forall|x: int, y: int|
                0 <= x < w && 0 <= y < h && super::world_map::tile_slot(w as int, x, y) < i
                    + 1 implies data@[#[trigger] super::world_map::tile_slot(w as int, x, y)]
                == super::world_map::biome_code(test_biome(x, y)) by {
                super::world_map::lemma_tile_slot(w as int, h as int, x, y);
            }
        }
        i = i + 1;
    }
    proof {
        assert forall|x: int, y: int| 0 <= x < w && 0 <= y < h implies data@[
            #[trigger] super::world_map::tile_slot(w as int, x, y)] == super::world_map::biome_code(
            test_biome(x, y),
        ) by {
            super::world_map::lemma_tile_slot(w as int, h as int, x, y);
        }
    }
    data
}

/// One biome code per tile, row by row.
pub fn generate_biome_texture(map: &WorldMap) -> (data: Vec<u8>)
    requires
        map.wf(),
    ensures
        data.len() == map.biomes.len(),
        forall|i: int|
            0 <= i < data.len() ==> #[trigger] data@[i] == super::world_map::biome_code(
                map.biomes@[i],
            ),
{
    let mut data: Vec<u8> = Vec::new();
    let mut i: usize = 0;
    while i < map.biomes.len()
        invariant
            i <= map.biomes.len(),
            data.len() == i,
            forall|j: int|
                0 <= j < i ==> #[trigger] data@[j] == super::world_map::biome_code(map.biomes@[j]),
        decreases map.biomes.len() - i,
    {
        data.push(map.biomes[i].code());
        i = i + 1;
    }
    data
}

/// Coordinate of the point of a tile's side nearest to a position, both in
/// half pixels.
pub open spec fn nearest_on_side(pos: int, tile: int) -> int {
    if pos < tile * 32 {
        tile * 32
    } else if pos > tile * 32 + 32 {
        tile * 32 + 32
    } else {
        pos
    }
}

/// The tile lies on the map and is water.
pub open spec fn water_at(map: WorldMap, x: int, y: int) -> bool {
    map.contains(x, y) && super::world_map::biome_is_water(map.biome(x, y))
}

/// Way from a position to the nearest point of a tile, in half pixels.
pub open spec fn way_to_tile(x2: int, y2: int, tx: int, ty: int) -> (int, int) {
    (nearest_on_side(x2, tx) - x2, nearest_on_side(y2, ty) - y2)
}

/// Squared length of a way.
pub open spec fn squared(way: (int, int)) -> int {
    way.0 * way.0 + way.1 * way.1
}

/// Shortest way to water among the first `count` tiles of the 3x3 block around
/// the position's tile, row by row and without its middle; the first where
/// several are as short.
pub open spec fn shortest_way(map: WorldMap, x2: int, y2: int, count: int) -> Option<(int, int)>
    decreases count,
{
    if count <= 0 {
        None
    } else {
        let before = shortest_way(map, x2, y2, count - 1);
        let tx = x2 / 32 + (count - 1) % 3 - 1;
        let ty = y2 / 32 + (count - 1) / 3 - 1;
        if count - 1 != 4 && water_at(map, tx, ty) {
            let way = way_to_tile(x2, y2, tx, ty);
            match before {
                Some(b) => if squared(way) < squared(b) {
                    Some(way)
                } else {
                    before
                },
                None => Some(way),
            }
        } else {
            before
        }
    }
}

/// Way from a position on land to the nearest water next to its tile.
pub open spec fn way_to_water(map: WorldMap, x2: int, y2: int) -> Option<(int, int)> {
    if map.contains(x2 / 32, y2 / 32) && !water_at(map, x2 / 32, y2 / 32) {
        shortest_way(map, x2, y2, 9)
    } else {
        None
    }
}

/// The least number of whole pixels that is no shorter than a way.
pub open spec fn is_pixels_up(way: (int, int), pixels: int) -> bool {
    &&& 0 <= pixels
    &&& 4 * pixels * pixels >= squared(way)
    &&& forall|fewer: int| 0 <= fewer < pixels ==> #[trigger] (4 * fewer * fewer) < squared(way)
}

/// The byte of the distance field for a pixel: zero on water, the distance
/// from its middle to the nearest water rounded up, 255 where none is near.
pub open spec fn is_distance_byte(map: WorldMap, px: int, py: int, byte: u8) -> bool {
    if water_at(map, px / 16, py / 16) {
        byte == 0
    } else {
        match way_to_water(map, 2 * px + 1, 2 * py + 1) {
            Some(way) => is_pixels_up(way, byte as int),
            None => byte == 255,
        }
    }
}

fn clamp_side(pos: i64, tile: i64) -> (at: i64)
    requires
        -0x1_0000_0000 <= tile <= 0x1_0000_0000,
    ensures
        at == nearest_on_side(pos as int, tile as int),
{
    let low: i64 = tile * 32;
    let high: i64 = low + 32;
    if pos < low {
        low
    } else if pos > high {
        high
    } else {
        pos
    }
}

proof fn lemma_way_bounds(map: WorldMap, x2: int, y2: int, count: int)
    requires
        0 <= x2,
        0 <= y2,
        count <= 9,
    ensures
        shortest_way(map, x2, y2, count) matches Some(way) ==> -64 <= way.0 <= 64 && -64 <= way.1
            <= 64 && 0 <= squared(way) <= 8192,
    decreases count,
{
    if count > 0 {
        lemma_way_bounds(map, x2, y2, count - 1);
        let way = way_to_tile(
            x2,
            y2,
            x2 / 32 + (count - 1) % 3 - 1,
            y2 / 32 + (count - 1) / 3 - 1,
        );
        assert(-64 <= way.0 <= 64);
        assert(-64 <= way.1 <= 64);
        let a = way.0;
        let b = way.1;
        assert(0 <= a * a + b * b <= 8192) by (nonlinear_arith)
            requires
                -64 <= a <= 64,
                -64 <= b <= 64,
        ;
    }
}

/// Way from a position on land to the nearest water next to its tile, both in
/// half pixels. `None` on water, beyond the map, and away from water.
pub fn nearest_water_boundary(map: &WorldMap, x2: u32, y2: u32) -> (found: Option<(i32, i32)>)
    requires
        map.wf(),
    ensures
        match found {
            Some(way) => way_to_water(*map, x2 as int, y2 as int) == Some(
                (way.0 as int, way.1 as int),
            ),
            None => way_to_water(*map, x2 as int, y2 as int) is None,
        },
{
    let tile_x: usize = (x2 / 32) as usize;
    let tile_y: usize = (y2 / 32) as usize;
    if tile_x >= map.width || tile_y >= map.height {
        return None;
    }
    if map.biome_at(tile_x, tile_y).is_water() {
        return None;
    }
    let mut best: Option<(i32, i32)> = None;
    let mut k: u32 = 0;
    while k < 9
        invariant
            map.wf(),
            k <= 9,
            tile_x == x2 / 32,
            tile_y == y2 / 32,
            match best {
                Some(way) => shortest_way(*map, x2 as int, y2 as int, k as int) == Some(
                    (way.0 as int, way.1 as int),
                ),
                None => shortest_way(*map, x2 as int, y2 as int, k as int) is None,
            },
        decreases 9 - k,
    {
        let bx: i64 = tile_x as i64 + (k % 3) as i64 - 1;
        let by: i64 = tile_y as i64 + (k / 3) as i64 - 1;
        if k != 4 && 0 <= bx && (bx as u64) < map.width as u64 && 0 <= by && (by as u64)
            < map.height as u64 && map.biome_at(bx as usize, by as usize).is_water() {
            let dx: i64 = clamp_side(x2 as i64, bx) - x2 as i64;
            let dy: i64 = clamp_side(y2 as i64, by) - y2 as i64;
            proof {
                lemma_way_bounds(*map, x2 as int, y2 as int, k as int);
                assert(-64 <= dx <= 64);
                assert(-64 <= dy <= 64);
                assert(0 <= dx * dx <= 4096) by (nonlinear_arith)
                    requires
                        -64 <= dx <= 64,
                ;
                assert(0 <= dy * dy <= 4096) by (nonlinear_arith)
                    requires
                        -64 <= dy <= 64,
                ;
            }
            let better = match best {
                Some(way) => {
                    proof {
                        let a = way.0 as int;
                        let b = way.1 as int;
                        assert(0 <= a * a <= 4096) by (nonlinear_arith)
                            requires
                                -64 <= a <= 64,
                        ;
                        assert(0 <= b * b <= 4096) by (nonlinear_arith)
                            requires
                                -64 <= b <= 64,
                        ;
                    }
                    dx * dx + dy * dy < way.0 as i64 * way.0 as i64 + way.1 as i64 * way.1 as i64
                },
                None => true,
            };
            if better {
                best = Some((dx as i32, dy as i32));
            }
        }
        k = k + 1;
    }
    best
}

fn pixels_up(dx: i32, dy: i32) -> (pixels: u8)
    requires
        -64 <= dx <= 64,
        -64 <= dy <= 64,
    ensures
        is_pixels_up((dx as int, dy as int), pixels as int),
        pixels <= 46,
{
    proof {
        assert(0 <= dx * dx <= 4096) by (nonlinear_arith)
            requires
                -64 <= dx <= 64,
        ;
        assert(0 <= dy * dy <= 4096) by (nonlinear_arith)
            requires
                -64 <= dy <= 64,
        ;
    }
    let far: i32 = dx * dx + dy * dy;
    let mut pixels: i32 = 0;
    while 4 * pixels * pixels < far
        invariant
            0 <= pixels <= 46,
            far == squared((dx as int, dy as int)),
            far <= 8192,
            4 * pixels * pixels <= 8464,
            forall|fewer: int| 0 <= fewer < pixels ==> #[trigger] (4 * fewer * fewer) < far,
        decreases 46 - pixels,
    {
        assert(pixels <= 45) by (nonlinear_arith)
            requires
                4 * pixels * pixels < 8192,
                0 <= pixels,
        ;
        assert(4 * (pixels + 1) * (pixels + 1) <= 8464) by (nonlinear_arith)
            requires
                0 <= pixels <= 45,
        ;
        pixels = pixels + 1;
    }
    pixels as u8
}

/// The distance field over the whole map, one byte per pixel, row by row. Half
/// pixels are counted in 32 bits.
pub fn generate_water_distance(map: &WorldMap) -> (data: Vec<u8>)
    requires
        map.wf(),
        map.width * map.height * 256 <= usize::MAX,
        map.width * 32 - 1 <= u32::MAX,
        map.height * 32 - 1 <= u32::MAX,
    ensures
        data.len() == map.width * map.height * 256,
        forall|px: int, py: int|
            0 <= px < map.width * 16 && 0 <= py < map.height * 16 ==> is_distance_byte(
                *map,
                px,
                py,
                data@[#[trigger] super::textures::baked_index(map.width as int, px, py)],
            ),
{
    let pw: usize = map.width * 16;
    let ph: usize = map.height * 16;
    proof {
        assert(pw * ph == map.width * map.height * 256) by (nonlinear_arith)
            requires
                pw == map.width * 16,
                ph == map.height * 16,
        ;
    }
    let mut data: Vec<u8> = Vec::new();
    let mut i: usize = 0;
    while i < pw * ph
        invariant
            map.wf(),
            pw == map.width * 16,
            ph == map.height * 16,
            pw * ph <= usize::MAX,
            map.width * 32 - 1 <= u32::MAX,
            map.height * 32 - 1 <= u32::MAX,
            i <= pw * ph,
            data.len() == i,
            forall|px: int, py: int|
                0 <= px < pw && 0 <= py < ph && super::textures::baked_index(
                    map.width as int,
                    px,
                    py,
                ) < i ==> is_distance_byte(
                    *map,
                    px,
                    py,
                    data@[#[trigger] super::textures::baked_index(map.width as int, px, py)],
                ),
        decreases pw * ph - i,
    {
        proof {
            super::world_map::lemma_slot_onto_nonempty(pw as int, ph as int, i as int);
        }
        let px: usize = i % pw;
        let py: usize = i / pw;
        let byte: u8 = if map.biome_at(px / 16, py / 16).is_water() {
            0
        } else {
            let x2: u32 = 2 * px as u32 + 1;
            let y2: u32 = 2 * py as u32 + 1;
            assert(x2 / 32 == px / 16);
            assert(y2 / 32 == py / 16);
            match nearest_water_boundary(map, x2, y2) {
                Some((dx, dy)) => {
                    proof {
                        lemma_way_bounds(*map, x2 as int, y2 as int, 9);
                    }
                    pixels_up(dx, dy)
                },
                None => 255,
            }
        };
        assert(is_distance_byte(*map, px as int, py as int, byte));
        data.push(byte);
        proof {
            assert forall|qx: int, qy: int|
                0 <= qx < pw && 0 <= qy < ph && super::textures::baked_index(
                    map.width as int,
                    qx,
                    qy,
                ) < i + 1 implies is_distance_byte(
                *map,
                qx,
                qy,
                data@[#[trigger] super::textures::baked_index(map.width as int, qx, qy)],
            ) by {
                super::world_map::lemma_tile_slot(pw as int, ph as int, qx, qy);
                if super::textures::baked_index(map.width as int, qx, qy) == i {
                    super::world_map::lemma_slot_injective(
                        pw as int,
                        qx,
                        qy,
                        px as int,
                        py as int,
                    );
                }
            }
        }
        i = i + 1;
    }
    proof {
        assert forall|qx: int, qy: int| 0 <= qx < pw && 0 <= qy < ph implies is_distance_byte(
            *map,
            qx,
            qy,
            data@[#[trigger] super::textures::baked_index(map.width as int, qx, qy)],
        ) by {
            super::world_map::lemma_tile_slot(pw as int, ph as int, qx, qy);
        }
    }
    data
}

/// World position of a mesh vertex: corner `(vx, vy)` lies half a tile up and
/// left of the center of the tile with those coordinates.
fn vertex_position(vx: u32, vy: u32) -> (pos: (i64, i64))
    ensures
        pos.0 == vx * 16 - 8,
        pos.1 == -(vy * 16) + 8,
{
    (vx as i64 * 16 - 8, -(vy as i64 * 16) + 8)
}

/// Slots of the tiles of the map that share a vertex: the left ones before the
/// right ones, the upper before the lower.
pub open spec fn corner_slots(w: int, h: int, vx: int, vy: int) -> Seq<int> {
    let slot = |tx: int, ty: int|
        if 0 <= tx < w && 0 <= ty < h {
            seq![super::world_map::tile_slot(w, tx, ty)]
        } else {
            Seq::empty()
        };
    slot(vx - 1, vy - 1) + slot(vx - 1, vy) + slot(vx, vy - 1) + slot(vx, vy)
}

fn push_slot(slots: &mut Vec<usize>, w: usize, h: usize, tx: usize, ty: usize)
    requires
        w * h <= usize::MAX,
    ensures
        final(slots)@.map_values(|s: usize| s as int) == old(slots)@.map_values(|s: usize| s as int)
            + (if tx < w && ty < h {
            seq![super::world_map::tile_slot(w as int, tx as int, ty as int)]
        } else {
            Seq::empty()
        }),
{
    let ghost before = slots@.map_values(|s: usize| s as int);
    if tx < w && ty < h {
        proof {
            super::world_map::lemma_tile_slot(w as int, h as int, tx as int, ty as int);
        }
        slots.push(ty * w + tx);
        assert(slots@.map_values(|s: usize| s as int) =~= before + seq![
            super::world_map::tile_slot(w as int, tx as int, ty as int),
        ]);
    } else {
        assert(slots@.map_values(|s: usize| s as int) =~= before + Seq::<int>::empty());
    }
}

/// Slots of the tiles that share a vertex of the mesh.
fn corner_tiles(w: usize, h: usize, vx: usize, vy: usize) -> (slots: Vec<usize>)
    requires
        w * h <= usize::MAX,
    ensures
        slots@.map_values(|s: usize| s as int) == corner_slots(
            w as int,
            h as int,
            vx as int,
            vy as int,
        ),
{
    let mut slots: Vec<usize> = Vec::new();
    assert(slots@.map_values(|s: usize| s as int) =~= Seq::<int>::empty());
    if vx > 0 && vy > 0 {
        push_slot(&mut slots, w, h, vx - 1, vy - 1);
    }
    let ghost one = slots@.map_values(|s: usize| s as int);
    assert(vx == 0 || vy == 0 ==> one =~= Seq::empty());
    if vx > 0 {
        push_slot(&mut slots, w, h, vx - 1, vy);
    }
    if vy > 0 {
        push_slot(&mut slots, w, h, vx, vy - 1);
    }
    push_slot(&mut slots, w, h, vx, vy);
    assert(slots@.map_values(|s: usize| s as int) =~= corner_slots(
        w as int,
        h as int,
        vx as int,
        vy as int,
    ));
    slots
}

/// Vertex index of a corner of the mesh, which has one more vertex than tiles
/// each way.
pub open spec fn vertex_index(w: int, vx: int, vy: int) -> int {
    vy * (w + 1) + vx
}

/// The `k`-th index of a quad's two triangles: upper left, lower left, upper
/// right, and upper right, lower left, lower right.
pub open spec fn quad_index(w: int, tx: int, ty: int, k: int) -> int {
    if k == 0 {
        vertex_index(w, tx, ty)
    } else if k == 1 || k == 4 {
        vertex_index(w, tx, ty + 1)
    } else if k == 2 || k == 3 {
        vertex_index(w, tx + 1, ty)
    } else {
        vertex_index(w, tx + 1, ty + 1)
    }
}

/// The quad of a tile stands in the index list where its tile does.
pub open spec fn has_quad(indices: Seq<u32>, w: int, tx: int, ty: int) -> bool {
    let at = super::world_map::tile_slot(w, tx, ty) * 6;
    &&& 0 <= at <= indices.len() - 6
    &&& forall|k: int| 0 <= k < 6 ==> #[trigger] indices[at + k] == quad_index(w, tx, ty, k)
}

proof fn lemma_quad_kept(before: Seq<u32>, after: Seq<u32>, w: int, tx: int, ty: int)
    requires
        has_quad(before, w, tx, ty),
        before.len() <= after.len(),
        before == after.take(before.len() as int),
    ensures
        has_quad(after, w, tx, ty),
{
    let at = super::world_map::tile_slot(w, tx, ty) * 6;
    assert forall|k: int| 0 <= k < 6 implies #[trigger] after[at + k] == quad_index(
        w,
        tx,
        ty,
        k,
    ) by {
        assert(before[at + k] == quad_index(w, tx, ty, k));
    }
}

fn push_quad(indices: &mut Vec<u32>, w: u32, h: u32, tx: u32, ty: u32)
    requires
        (w + 1) * (h + 1) <= u32::MAX,
        tx < w,
        ty < h,
        old(indices).len() == super::world_map::tile_slot(w as int, tx as int, ty as int) * 6,
    ensures
        final(indices).len() == old(indices).len() + 6,
        old(indices)@ == final(indices)@.take(old(indices)@.len() as int),
        has_quad(final(indices)@, w as int, tx as int, ty as int),
{
    proof {
        assert((ty + 1) * (w + 1) <= h * (w + 1)) by (nonlinear_arith)
            requires
                ty < h,
        ;
        assert(h * (w + 1) + w + 1 == (w + 1) * (h + 1)) by (nonlinear_arith);
        assert(ty * (w + 1) + w + 1 == (ty + 1) * (w + 1)) by (nonlinear_arith);
    }
    let top_left: u32 = ty * (w + 1) + tx;
    let bottom_left: u32 = (ty + 1) * (w + 1) + tx;
    let ghost before = indices@;
    indices.push(top_left);
    indices.push(bottom_left);
    indices.push(top_left + 1);
    indices.push(top_left + 1);
    indices.push(bottom_left);
    indices.push(bottom_left + 1);
    assert(before =~= indices@.take(before.len() as int));
    let ghost at = before.len() as int;
    assert(indices@[at + 0] == quad_index(w as int, tx as int, ty as int, 0));
    assert(indices@[at + 1] == quad_index(w as int, tx as int, ty as int, 1));
    assert(indices@[at + 2] == quad_index(w as int, tx as int, ty as int, 2));
    assert(indices@[at + 3] == quad_index(w as int, tx as int, ty as int, 3));
    assert(indices@[at + 4] == quad_index(w as int, tx as int, ty as int, 4));
    assert(indices@[at + 5] == quad_index(w as int, tx as int, ty as int, 5));
}

/// Triangles of the quad grid, six indices per tile, row by row.
fn mesh_indices(w: u32, h: u32) -> (indices: Vec<u32>)
    requires
        (w + 1) * (h + 1) <= u32::MAX,
    ensures
        indices.len() == w * h * 6,
        forall|tx: int, ty: int|
            0 <= tx < w && 0 <= ty < h ==> #[trigger] has_quad(indices@, w as int, tx, ty),
{
    let mut indices: Vec<u32> = Vec::new();
    let mut ty: u32 = 0;
    while ty < h
        invariant
            (w + 1) * (h + 1) <= u32::MAX,
            ty <= h,
            indices.len() == ty * w * 6,
            forall|cx: int, cy: int|
                0 <= cx < w && 0 <= cy < ty ==> #[trigger] has_quad(indices@, w as int, cx, cy),
        decreases h - ty,
    {
        let mut tx: u32 = 0;
        while tx < w
            invariant
                (w + 1) * (h + 1) <= u32::MAX,
                ty < h,
                tx <= w,
                indices.len() == (ty * w + tx) * 6,
                forall|cx: int, cy: int|
                    0 <= cx < w && 0 <= cy && (cy < ty || (cy == ty && cx < tx))
                        ==> #[trigger] has_quad(indices@, w as int, cx, cy),
            decreases w - tx,
        {
            let ghost before = indices@;
            push_quad(&mut indices, w, h, tx, ty);
            proof {
                assert forall|cx: int, cy: int|
                    0 <= cx < w && 0 <= cy && (cy < ty || (cy == ty && cx < tx + 1)) implies
                    #[trigger] has_quad(indices@, w as int, cx, cy) by {
                    if cy < ty || cx < tx {
                        assert(has_quad(before, w as int, cx, cy));
                        lemma_quad_kept(before, indices@, w as int, cx, cy);
                    }
                }
            }
            tx = tx + 1;
        }
        assert((ty + 1) * w == ty * w + w) by (nonlinear_arith);
        ty = ty + 1;
    }
    assert(h * w == w * h) by (nonlinear_arith);
    indices
}

/// Every index of the mesh names one of its vertices.
pub proof fn mesh_indices_are_vertices(w: int, h: int, tx: int, ty: int, k: int)
    requires
        0 <= tx < w,
        0 <= ty < h,
        0 <= k < 6,
    ensures
        0 <= quad_index(w, tx, ty, k) < (w + 1) * (h + 1),
{
    super::world_map::lemma_tile_slot(w + 1, h + 1, tx, ty);
    super::world_map::lemma_tile_slot(w + 1, h + 1, tx + 1, ty);
    super::world_map::lemma_tile_slot(w + 1, h + 1, tx, ty + 1);
    super::world_map::lemma_tile_slot(w + 1, h + 1, tx + 1, ty + 1);
}

/// Height of the tallest of some tiles in hundredths; 0 for none.
pub open spec fn tallest(map: WorldMap, slots: Seq<int>) -> u8
    decreases slots.len(),
{
    if slots.len() == 0 {
        0
    } else {
        let before = tallest(map, slots.drop_last());
        let this = biome_hundredths(map.biomes@[slots.last()]);
        if this > before {
            this
        } else {
            before
        }
    }
}

/// A vertex of the ground mesh: its world position, and its height in
/// hundredths of the tallest biome's.
#[derive(Debug, Clone, Copy, PartialEq, Eq, Structural)]
pub struct MeshVertex {
    pub x: i64,
    pub y: i64,
    pub height: u8,
}

/// The vertex at a corner: as tall as the tallest tile that it touches.
pub open spec fn mesh_vertex(map: WorldMap, vx: int, vy: int) -> MeshVertex {
    MeshVertex {
        x: (vx * 16 - 8) as i64,
        y: (-(vy * 16) + 8) as i64,
        height: tallest(map, corner_slots(map.width as int, map.height as int, vx, vy)),
    }
}

/// The ground as a quad grid of shared vertices, two triangles per tile.
#[derive(Debug)]
pub struct TileMesh {
    pub vertices: Vec<MeshVertex>,
    pub indices: Vec<u32>,
}

fn corner_height(map: &WorldMap, vx: usize, vy: usize) -> (height: u8)
    requires
        map.wf(),
    ensures
        height == tallest(
            *map,
            corner_slots(map.width as int, map.height as int, vx as int, vy as int),
        ),
{
    let slots = corner_tiles(map.width, map.height, vx, vy);
    let ghost all = slots@.map_values(|s: usize| s as int);
    proof {
        lemma_corner_slots_in_map(map.width as int, map.height as int, vx as int, vy as int);
    }
    let mut height: u8 = 0;
    let mut i: usize = 0;
    assert(all.take(0) =~= Seq::empty());
    while i < slots.len()
        invariant
            map.wf(),
            i <= slots.len(),
            all == slots@.map_values(|s: usize| s as int),
            forall|k: int| 0 <= k < all.len() ==> 0 <= #[trigger] all[k] < map.width * map.height,
            height == tallest(*map, all.take(i as int)),
        decreases slots.len() - i,
    {
        proof {
            assert(all.take(i + 1).drop_last() =~= all.take(i as int));
            assert(all.take(i + 1).last() == all[i as int]);
            assert(all[i as int] == slots@[i as int]);
        }
        let this: u8 = map.biomes[slots[i]].height_hundredths();
        if this > height {
            height = this;
        }
        i = i + 1;
    }
    assert(all.take(i as int) =~= all);
    height
}

proof fn lemma_corner_slots_in_map(w: int, h: int, vx: int, vy: int)
    ensures
        forall|k: int|
            0 <= k < corner_slots(w, h, vx, vy).len() ==> 0 <= #[trigger] corner_slots(
                w,
                h,
                vx,
                vy,
            )[k] < w * h,
{
    if 0 <= vx - 1 < w && 0 <= vy - 1 < h {
        super::world_map::lemma_tile_slot(w, h, vx - 1, vy - 1);
    }
    if 0 <= vx - 1 < w && 0 <= vy < h {
        super::world_map::lemma_tile_slot(w, h, vx - 1, vy);
    }
    if 0 <= vx < w && 0 <= vy - 1 < h {
        super::world_map::lemma_tile_slot(w, h, vx, vy - 1);
    }
    if 0 <= vx < w && 0 <= vy < h {
        super::world_map::lemma_tile_slot(w, h, vx, vy);
    }
}

/// The vertex stands in the list where its corner does.
pub open spec fn has_vertex(
    vertices: Seq<MeshVertex>,
    map: WorldMap,
    vx: int,
    vy: int,
) -> bool {
    let at = vertex_index(map.width as int, vx, vy);
    &&& 0 <= at < vertices.len()
    &&& vertices[at] == mesh_vertex(map, vx, vy)
}

fn mesh_vertices(map: &WorldMap) -> (vertices: Vec<MeshVertex>)
    requires
        map.wf(),
        (map.width + 1) * (map.height + 1) <= u32::MAX,
    ensures
        vertices.len() == (map.width + 1) * (map.height + 1),
        forall|vx: int, vy: int|
            0 <= vx <= map.width && 0 <= vy <= map.height ==> #[trigger] has_vertex(
                vertices@,
                *map,
                vx,
                vy,
            ),
{
    proof {
        assert(map.width + 1 <= (map.width + 1) * (map.height + 1) && map.height + 1 <= (map.width
            + 1) * (map.height + 1)) by (nonlinear_arith);
    }
    let nx: usize = map.width + 1;
    let ny: usize = map.height + 1;
    let mut vertices: Vec<MeshVertex> = Vec::new();
    let mut vy: usize = 0;
    assert(0 * nx == 0);
    while vy < ny
        invariant
            map.wf(),
            nx == map.width + 1,
            ny == map.height + 1,
            nx <= u32::MAX,
            ny <= u32::MAX,
            vy <= ny,
            vertices.len() == vy * nx,
            forall|cx: int, cy: int|
                0 <= cx < nx && 0 <= cy < vy ==> #[trigger] has_vertex(vertices@, *map, cx, cy),
        decreases ny - vy,
    {
        let mut vx: usize = 0;
        while vx < nx
            invariant
                map.wf(),
                nx == map.width + 1,
                ny == map.height + 1,
                nx <= u32::MAX,
                ny <= u32::MAX,
                vy < ny,
                vx <= nx,
                vertices.len() == vy * nx + vx,
                forall|cx: int, cy: int|
                    0 <= cx < nx && 0 <= cy && (cy < vy || (cy == vy && cx < vx))
                        ==> #[trigger] has_vertex(vertices@, *map, cx, cy),
            decreases nx - vx,
        {
            let (x, y) = vertex_position(vx as u32, vy as u32);
            let height: u8 = corner_height(map, vx, vy);
            let ghost before = vertices@;
            vertices.push(MeshVertex { x, y, height });
            proof {
                assert forall|cx: int, cy: int|
                    0 <= cx < nx && 0 <= cy && (cy < vy || (cy == vy && cx < vx + 1)) implies
                    #[trigger] has_vertex(vertices@, *map, cx, cy) by {
                    if cy < vy || cx < vx {
                        assert(has_vertex(before, *map, cx, cy));
                    } else {
                        assert(vertex_index(map.width as int, cx, cy) == before.len());
                    }
                }
            }
            vx = vx + 1;
        }
        assert((vy + 1) * nx == vy * nx + nx) by (nonlinear_arith);
        vy = vy + 1;
    }
    assert(ny * nx == nx * ny) by (nonlinear_arith);
    vertices
}

/// Builds the ground as a quad grid. Taller biomes lift the vertices that
/// their tiles touch.
pub fn build_tile_mesh(map: &WorldMap) -> (mesh: TileMesh)
    requires
        map.wf(),
        (map.width + 1) * (map.height + 1) <= u32::MAX,
    ensures
        mesh.vertices.len() == (map.width + 1) * (map.height + 1),
        forall|vx: int, vy: int|
            0 <= vx <= map.width && 0 <= vy <= map.height ==> #[trigger] has_vertex(
                mesh.vertices@,
                *map,
                vx,
                vy,
            ),
        mesh.indices.len() == map.width * map.height * 6,
        forall|tx: int, ty: int|
            0 <= tx < map.width && 0 <= ty < map.height ==> #[trigger] has_quad(
                mesh.indices@,
                map.width as int,
                tx,
                ty,
            ),
{
    proof {
        assert(map.width + 1 <= (map.width + 1) * (map.height + 1) && map.height + 1 <= (map.width
            + 1) * (map.height + 1)) by (nonlinear_arith);
    }
    let vertices = mesh_vertices(map);
    let indices = mesh_indices(map.width as u32, map.height as u32);
    TileMesh { vertices, indices }
}

/// Brings the ground mesh in line with its switch. It is also taken down to be
/// built anew when test mode or the height factor has changed since it was spawned.
pub fn toggle_and_manage(want: bool, has: bool, changed: bool, ready: bool) -> (action: LayerAction)
    ensures
        action == (if has && changed {
            LayerAction::Despawn
        } else {
            layer_step(want, has, ready)
        }),
{
    if has && changed {
        LayerAction::Despawn
    } else {
        manage_layer(want, has, ready)
    }
}

/// How the shapes are made: all hold the middle tile; strips are two tiles, one
/// way or the other; a cluster is two strips; a column is three tiles; a plus
/// is a column and the same across; a corner is the upper part of a column and
/// a strip.
pub proof fn how_shapes_are_made(dx: int, dy: int)
    ensures
        shape_covers(Shape::Single, dx, dy) <==> dx == 0 && dy == 0,
        shape_covers(Shape::StripAcross, dx, dy) <==> shape_covers(Shape::Single, dx, dy)
            || shape_covers(Shape::Single, dx - 1, dy),
        shape_covers(Shape::StripDown, dx, dy) <==> shape_covers(Shape::StripAcross, dy, dx),
        shape_covers(Shape::Cluster, dx, dy) <==> shape_covers(Shape::StripAcross, dx, dy)
            || shape_covers(Shape::StripAcross, dx, dy - 1),
        shape_covers(Shape::Column, dx, dy) <==> shape_covers(Shape::StripDown, dx, dy)
            || shape_covers(Shape::StripDown, dx, -dy),
        shape_covers(Shape::Plus, dx, dy) <==> shape_covers(Shape::Column, dx, dy) || shape_covers(
            Shape::Column,
            dy,
            dx,
        ),
        shape_covers(Shape::Corner, dx, dy) <==> shape_covers(Shape::StripDown, dx, -dy)
            || shape_covers(Shape::StripAcross, dx, dy),
{
}

/// In the upper left part of the test grid each column has a biome and each
/// row a shape; to the right of it each row has the biome of the column of the
/// same number, and each column a shape.
pub proof fn biomes_are_tried_on_grass(col: int, row: int)
    ensures
        0 <= col < 6 && 0 <= row < 4 ==> cell_background(col, row) == Biome::Grassland,
        0 <= col < 3 && 0 <= row < 4 ==> (cell_feature(col, row) matches Some((biome, shape)) && {
            &&& col == 0 ==> biome == Biome::Water
            &&& col == 1 ==> biome == Biome::Desert
            &&& col == 2 ==> biome == Biome::Snow
            &&& row == 0 ==> shape == Shape::Single
            &&& row == 1 ==> shape == Shape::StripAcross
            &&& row == 2 ==> shape == Shape::Cluster
            &&& row == 3 ==> shape == Shape::Column
        }),
        3 <= col < 6 && 0 <= row < 3 ==> (cell_feature(col, row) matches Some((biome, shape))
            && cell_feature(row, 0) matches Some((same, _)) && {
            &&& biome == same
            &&& col == 3 ==> shape == Shape::Corner
            &&& col == 4 ==> shape == Shape::Plus
            &&& col == 5 ==> shape == Shape::StripDown
        }),
        3 <= col < 6 && row == 3 ==> cell_feature(col, row) is None,
{
}

/// Below, each row tries three other biomes on one background, as single tiles
/// and then in a larger shape.
pub proof fn biomes_are_tried_on_each_other(col: int, row: int)
    requires
        0 <= col < 3,
        4 <= row < 7,
    ensures
        row == 4 ==> cell_background(col, row) == Biome::Water && cell_background(col + 3, row)
            == Biome::Water,
        row == 5 ==> cell_background(col, row) == Biome::Desert && cell_background(col + 3, row)
            == Biome::Desert,
        row == 6 ==> cell_background(col, row) == Biome::Snow && cell_background(col + 3, row)
            == Biome::Snow,
        cell_feature(col, row) matches Some((biome, shape)) && cell_feature(
            col + 3,
            row,
        ) matches Some((same, larger)) && {
            &&& biome == same && biome != cell_background(col, row)
            &&& shape == Shape::Single
            &&& row == 4 ==> larger == Shape::StripDown
            &&& row == 5 ==> larger == Shape::Column
            &&& row == 6 ==> larger == Shape::Cluster
            &&& col == 0 ==> biome == (if row == 4 {
                Biome::Desert
            } else {
                Biome::Water
            })
            &&& col == 1 ==> biome == (if row == 6 {
                Biome::Desert
            } else {
                Biome::Snow
            })
            &&& col == 2 ==> biome == Biome::Grassland
        },
{
}

/// In the last row swamp is tried on grass in three shapes, and single tiles
/// of three biomes on swamp. Beyond the grid nothing is tried.
pub proof fn swamp_is_tried_last(col: int, row: int)
    ensures
        0 <= col < 3 ==> cell_background(col, 7) == Biome::Grassland && (cell_feature(
            col,
            7,
        ) matches Some((biome, shape)) && biome == Biome::Swamp && (shape == Shape::Single <==> col
            == 0) && (shape == Shape::StripAcross <==> col == 1) && (shape == Shape::Cluster <==> col
            == 2)),
        3 <= col < 6 ==> cell_background(col, 7) == Biome::Swamp && (cell_feature(
            col,
            7,
        ) matches Some((biome, shape)) && shape == Shape::Single && (biome == Biome::Grassland
            <==> col == 3) && (biome == Biome::Desert <==> col == 4) && (biome == Biome::Snow <==> col
            == 5)),
        !(0 <= col < 6 && 0 <= row < 8) ==> cell_feature(col, row) is None && cell_background(
            col,
            row,
        ) == Biome::Grassland,
{
}

/// The cells of the test grid are nine tiles wide and begin two tiles from the
/// corner; a feature stands around the middle of its cell.
pub proof fn features_stand_in_their_cells(col: int, row: int, dx: int, dy: int)
    requires
        0 <= col,
        0 <= row,
        -4 <= dx <= 4,
        -4 <= dy <= 4,
    ensures
        ({
            let biome = test_biome(9 * col + 6 + dx, 9 * row + 6 + dy);
            match cell_feature(col, row) {
                Some((feature, shape)) => {
                    &&& shape_covers(shape, dx, dy) ==> biome == feature
                    &&& !shape_covers(shape, dx, dy) ==> biome == cell_background(col, row)
                },
                None => biome == cell_background(col, row),
            }
        }),
        forall|x: int, y: int| x < 2 || y < 2 ==> #[trigger] test_biome(x, y) == Biome::Grassland,
{
    let (x, y) = (9 * col + 6 + dx, 9 * row + 6 + dy);
    assert((x - 2) / 9 == col && (x - 2) % 9 == dx + 4);
    assert((y - 2) / 9 == row && (y - 2) % 9 == dy + 4);
}

/// The nearest point of a tile's side lies on the side, and no point of the
/// side is nearer.
pub proof fn nearest_points_are_nearest(pos: int, tile: int, other: int)
    requires
        32 * tile <= other <= 32 * tile + 32,
    ensures
        ({
            let at = nearest_on_side(pos, tile);
            &&& 32 * tile <= at <= 32 * tile + 32
            &&& other >= pos ==> pos - (other - pos) <= at <= other
            &&& other <= pos ==> other <= at <= pos + (pos - other)
        }),
{
}

/// The position lies on land, and the tile at that offset from its own is
/// water.
pub open spec fn is_shore(map: WorldMap, x2: int, y2: int, dx: int, dy: int) -> bool {
    &&& -1 <= dx <= 1
    &&& -1 <= dy <= 1
    &&& water_at(map, x2 / 32 + dx, y2 / 32 + dy)
}

proof fn lemma_shortest_way(map: WorldMap, x2: int, y2: int, count: int, dx: int, dy: int)
    requires
        0 <= count <= 9,
    ensures
        is_shore(map, x2, y2, dx, dy) && (dx != 0 || dy != 0) && (dy + 1) * 3 + (dx + 1) < count
            ==> (shortest_way(map, x2, y2, count) matches Some(way) && squared(way) <= squared(
            way_to_tile(x2, y2, x2 / 32 + dx, y2 / 32 + dy),
        )),
        shortest_way(map, x2, y2, count) matches Some(way) ==> exists|ex: int, ey: int| #[trigger]
            is_shore(map, x2, y2, ex, ey) && (ex != 0 || ey != 0) && way == way_to_tile(
                x2,
                y2,
                x2 / 32 + ex,
                y2 / 32 + ey,
            ),
    decreases count,
{
    if count > 0 {
        lemma_shortest_way(map, x2, y2, count - 1, dx, dy);
        let ex = (count - 1) % 3 - 1;
        let ey = (count - 1) / 3 - 1;
        assert(x2 / 32 + (count - 1) % 3 - 1 == x2 / 32 + ex);
        assert(y2 / 32 + (count - 1) / 3 - 1 == y2 / 32 + ey);
        assert(count - 1 != 4 <==> (ex != 0 || ey != 0));
        if count - 1 != 4 && water_at(map, x2 / 32 + ex, y2 / 32 + ey) {
            assert(is_shore(map, x2, y2, ex, ey));
        }
        if (dy + 1) * 3 + (dx + 1) == count - 1 && -1 <= dx <= 1 && -1 <= dy <= 1 {
            assert(ex == dx && ey == dy);
        }
    }
}

/// From land, the way to water is no longer than the way to any of the eight
/// tiles around that is water, and it leads to one of them. There is none only
/// where none of them is water, on water, and beyond the map.
pub proof fn the_nearest_water_is_found(map: WorldMap, x2: int, y2: int, dx: int, dy: int)
    requires
        -1 <= dx <= 1,
        -1 <= dy <= 1,
    ensures
        map.contains(x2 / 32, y2 / 32) && !water_at(map, x2 / 32, y2 / 32) && water_at(
            map,
            x2 / 32 + dx,
            y2 / 32 + dy,
        ) ==> (way_to_water(map, x2, y2) matches Some(way) && squared(way) <= squared(
            way_to_tile(x2, y2, x2 / 32 + dx, y2 / 32 + dy),
        )),
        way_to_water(map, x2, y2) matches Some(way) ==> exists|ex: int, ey: int| #[trigger]
            is_shore(map, x2, y2, ex, ey) && (ex != 0 || ey != 0) && way == way_to_tile(
                x2,
                y2,
                x2 / 32 + ex,
                y2 / 32 + ey,
            ),
        water_at(map, x2 / 32, y2 / 32) || !map.contains(x2 / 32, y2 / 32) ==> way_to_water(
            map,
            x2,
            y2,
        ) is None,
{
    lemma_shortest_way(map, x2, y2, 9, dx, dy);
}

/// A way is measured along both axes: straight ways have their length, and
/// others the sum of the squares.
pub proof fn ways_are_measured(a: int, b: int)
    ensures
        squared((a, 0)) == a * a,
        squared((0, b)) == b * b,
        squared((a, b)) == squared((a, 0)) + squared((0, b)),
{
}

/// The byte of a pixel is zero on water and 255 away from it; near water it is
/// the distance in whole pixels, rounded up.
pub proof fn bytes_tell_the_distance(map: WorldMap, px: int, py: int, byte: u8)
    requires
        is_distance_byte(map, px, py, byte),
    ensures
        water_at(map, px / 16, py / 16) ==> byte == 0,
        !water_at(map, px / 16, py / 16) && way_to_water(map, 2 * px + 1, 2 * py + 1) is None
            ==> byte == 255,
        !water_at(map, px / 16, py / 16) ==> (way_to_water(
            map,
            2 * px + 1,
            2 * py + 1,
        ) matches Some(way) ==> {
            &&& (2 * byte) * (2 * byte) >= squared(way)
            &&& byte > 0 ==> (2 * byte - 2) * (2 * byte - 2) < squared(way)
        }),
{
    if let Some(way) = way_to_water(map, 2 * px + 1, 2 * py + 1) {
        if !water_at(map, px / 16, py / 16) {
            let b = byte as int;
            assert((2 * b) * (2 * b) == 4 * b * b) by (nonlinear_arith);
            if b > 0 {
                let fewer = b - 1;
                assert((4 * fewer * fewer) < squared(way));
                assert((2 * b - 2) * (2 * b - 2) == 4 * fewer * fewer) by (nonlinear_arith)
                    requires
                        fewer == b - 1,
                ;
            }
        }
    }
}

/// A vertex touches the tiles around it that lie on the map: four inside, two
/// on an edge, one in a corner.
pub proof fn tiles_around_a_vertex(w: int, h: int, vx: int, vy: int)
    requires
        0 < w,
        0 < h,
        0 <= vx <= w,
        0 <= vy <= h,
    ensures
        ({
            let slots = corner_slots(w, h, vx, vy);
            let inside_x = 0 < vx < w;
            let inside_y = 0 < vy < h;
            &&& inside_x && inside_y ==> slots == seq![
                (vy - 1) * w + vx - 1,
                vy * w + vx - 1,
                (vy - 1) * w + vx,
                vy * w + vx,
            ]
            &&& inside_x != inside_y ==> slots.len() == 2
            &&& !inside_x && !inside_y ==> slots.len() == 1
            &&& vx < w && vy < h ==> slots.last() == vy * w + vx
        }),
{
    let slots = corner_slots(w, h, vx, vy);
    if 0 < vx < w && 0 < vy < h {
        assert(slots =~= seq![
            (vy - 1) * w + vx - 1,
            vy * w + vx - 1,
            (vy - 1) * w + vx,
            vy * w + vx,
        ]);
    }
}

/// The tallest of some tiles is as tall as one of them, and none is taller.
pub proof fn the_tallest_tile_counts(map: WorldMap, slots: Seq<int>, slot: int)
    ensures
        tallest(map, Seq::empty()) == 0,
        tallest(map, slots.push(slot)) >= tallest(map, slots),
        tallest(map, slots.push(slot)) >= biome_hundredths(map.biomes@[slot]),
        tallest(map, slots.push(slot)) == tallest(map, slots) || tallest(map, slots.push(slot))
            == biome_hundredths(map.biomes@[slot]),
{
    assert(slots.push(slot).drop_last() =~= slots);
    assert(slots.push(slot).last() == slot);
}

/// The vertices go row by row. The two triangles of a tile share the side from
/// its upper right to its lower left corner and have one corner each besides.
pub proof fn tiles_are_two_triangles(w: int, tx: int, ty: int)
    ensures
        vertex_index(w, 0, 0) == 0,
        vertex_index(w, tx + 1, ty) == vertex_index(w, tx, ty) + 1,
        vertex_index(w, tx, ty + 1) == vertex_index(w, tx, ty) + w + 1,
        quad_index(w, tx, ty, 1) == quad_index(w, tx, ty, 4),
        quad_index(w, tx, ty, 2) == quad_index(w, tx, ty, 3),
        quad_index(w, tx, ty, 0) == vertex_index(w, tx, ty),
        quad_index(w, tx, ty, 1) == vertex_index(w, tx, ty + 1),
        quad_index(w, tx, ty, 2) == vertex_index(w, tx + 1, ty),
        quad_index(w, tx, ty, 5) == vertex_index(w, tx + 1, ty + 1),
{
    assert((ty + 1) * (w + 1) == ty * (w + 1) + w + 1) by (nonlinear_arith);
    assert(0 * (w + 1) == 0) by (nonlinear_arith);
}

/// The four vertices around a tile lie half a tile from its center, which is
/// sixteen pixels per tile right of and below the first tile's.
pub proof fn vertices_lie_between_tiles(map: WorldMap, tx: int, ty: int)
    requires
        0 <= tx < 0x1_0000_0000,
        0 <= ty < 0x1_0000_0000,
    ensures
        mesh_vertex(map, tx, ty).x == 16 * tx - 8,
        mesh_vertex(map, tx, ty).y == -16 * ty + 8,
        mesh_vertex(map, tx + 1, ty + 1).x == 16 * tx + 8,
        mesh_vertex(map, tx + 1, ty + 1).y == -16 * ty - 8,
{
}

/// The mesh has the six indices of every tile, tile by tile and row by row,
/// and its vertices row by row.
pub proof fn meshes_go_row_by_row(
    indices: Seq<u32>,
    vertices: Seq<MeshVertex>,
    map: WorldMap,
    tx: int,
    ty: int,
    k: int,
)
    requires
        0 <= k < 6,
    ensures
        has_quad(indices, map.width as int, tx, ty) ==> indices[6 * (ty * map.width + tx) + k]
            == quad_index(map.width as int, tx, ty, k),
        has_vertex(vertices, map, tx, ty) ==> vertices[ty * (map.width + 1) + tx] == mesh_vertex(
            map,
            tx,
            ty,
        ),
{
    let at = super::world_map::tile_slot(map.width as int, tx, ty) * 6;
    if has_quad(indices, map.width as int, tx, ty) {
        assert(indices[at + k] == quad_index(map.width as int, tx, ty, k));
    }
}

/// A vertex inside the map is as tall as the tallest of the four tiles around
/// it.
pub proof fn vertices_are_lifted_by_their_tiles(map: WorldMap, vx: int, vy: int)
    requires
        0 < vx < map.width,
        0 < vy < map.height,
    ensures
        ({
            let w = map.width as int;
            let a = biome_hundredths(map.biomes@[(vy - 1) * w + vx - 1]);
            let b = biome_hundredths(map.biomes@[vy * w + vx - 1]);
            let c = biome_hundredths(map.biomes@[(vy - 1) * w + vx]);
            let d = biome_hundredths(map.biomes@[vy * w + vx]);
            let height = mesh_vertex(map, vx, vy).height;
            &&& height >= a && height >= b && height >= c && height >= d
            &&& height == a || height == b || height == c || height == d
        }),
{
    let w = map.width as int;
    let (a, b) = ((vy - 1) * w + vx - 1, vy * w + vx - 1);
    let (c, d) = ((vy - 1) * w + vx, vy * w + vx);
    tiles_around_a_vertex(w, map.height as int, vx, vy);
    let none = Seq::<int>::empty();
    the_tallest_tile_counts(map, none, a);
    the_tallest_tile_counts(map, none.push(a), b);
    the_tallest_tile_counts(map, none.push(a).push(b), c);
    the_tallest_tile_counts(map, none.push(a).push(b).push(c), d);
    assert(corner_slots(w, map.height as int, vx, vy) =~= none.push(a).push(b).push(c).push(d));
}

} // verus!
