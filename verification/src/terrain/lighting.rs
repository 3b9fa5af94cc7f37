//! Heights under the lighting, and the windows over which they are smoothed.

use vstd::prelude::*;

use super::world_map::{biome_hundredths, lemma_tile_slot, tile_slot, WorldMap};

verus! {

/// Hundredths by which a road lies below its surroundings.
pub const ROAD_NOTCH: u8 = 8;

/// Height of a tile in hundredths: that of its biome, a notch lower on a road,
/// so that roads read as land that has been walked into.
pub open spec fn lit_height(map: WorldMap, x: int, y: int) -> u8 {
    let base = biome_hundredths(map.biome(x, y));
    if !map.road(x, y) {
        base
    } else if base >= ROAD_NOTCH {
        (base - ROAD_NOTCH) as u8
    } else {
        0
    }
}

/// Height of a tile in hundredths.
pub fn lighting_biome_height(map: &WorldMap, x: usize, y: usize) -> (height: u8)
    requires
        map.wf(),
        map.contains(x as int, y as int),
    ensures
        height == lit_height(*map, x as int, y as int),
        height <= 100,
{
    let base: u8 = map.biome_at(x, y).height_hundredths();
    if map.has_road_at(x, y) {
        if base >= ROAD_NOTCH {
            base - ROAD_NOTCH
        } else {
            0
        }
    } else {
        base
    }
}

/// The heights of all tiles, row by row.
pub fn height_table(map: &WorldMap) -> (heights: Vec<u8>)
    requires
        map.wf(),
    ensures
        heights.len() == map.width * map.height,
        forall|x: int, y: int|
            0 <= x < map.width && 0 <= y < map.height ==> heights@[#[trigger] tile_slot(
                map.width as int,
                x,
                y,
            )] == lit_height(*map, x, y),
{
    let mut heights: Vec<u8> = Vec::new();
    let mut y: usize = 0;
    assert(0 * map.width == 0);
    while y < map.height
        invariant
            map.wf(),
            y <= map.height,
            heights.len() == y * map.width,
            forall|cx: int, cy: int|
                0 <= cx < map.width && 0 <= cy < y ==> #[trigger] has_height(
                    heights@,
                    *map,
                    cx,
                    cy,
                ),
        decreases map.height - y,
    {
        let mut x: usize = 0;
        while x < map.width
            invariant
                map.wf(),
                y < map.height,
                x <= map.width,
                heights.len() == y * map.width + x,
                forall|cx: int, cy: int|
                    0 <= cx < map.width && 0 <= cy && (cy < y || (cy == y && cx < x))
                        ==> #[trigger] has_height(heights@, *map, cx, cy),
            decreases map.width - x,
        {
            let ghost before = heights@;
            heights.push(lighting_biome_height(map, x, y));
            proof {
                assert forall|cx: int, cy: int|
                    0 <= cx < map.width && 0 <= cy && (cy < y || (cy == y && cx < x + 1)) implies
                    #[trigger] has_height(heights@, *map, cx, cy) by {
                    if cy < y || cx < x {
                        assert(has_height(before, *map, cx, cy));
                    }
                }
            }
            x = x + 1;
        }
        assert((y + 1) * map.width == y * map.width + map.width) by (nonlinear_arith);
        y = y + 1;
    }
    proof {
        assert(map.height * map.width == map.width * map.height) by (nonlinear_arith);
        assert forall|x: int, y: int| 0 <= x < map.width && 0 <= y < map.height implies heights@[
        #[trigger] tile_slot(map.width as int, x, y)] == lit_height(*map, x, y) by {
            assert(has_height(heights@, *map, x, y));
        }
    }
    heights
}

spec fn has_height(heights: Seq<u8>, map: WorldMap, x: int, y: int) -> bool {
    let at = tile_slot(map.width as int, x, y);
    0 <= at < heights.len() && heights[at] == lit_height(map, x, y)
}

/// Slots of the first `count` of the nine tiles around and at a tile that lie
/// on the map, row by row.
pub open spec fn window(w: int, h: int, x: int, y: int, count: int) -> Seq<int>
    decreases count,
{
    if count <= 0 {
        Seq::empty()
    } else {
        let before = window(w, h, x, y, count - 1);
        let nx = x + (count - 1) % 3 - 1;
        let ny = y + (count - 1) / 3 - 1;
        if 0 <= nx < w && 0 <= ny < h {
            before.push(tile_slot(w, nx, ny))
        } else {
            before
        }
    }
}

/// Slots of the tiles over which a tile's height is smoothed: itself and its
/// neighbours on the map.
pub fn blur_window(w: usize, h: usize, x: usize, y: usize) -> (slots: Vec<usize>)
    requires
        x < w,
        y < h,
        w * h <= usize::MAX,
    ensures
        slots@.map_values(|s: usize| s as int) == window(w as int, h as int, x as int, y as int, 9),
        forall|i: int| 0 <= i < slots.len() ==> #[trigger] slots@[i] < w * h,
        slots.len() >= 1,
{
    let mut slots: Vec<usize> = Vec::new();
    let mut k: usize = 0;
    assert(slots@.map_values(|s: usize| s as int) =~= window(
        w as int,
        h as int,
        x as int,
        y as int,
        0,
    ));
    while k < 9
        invariant
            k <= 9,
            x < w,
            y < h,
            w * h <= usize::MAX,
            slots@.map_values(|s: usize| s as int) == window(
                w as int,
                h as int,
                x as int,
                y as int,
                k as int,
            ),
            forall|i: int| 0 <= i < slots.len() ==> #[trigger] slots@[i] < w * h,
            k > 4 ==> slots.len() >= 1,
        decreases 9 - k,
    {
        let ghost before = slots@.map_values(|s: usize| s as int);
        let right: usize = k % 3;
        let down: usize = k / 3;
        let on_map: bool = (x > 0 || right > 0) && (y > 0 || down > 0) && (right < 2 || x + 1 < w)
            && (down < 2 || y + 1 < h);
        if on_map {
            let nx: usize = if right == 0 {
                x - 1
            } else {
                x + (right - 1)
            };
            let ny: usize = if down == 0 {
                y - 1
            } else {
                y + (down - 1)
            };
            proof {
                lemma_tile_slot(w as int, h as int, nx as int, ny as int);
            }
            slots.push(ny * w + nx);
            assert(slots@.map_values(|s: usize| s as int) =~= before.push(
                tile_slot(w as int, nx as int, ny as int),
            ));
        }
        k = k + 1;
    }
    slots
}

/// Off the roads a tile is as high as its biome; a road lies eight hundredths
/// lower, but never below the water.
pub proof fn roads_lie_lower(map: WorldMap, x: int, y: int)
    ensures
        ({
            let biome = biome_hundredths(map.biomes@[y * map.width + x]);
            let height = lit_height(map, x, y);
            &&& !map.has_road@[y * map.width + x] ==> height == biome
            &&& map.has_road@[y * map.width + x] && biome >= 8 ==> height == biome - 8
            &&& map.has_road@[y * map.width + x] && biome < 8 ==> height == 0
        }),
{
}

/// A tile is smoothed with exactly the tiles of the map that touch it, by an
/// edge or a corner, and with itself.
pub proof fn smoothing_takes_in_the_tiles_around(
    w: int,
    h: int,
    x: int,
    y: int,
    nx: int,
    ny: int,
)
    requires
        0 <= x < w,
        0 <= y < h,
        0 <= nx < w,
    ensures
        -1 <= nx - x <= 1 && -1 <= ny - y <= 1 && 0 <= ny < h ==> window(w, h, x, y, 9).contains(
            ny * w + nx,
        ),
        window(w, h, x, y, 9).contains(ny * w + nx) ==> -1 <= nx - x <= 1 && -1 <= ny - y <= 1 && 0
            <= ny < h,
{
    let all = window(w, h, x, y, 9);
    lemma_window(w, h, x, y, 9);
    if -1 <= nx - x <= 1 && -1 <= ny - y <= 1 && 0 <= ny < h {
        let k = (ny - y + 1) * 3 + (nx - x + 1);
        assert(k % 3 == nx - x + 1 && k / 3 == ny - y + 1);
        assert(x + k % 3 - 1 == nx && y + k / 3 - 1 == ny);
        assert(0 <= k < 9);
        assert(all.contains(tile_slot(w, x + k % 3 - 1, y + k / 3 - 1)));
    }
    if all.contains(ny * w + nx) {
        let i = choose|i: int| 0 <= i < all.len() && all[i] == ny * w + nx;
        let k = choose|k: int|
            0 <= k < 9 && 0 <= x + k % 3 - 1 < w && 0 <= y + k / 3 - 1 < h && all[i]
                == #[trigger] tile_slot(w, x + k % 3 - 1, y + k / 3 - 1);
        crate::terrain::world_map::lemma_slot_injective(
            w,
            nx,
            ny,
            x + k % 3 - 1,
            y + k / 3 - 1,
        );
    }
}

proof fn lemma_window(w: int, h: int, x: int, y: int, count: int)
    requires
        0 <= count <= 9,
    ensures
        forall|k: int|
            0 <= k < count && 0 <= x + k % 3 - 1 < w && 0 <= y + k / 3 - 1 < h ==> window(
                w,
                h,
                x,
                y,
                count,
            ).contains(#[trigger] tile_slot(w, x + k % 3 - 1, y + k / 3 - 1)),
        forall|i: int|
            0 <= i < window(w, h, x, y, count).len() ==> exists|k: int|
                0 <= k < count && 0 <= x + k % 3 - 1 < w && 0 <= y + k / 3 - 1 < h && (
                #[trigger] window(w, h, x, y, count)[i]) == #[trigger] tile_slot(
                    w,
                    x + k % 3 - 1,
                    y + k / 3 - 1,
                ),
    decreases count,
{
    if count > 0 {
        lemma_window(w, h, x, y, count - 1);
        let before = window(w, h, x, y, count - 1);
        let all = window(w, h, x, y, count);
        assert forall|k: int|
            0 <= k < count && 0 <= x + k % 3 - 1 < w && 0 <= y + k / 3 - 1 < h implies all.contains(
            #[trigger] tile_slot(w, x + k % 3 - 1, y + k / 3 - 1),
        ) by {
            let slot = tile_slot(w, x + k % 3 - 1, y + k / 3 - 1);
            if k < count - 1 {
                assert(before.contains(slot));
                let i = choose|i: int| 0 <= i < before.len() && before[i] == slot;
                assert(all[i] == slot);
            } else {
                assert(all[all.len() - 1] == slot);
            }
        }
        assert forall|i: int| 0 <= i < all.len() implies exists|k: int|
            0 <= k < count && 0 <= x + k % 3 - 1 < w && 0 <= y + k / 3 - 1 < h && (
            #[trigger] all[i]) == #[trigger] tile_slot(w, x + k % 3 - 1, y + k / 3 - 1) by {
            if i < before.len() {
                assert(all[i] == before[i]);
                let k = choose|k: int|
                    0 <= k < count - 1 && 0 <= x + k % 3 - 1 < w && 0 <= y + k / 3 - 1 < h
                        && before[i] == #[trigger] tile_slot(w, x + k % 3 - 1, y + k / 3 - 1);
                assert(all[i] == tile_slot(w, x + k % 3 - 1, y + k / 3 - 1));
            } else {
                let k = count - 1;
                assert(all[i] == tile_slot(w, x + k % 3 - 1, y + k / 3 - 1));
            }
        }
    }
}

} // verus!
