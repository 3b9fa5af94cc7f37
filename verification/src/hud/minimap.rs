//! Minimap: a small world overview in the bottom-right corner, one pixel per
//! tile, with dots for the players.

use vstd::prelude::*;

use crate::player::{at_same_place, is_at_same_place, PlayerRow};
use crate::terrain::fog::FogOfWar;
use crate::terrain::world::{WorldGrid, WORLD_H, WORLD_W};
use crate::terrain::world_map::{lemma_tile_slot, tile_slot};
use crate::terrain::Ground;
use crate::text::{contains_text, same_text, texts};

verus! {

/// Red, green and blue of a ground on the minimap.
pub open spec fn ground_rgb(ground: Ground) -> (u8, u8, u8) {
    match ground {
        Ground::Road => (200, 175, 120),
        Ground::Grass => (96, 150, 80),
        Ground::Sand => (220, 200, 130),
        Ground::Snow => (230, 235, 240),
        Ground::Mountain => (135, 130, 120),
        Ground::Swamp => (70, 60, 40),
        Ground::Water => (50, 90, 160),
        Ground::Lava => (153, 51, 18),
    }
}

/// Red, green and blue of a ground on the minimap, roughly the palette of the
/// world itself.
pub fn ground_color(ground: Ground) -> (rgb: (u8, u8, u8))
    ensures
        rgb == ground_rgb(ground),
{
    match ground {
        Ground::Road => (200, 175, 120),
        Ground::Grass => (96, 150, 80),
        Ground::Sand => (220, 200, 130),
        Ground::Snow => (230, 235, 240),
        Ground::Mountain => (135, 130, 120),
        Ground::Swamp => (70, 60, 40),
        Ground::Water => (50, 90, 160),
        Ground::Lava => (153, 51, 18),
    }
}

/// Color of a tile still in the fog: the same near-black whatever lies there.
pub open spec fn fog_rgb() -> (u8, u8, u8) {
    (12, 12, 20)
}

/// Color of the minimap's pixel of a tile.
pub open spec fn minimap_rgb(world: WorldGrid, fog: FogOfWar, x: int, y: int) -> (u8, u8, u8) {
    if fog.seen(x, y) {
        ground_rgb(world.terrain_at(x, y).ground)
    } else {
        fog_rgb()
    }
}

/// The bytes hold that opaque color at the pixel of that index.
pub open spec fn has_color(bytes: Seq<u8>, index: int, rgb: (u8, u8, u8)) -> bool {
    &&& index * 4 + 3 < bytes.len()
    &&& bytes[index * 4] == rgb.0
    &&& bytes[index * 4 + 1] == rgb.1
    &&& bytes[index * 4 + 2] == rgb.2
    &&& bytes[index * 4 + 3] == 255
}

/// The pixel of that index shows its tile.
spec fn shows_tile(bytes: Seq<u8>, world: WorldGrid, fog: FogOfWar, index: int) -> bool {
    has_color(
        bytes,
        index,
        minimap_rgb(world, fog, index % WORLD_W as int, index / WORLD_W as int),
    )
}

/// Draws the minimap: the color of each tile's ground where the fog is lifted,
/// else a uniform near-black, so that nothing shows that was not discovered.
pub fn draw_minimap(world: &WorldGrid, fog: &FogOfWar) -> (bytes: Vec<u8>)
    requires
        world.wf(),
        fog.wf(),
    ensures
        bytes.len() == WORLD_W * WORLD_H * 4,
        forall|x: int, y: int|
            0 <= x < WORLD_W && 0 <= y < WORLD_H ==> has_color(
                bytes@,
                #[trigger] tile_slot(WORLD_W as int, x, y),
                minimap_rgb(*world, *fog, x, y),
            ),
{
    let mut bytes: Vec<u8> = Vec::new();
    let mut index: usize = 0;
    while index < 8000
        invariant
            world.wf(),
            fog.wf(),
            index <= 8000,
            bytes.len() == index * 4,
            forall|i: int| 0 <= i < index ==> #[trigger] shows_tile(bytes@, *world, *fog, i),
        decreases 8000 - index,
    {
        let x: usize = index % WORLD_W;
        let y: usize = index / WORLD_W;
        let terrain = world.get(x, y);
        let (r, g, b): (u8, u8, u8) = if fog.is_revealed(x, y) {
            ground_color(terrain.ground)
        } else {
            (12, 12, 20)
        };
        let ghost before = bytes@;
        bytes.push(r);
        bytes.push(g);
        bytes.push(b);
        bytes.push(255);
        proof {
            assert(tile_slot(WORLD_W as int, x as int, y as int) == index);
            assert(shows_tile(bytes@, *world, *fog, index as int));
            assert forall|i: int| 0 <= i < index + 1 implies #[trigger] shows_tile(
                bytes@,
                *world,
                *fog,
                i,
            ) by {
                if i < index {
                    assert(shows_tile(before, *world, *fog, i));
                }
            }
        }
        index = index + 1;
    }
    proof {
        assert forall|x: int, y: int| 0 <= x < WORLD_W && 0 <= y < WORLD_H implies has_color(
            bytes@,
            #[trigger] tile_slot(WORLD_W as int, x, y),
            minimap_rgb(*world, *fog, x, y),
        ) by {
            lemma_tile_slot(WORLD_W as int, WORLD_H as int, x, y);
            assert(shows_tile(bytes@, *world, *fog, tile_slot(WORLD_W as int, x, y)));
        }
    }
    bytes
}

/// The minimap gives away nothing of a tile still in the fog.
pub proof fn fog_hides_the_ground(
    world: WorldGrid,
    other: WorldGrid,
    fog: FogOfWar,
    x: int,
    y: int,
)
    requires
        !fog.seen(x, y),
    ensures
        minimap_rgb(world, fog, x, y) == minimap_rgb(other, fog, x, y),
{
}

/// Whether the minimap is drawn again: the fog has changed, or it was never
/// drawn.
pub fn regenerate_if_dirty(dirty: bool, did_initial: &mut bool) -> (draw: bool)
    ensures
        draw == (dirty || !*old(did_initial)),
        *final(did_initial) == (*old(did_initial) || draw),
{
    if !dirty && *did_initial {
        return false;
    }
    *did_initial = true;
    true
}

/// Corner of the player's own dot inside the minimap, in half pixels: the dot
/// is four pixels wide and centered on the tile's corner.
pub fn own_dot_corner(tile: i32) -> (half_pixels: i64)
    ensures
        half_pixels == 2 * (2 + tile * 2) - 4,
{
    2 * (2 + tile as i64 * 2) - 4
}

/// Corner of another player's dot, which is three pixels wide, in half pixels.
pub fn other_dot_corner(tile: Option<i32>) -> (half_pixels: i64)
    ensures
        half_pixels == 2 * (2 + (match tile {
            Some(t) => t as int,
            None => 0,
        }) * 2) - 3,
{
    let t: i64 = match tile {
        Some(t) => t as i64,
        None => 0,
    };
    2 * (2 + t * 2) - 3
}

/// Somebody with that id has a dot.
pub open spec fn has_dot(players: Seq<PlayerRow>, my_id: Seq<char>, id: Seq<char>) -> bool {
    exists|i: int|
        0 <= i < players.len() && (#[trigger] players[i]).id@ == id && is_at_same_place(
            players,
            my_id,
            players[i],
        )
}

/// What becomes of the dots of other players.
#[derive(Debug)]
pub struct DotsPlan {
    /// For each dot: whether to take it away.
    pub remove: Vec<bool>,
    /// For each reported player: whether they have a dot.
    pub show: Vec<bool>,
    /// For each reported player: whether their dot has to be made first.
    pub spawn: Vec<bool>,
}

fn wants_dot(players: &Vec<PlayerRow>, show: &Vec<bool>, my_id: &str, id: &str) -> (found: bool)
    requires
        show.len() == players.len(),
        forall|i: int|
            0 <= i < players.len() ==> #[trigger] show@[i] == is_at_same_place(
                players@,
                my_id@,
                players@[i],
            ),
    ensures
        found == has_dot(players@, my_id@, id@),
{
    let mut i: usize = 0;
    while i < players.len()
        invariant
            i <= players.len(),
            show.len() == players.len(),
            forall|i: int|
                0 <= i < players.len() ==> #[trigger] show@[i] == is_at_same_place(
                    players@,
                    my_id@,
                    players@[i],
                ),
            forall|j: int|
                0 <= j < i ==> !((#[trigger] players@[j]).id@ == id@ && is_at_same_place(
                    players@,
                    my_id@,
                    players@[j],
                )),
        decreases players.len() - i,
    {
        if show[i] && same_text(players[i].id.as_str(), id) {
            return true;
        }
        i = i + 1;
    }
    false
}

/// Decides which dots go, who has one, and who needs a new one. `dots` holds
/// the player ids of the dots there are.
pub fn update_player_dots(
    players: &Vec<PlayerRow>,
    my_id: &str,
    dots: &Vec<String>,
) -> (plan: DotsPlan)
    ensures
        plan.remove.len() == dots.len(),
        plan.show.len() == players.len(),
        plan.spawn.len() == players.len(),
        forall|i: int|
            0 <= i < dots.len() ==> #[trigger] plan.remove@[i] == !has_dot(
                players@,
                my_id@,
                dots@[i]@,
            ),
        forall|i: int|
            0 <= i < players.len() ==> #[trigger] plan.show@[i] == is_at_same_place(
                players@,
                my_id@,
                players@[i],
            ),
        forall|i: int|
            0 <= i < players.len() ==> #[trigger] plan.spawn@[i] == (is_at_same_place(
                players@,
                my_id@,
                players@[i],
            ) && !texts(dots@).contains(players@[i].id@)),
{
    let show = at_same_place(players, my_id);
    let mut remove: Vec<bool> = Vec::new();
    let mut k: usize = 0;
    while k < dots.len()
        invariant
            k <= dots.len(),
            remove.len() == k,
            show.len() == players.len(),
            forall|i: int|
                0 <= i < players.len() ==> #[trigger] show@[i] == is_at_same_place(
                    players@,
                    my_id@,
                    players@[i],
                ),
            forall|i: int|
                0 <= i < k ==> #[trigger] remove@[i] == !has_dot(players@, my_id@, dots@[i]@),
        decreases dots.len() - k,
    {
        remove.push(!wants_dot(players, &show, my_id, dots[k].as_str()));
        k = k + 1;
    }
    let mut spawn: Vec<bool> = Vec::new();
    let mut i: usize = 0;
    while i < players.len()
        invariant
            i <= players.len(),
            spawn.len() == i,
            show.len() == players.len(),
            forall|j: int|
                0 <= j < players.len() ==> #[trigger] show@[j] == is_at_same_place(
                    players@,
                    my_id@,
                    players@[j],
                ),
            forall|j: int|
                0 <= j < i ==> #[trigger] spawn@[j] == (is_at_same_place(
                    players@,
                    my_id@,
                    players@[j],
                ) && !texts(dots@).contains(players@[j].id@)),
        decreases players.len() - i,
    {
        spawn.push(show[i] && !contains_text(dots.as_slice(), players[i].id.as_str()));
        i = i + 1;
    }
    DotsPlan { remove, show, spawn }
}

/// The color of each ground on the minimap.
pub proof fn colors_of_the_grounds(ground: Ground)
    ensures
        ground == Ground::Road ==> ground_rgb(ground) == (200u8, 175u8, 120u8),
        ground == Ground::Grass ==> ground_rgb(ground) == (96u8, 150u8, 80u8),
        ground == Ground::Sand ==> ground_rgb(ground) == (220u8, 200u8, 130u8),
        ground == Ground::Snow ==> ground_rgb(ground) == (230u8, 235u8, 240u8),
        ground == Ground::Mountain ==> ground_rgb(ground) == (135u8, 130u8, 120u8),
        ground == Ground::Swamp ==> ground_rgb(ground) == (70u8, 60u8, 40u8),
        ground == Ground::Water ==> ground_rgb(ground) == (50u8, 90u8, 160u8),
        ground == Ground::Lava ==> ground_rgb(ground) == (153u8, 51u8, 18u8),
{
}

/// A tile that was seen shows the color of its ground, whatever grows or runs
/// on it; one in the fog is nearly black and looks like no ground.
pub proof fn seen_tiles_show_their_ground(world: WorldGrid, fog: FogOfWar, x: int, y: int)
    ensures
        fog.seen(x, y) ==> minimap_rgb(world, fog, x, y) == ground_rgb(
            world.terrain_at(x, y).ground,
        ),
        !fog.seen(x, y) ==> minimap_rgb(world, fog, x, y) == (12u8, 12u8, 20u8),
        fog.seen(x, y) <==> minimap_rgb(world, fog, x, y) != fog_rgb(),
{
}

/// Nobody sees a dot of their own among those of the others, and whoever is
/// not reported has none.
pub proof fn who_has_a_dot(players: Seq<PlayerRow>, my_id: Seq<char>, id: Seq<char>)
    ensures
        !has_dot(players, my_id, my_id),
        (forall|i: int| 0 <= i < players.len() ==> (#[trigger] players[i]).id@ != id) ==> !has_dot(
            players,
            my_id,
            id,
        ),
        forall|i: int|
            0 <= i < players.len() && (#[trigger] players[i]).id@ == id && is_at_same_place(
                players,
                my_id,
                players[i],
            ) ==> has_dot(players, my_id, id),
{
}

/// A pixel of the minimap is four bytes: red, green, blue, and full opacity.
pub proof fn pixels_are_opaque(bytes: Seq<u8>, index: int, rgb: (u8, u8, u8))
    requires
        0 <= index,
    ensures
        has_color(bytes, index, rgb) <==> crate::terrain::textures::pixel(bytes, index) == Some(
            (rgb.0, rgb.1, rgb.2, 255u8),
        ),
{
}

} // verus!
