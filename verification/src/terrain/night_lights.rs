//! Point lights that carve bright pools through the night.

use vstd::prelude::*;

use super::fog::FogOfWar;
use super::world_map::PointOfInterest;
use crate::player::PlayerRow;
use crate::text::same_text;

verus! {

/// Lights that the shaders have room for.
pub const MAX_LIGHTS: usize = 32;

/// Radius of a player's light in world pixels: five tiles.
pub const PLAYER_LIGHT_RADIUS: u32 = 80;

/// Radius of a landmark's light in world pixels.
pub const POI_LIGHT_RADIUS: u32 = 48;

/// A point light in world pixels, y pointing up.
#[derive(Debug, Clone, Copy, PartialEq, Eq, Structural)]
pub struct Light {
    pub x: i64,
    pub y: i64,
    pub radius: u32,
}

/// Light on the center of a tile.
pub open spec fn light_on(tx: i32, ty: i32, radius: u32) -> Light {
    Light { x: (tx * 16) as i64, y: (-(ty * 16)) as i64, radius }
}

/// Light of the player themselves: only on the overworld, once known.
pub open spec fn own_light(initialized: bool, inside: bool, tile: (i32, i32)) -> Seq<Light> {
    if initialized && !inside {
        seq![light_on(tile.0, tile.1, PLAYER_LIGHT_RADIUS)]
    } else {
        Seq::empty()
    }
}

/// Lights of the other players on the overworld whose tile is known.
pub open spec fn player_lights(players: Seq<PlayerRow>, my_id: Seq<char>) -> Seq<Light>
    decreases players.len(),
{
    if players.len() == 0 {
        Seq::empty()
    } else {
        let before = player_lights(players.drop_last(), my_id);
        let row = players.last();
        if row.id@ != my_id && row.location is None && row.map_tile_x is Some && row.map_tile_y is Some {
            before.push(
                light_on(row.map_tile_x->0, row.map_tile_y->0, PLAYER_LIGHT_RADIUS),
            )
        } else {
            before
        }
    }
}

/// The landmark's tile has been seen.
pub open spec fn poi_is_seen(poi: PointOfInterest, fog: FogOfWar) -> bool {
    let slot = super::world_map::tile_slot(fog.width as int, poi.x as int, poi.y as int);
    slot < fog.revealed@.len() && fog.revealed@[slot]
}

/// Lights of the landmarks that the player has seen. The others stay dark, as
/// their light would show where they are.
pub open spec fn poi_lights(
    pois: Seq<PointOfInterest>,
    fog: FogOfWar,
    fog_disabled: bool,
) -> Seq<Light>
    decreases pois.len(),
{
    if pois.len() == 0 {
        Seq::empty()
    } else {
        let before = poi_lights(pois.drop_last(), fog, fog_disabled);
        if fog_disabled || poi_is_seen(pois.last(), fog) {
            before.push(
                light_on(pois.last().x as i32, pois.last().y as i32, POI_LIGHT_RADIUS),
            )
        } else {
            before
        }
    }
}

/// As many of the lights as the shaders have room for, the first ones.
pub open spec fn fitting(lights: Seq<Light>) -> Seq<Light> {
    if lights.len() <= MAX_LIGHTS {
        lights
    } else {
        lights.take(MAX_LIGHTS as int)
    }
}

fn push_light(lights: &mut Vec<Light>, Ghost(all): Ghost<Seq<Light>>, tx: i32, ty: i32, radius: u32)
    requires
        old(lights)@ == fitting(all),
    ensures
        final(lights)@ == fitting(all.push(light_on(tx, ty, radius))),
{
    if lights.len() >= MAX_LIGHTS {
        assert(lights@ =~= fitting(all.push(light_on(tx, ty, radius))));
        return ;
    }
    lights.push(Light { x: tx as i64 * 16, y: -(ty as i64 * 16), radius });
    assert(lights@ =~= fitting(all.push(light_on(tx, ty, radius))));
}

fn is_seen(poi: &PointOfInterest, fog: &FogOfWar) -> (seen: bool)
    ensures
        seen == poi_is_seen(*poi, *fog),
{
    proof {
        assert(poi.y * fog.width <= usize::MAX * usize::MAX) by (nonlinear_arith)
            requires
                poi.y <= usize::MAX,
                fog.width <= usize::MAX,
        ;
        assert(usize::MAX * usize::MAX <= 0xffff_ffff_ffff_ffff * 0xffff_ffff_ffff_ffff)
            by (nonlinear_arith)
            requires
                usize::MAX <= 0xffff_ffff_ffff_ffff,
        ;
    }
    let slot: u128 = poi.y as u128 * fog.width as u128 + poi.x as u128;
    slot < fog.revealed.len() as u128 && fog.revealed[slot as usize]
}

/// Gathers the lights of the scene: the player, the other players on the
/// overworld, and the landmarks that the player has seen, as far as there is
/// room.
pub fn gather_scene_lights(
    initialized: bool,
    inside: bool,
    tile: (i32, i32),
    players: &Vec<PlayerRow>,
    my_id: &str,
    pois: &Vec<PointOfInterest>,
    fog: &FogOfWar,
    fog_disabled: bool,
) -> (lights: Vec<Light>)
    ensures
        lights@ == fitting(
            own_light(initialized, inside, tile) + player_lights(players@, my_id@) + poi_lights(
                pois@,
                *fog,
                fog_disabled,
            ),
        ),
        lights.len() <= MAX_LIGHTS,
{
    let mut lights: Vec<Light> = Vec::new();
    let ghost own = own_light(initialized, inside, tile);
    assert(lights@ =~= fitting(Seq::empty()));
    if initialized && !inside {
        push_light(&mut lights, Ghost(Seq::empty()), tile.0, tile.1, PLAYER_LIGHT_RADIUS);
        assert(Seq::empty().push(light_on(tile.0, tile.1, PLAYER_LIGHT_RADIUS)) =~= own);
    }
    let mut i: usize = 0;
    assert(own + player_lights(players@.take(0), my_id@) =~= own);
    while i < players.len()
        invariant
            i <= players.len(),
            lights@ == fitting(own + player_lights(players@.take(i as int), my_id@)),
        decreases players.len() - i,
    {
        let row = &players[i];
        let ghost before = player_lights(players@.take(i as int), my_id@);
        proof {
            assert(players@.take(i + 1).drop_last() =~= players@.take(i as int));
            assert(players@.take(i + 1).last() == players@[i as int]);
        }
        if !same_text(row.id.as_str(), my_id) && row.location.is_none() {
            if let (Some(tx), Some(ty)) = (row.map_tile_x, row.map_tile_y) {
                push_light(&mut lights, Ghost(own + before), tx, ty, PLAYER_LIGHT_RADIUS);
                assert((own + before).push(light_on(tx, ty, PLAYER_LIGHT_RADIUS)) =~= own
                    + before.push(light_on(tx, ty, PLAYER_LIGHT_RADIUS)));
            }
        }
        i = i + 1;
    }
    assert(players@.take(i as int) =~= players@);
    let ghost people = own + player_lights(players@, my_id@);
    let mut k: usize = 0;
    assert(people + poi_lights(pois@.take(0), *fog, fog_disabled) =~= people);
    while k < pois.len()
        invariant
            k <= pois.len(),
            lights@ == fitting(people + poi_lights(pois@.take(k as int), *fog, fog_disabled)),
        decreases pois.len() - k,
    {
        let ghost before = poi_lights(pois@.take(k as int), *fog, fog_disabled);
        proof {
            assert(pois@.take(k + 1).drop_last() =~= pois@.take(k as int));
            assert(pois@.take(k + 1).last() == pois@[k as int]);
        }
        if fog_disabled || is_seen(&pois[k], fog) {
            let tx: i32 = pois[k].x as i32;
            let ty: i32 = pois[k].y as i32;
            push_light(&mut lights, Ghost(people + before), tx, ty, POI_LIGHT_RADIUS);
            assert((people + before).push(light_on(tx, ty, POI_LIGHT_RADIUS)) =~= people
                + before.push(light_on(tx, ty, POI_LIGHT_RADIUS)));
        }
        k = k + 1;
    }
    assert(pois@.take(k as int) =~= pois@);
    lights
}

/// No light gives away a landmark that the fog still hides.
pub proof fn hidden_landmarks_stay_dark(pois: Seq<PointOfInterest>, fog: FogOfWar)
    requires
        forall|i: int| 0 <= i < pois.len() ==> !poi_is_seen(#[trigger] pois[i], fog),
    ensures
        poi_lights(pois, fog, false).len() == 0,
    decreases pois.len(),
{
    if pois.len() > 0 {
        assert(pois[pois.len() - 1] == pois.last());
        assert forall|i: int| 0 <= i < pois.drop_last().len() implies !poi_is_seen(
            #[trigger] pois.drop_last()[i],
            fog,
        ) by {
            assert(pois.drop_last()[i] == pois[i]);
        }
        hidden_landmarks_stay_dark(pois.drop_last(), fog);
    }
}

/// A light stands on the center of its tile, sixteen pixels to the tile and
/// rows going down, with the radius it was given: five tiles for players,
/// three for landmarks.
pub proof fn lights_stand_on_their_tiles(tx: i32, ty: i32, radius: u32)
    requires
        -0x0400_0000 <= tx <= 0x0400_0000,
        -0x0400_0000 <= ty <= 0x0400_0000,
    ensures
        light_on(tx, ty, radius).x == 16 * tx,
        light_on(tx, ty, radius).y == -16 * ty,
        light_on(tx, ty, radius).radius == radius,
        PLAYER_LIGHT_RADIUS == 5 * 16,
        POI_LIGHT_RADIUS == 3 * 16,
{
}

/// The player's own light shows exactly on the overworld, once the player is
/// known there.
pub proof fn players_light_their_own_tile(initialized: bool, inside: bool, tile: (i32, i32))
    ensures
        own_light(initialized, inside, tile).len() == (if initialized && !inside {
            1int
        } else {
            0int
        }),
        initialized && !inside ==> own_light(initialized, inside, tile)[0] == light_on(
            tile.0,
            tile.1,
            PLAYER_LIGHT_RADIUS,
        ),
{
}

/// Another player has a light on their tile exactly where they are somebody
/// else, on the overworld, and report both coordinates.
pub proof fn others_on_the_overworld_have_lights(
    players: Seq<PlayerRow>,
    row: PlayerRow,
    my_id: Seq<char>,
)
    ensures
        player_lights(Seq::empty(), my_id).len() == 0,
        ({
            let before = player_lights(players, my_id);
            let after = player_lights(players.push(row), my_id);
            match (row.map_tile_x, row.map_tile_y) {
                (Some(x), Some(y)) => if row.id@ != my_id && row.location is None {
                    after == before.push(light_on(x, y, PLAYER_LIGHT_RADIUS))
                } else {
                    after == before
                },
                _ => after == before,
            }
        }),
{
    assert(players.push(row).drop_last() =~= players);
}

/// A landmark has a light on its tile exactly where that tile has been seen, or
/// where the fog is switched off.
pub proof fn seen_landmarks_have_lights(
    pois: Seq<PointOfInterest>,
    poi: PointOfInterest,
    fog: FogOfWar,
    fog_disabled: bool,
)
    requires
        fog.wf(),
        poi.x < fog.width,
        poi.y < fog.height,
    ensures
        poi_lights(Seq::empty(), fog, fog_disabled).len() == 0,
        ({
            let before = poi_lights(pois, fog, fog_disabled);
            let after = poi_lights(pois.push(poi), fog, fog_disabled);
            if fog_disabled || fog.seen(poi.x as int, poi.y as int) {
                after == before.push(light_on(poi.x as i32, poi.y as i32, POI_LIGHT_RADIUS))
            } else {
                after == before
            }
        }),
{
    assert(pois.push(poi).drop_last() =~= pois);
    super::world_map::lemma_tile_slot(
        fog.width as int,
        fog.height as int,
        poi.x as int,
        poi.y as int,
    );
}

/// The first thirty-two lights are kept, all of them where there are no more.
pub proof fn first_lights_are_kept(lights: Seq<Light>)
    ensures
        fitting(lights).is_prefix_of(lights),
        lights.len() <= 32 ==> fitting(lights) == lights,
        lights.len() > 32 ==> fitting(lights).len() == 32,
{
}

} // verus!
