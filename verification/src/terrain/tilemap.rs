//! What stands on the map: champions and their walk cycle, landmarks, chests,
//! monsters, other players and shop markers.

use vstd::prelude::*;
use vstd::string::StringExecFns;

use super::fog::FogOfWar;
use super::path::{
    crosses, position_and_index_from_route_meters, position_from_route_meters, spot_at, stops_at,
    RouteSpot,
};
use super::world::{WorldGrid, WORLD_H, WORLD_W};
use super::world_map::{MonsterSpawn, MonsterType, PoiType, PointOfInterest, WorldMap};
use crate::reconcile::{missing_from, reconcile, Changes};
use crate::player::{chest_id, co_located, is_co_located, map_monster_id, Facing, PlayerRow};
use crate::text::{append_decimal, contains_text, decimal_text, same_text, texts};

verus! {

#[derive(Debug, Clone, Copy, PartialEq, Eq, Hash, Structural)]
pub enum Champion {
    Zhinja,
    Arthax,
    Borg,
    Gangblanc,
    Grum,
    Kanji,
    Okomo,
    Katan,
}

/// Sprite sheet of a champion. Frames are 16×16 pixels in a grid, which some
/// sheets pad.
///
/// `facing_rows` and `facing_flip` give the row and the mirroring for each
/// facing, in the order Down, Up, Right, Left.
#[derive(Debug, Clone, Copy)]
pub struct ChampionInfo {
    pub champion: Champion,
    pub cols: u32,
    pub rows: u32,
    pub padded: bool,
    pub facing_rows: [usize; 4],
    pub facing_flip: [bool; 4],
}

/// Champion of that name; Katan for any other.
pub open spec fn champion_named(name: Seq<char>) -> Champion {
    if name == "Zhinja"@ {
        Champion::Zhinja
    } else if name == "Arthax"@ {
        Champion::Arthax
    } else if name == "Börg"@ {
        Champion::Borg
    } else if name == "Gangblanc"@ {
        Champion::Gangblanc
    } else if name == "Grum"@ {
        Champion::Grum
    } else if name == "Kanji"@ {
        Champion::Kanji
    } else if name == "Okomo"@ {
        Champion::Okomo
    } else {
        Champion::Katan
    }
}

/// Columns and rows of a champion's sheet.
pub open spec fn sheet_size(champion: Champion) -> (u32, u32) {
    match champion {
        Champion::Zhinja => (6, 9),
        Champion::Arthax => (5, 8),
        Champion::Borg => (6, 8),
        Champion::Gangblanc => (8, 8),
        Champion::Grum => (5, 9),
        Champion::Kanji => (6, 8),
        Champion::Okomo => (5, 12),
        Champion::Katan => (6, 8),
    }
}

/// Row for each facing. Zhinja's sheet shows Left in row 0, Down in row 1 and
/// Up in row 2.
pub open spec fn rows_by_facing(champion: Champion) -> Seq<usize> {
    if champion == Champion::Zhinja {
        seq![1, 2, 0, 0]
    } else {
        seq![0, 1, 2, 3]
    }
}

/// Mirroring for each facing. Zhinja faces Right in the mirrored Left row.
pub open spec fn flips_by_facing(champion: Champion) -> Seq<bool> {
    seq![false, false, champion == Champion::Zhinja, false]
}

fn find_champion(name: &str) -> (champion: Champion)
    ensures
        champion == champion_named(name@),
{
    if same_text(name, "Zhinja") {
        Champion::Zhinja
    } else if same_text(name, "Arthax") {
        Champion::Arthax
    } else if same_text(name, "Börg") {
        Champion::Borg
    } else if same_text(name, "Gangblanc") {
        Champion::Gangblanc
    } else if same_text(name, "Grum") {
        Champion::Grum
    } else if same_text(name, "Kanji") {
        Champion::Kanji
    } else if same_text(name, "Okomo") {
        Champion::Okomo
    } else {
        Champion::Katan
    }
}

/// Looks up the sprite sheet of a champion. Unknown names fall back to Katan.
pub fn champion_info(name: &str) -> (info: ChampionInfo)
    ensures
        info.champion == champion_named(name@),
        (info.cols, info.rows) == sheet_size(info.champion),
        info.padded == (info.champion == Champion::Zhinja || info.champion == Champion::Katan),
        info.facing_rows@ == rows_by_facing(info.champion),
        info.facing_flip@ == flips_by_facing(info.champion),
{
    let champion = find_champion(name);
    let (cols, rows): (u32, u32) = match champion {
        Champion::Zhinja => (6, 9),
        Champion::Arthax => (5, 8),
        Champion::Borg => (6, 8),
        Champion::Gangblanc => (8, 8),
        Champion::Grum => (5, 9),
        Champion::Kanji => (6, 8),
        Champion::Okomo => (5, 12),
        Champion::Katan => (6, 8),
    };
    let padded: bool = match champion {
        Champion::Zhinja | Champion::Katan => true,
        _ => false,
    };
    let mirrored: bool = champion == Champion::Zhinja;
    let facing_rows: [usize; 4] = if mirrored {
        [1, 2, 0, 0]
    } else {
        [0, 1, 2, 3]
    };
    ChampionInfo {
        champion,
        cols,
        rows,
        padded,
        facing_rows,
        facing_flip: [false, false, mirrored, false],
    }
}

/// Every facing has its row on the champion's sheet.
pub proof fn facing_rows_are_on_the_sheet(champion: Champion, facing: Facing)
    ensures
        rows_by_facing(champion)[facing_slot(facing)] < sheet_size(champion).1,
{
}

/// Place of a facing in the order Down, Up, Right, Left.
pub open spec fn facing_slot(facing: Facing) -> int {
    match facing {
        Facing::Down => 0,
        Facing::Up => 1,
        Facing::Right => 2,
        Facing::Left => 3,
    }
}

/// Index of a facing direction (0=Down, 1=Up, 2=Right, 3=Left).
pub fn facing_idx(facing: Facing) -> (idx: usize)
    ensures
        idx == facing_slot(facing),
        idx < 4,
{
    match facing {
        Facing::Down => 0,
        Facing::Up => 1,
        Facing::Right => 2,
        Facing::Left => 3,
    }
}

/// Name of the champion of the player's own sprite.
pub open spec fn own_choice(chosen: Seq<char>) -> Seq<char> {
    if chosen.len() > 0 {
        chosen
    } else {
        "Katan"@
    }
}

/// Name of the champion of another player's sprite.
pub open spec fn other_choice(chosen: Option<String>) -> Seq<char> {
    match chosen {
        Some(champion) => if champion@.len() > 0 {
            champion@
        } else {
            "Zhinja"@
        },
        None => "Zhinja"@,
    }
}

/// Champion that the player's own sprite shows.
pub fn own_champion(chosen: &str) -> (name: &str)
    ensures
        name@ == own_choice(chosen@),
{
    if !chosen.is_empty() {
        chosen
    } else {
        "Katan"
    }
}

/// Champion that another player's sprite shows.
pub fn other_champion(chosen: &Option<String>) -> (name: &str)
    ensures
        name@ == other_choice(*chosen),
{
    match chosen {
        Some(champion) => if !champion.as_str().is_empty() {
            champion.as_str()
        } else {
            "Zhinja"
        },
        None => "Zhinja",
    }
}

/// Walk cycle of a champion's sprite.
#[derive(Debug, Clone, Copy)]
pub struct WalkAnimation {
    pub frame: usize,
    pub moving: bool,
    pub info: ChampionInfo,
}

/// What a sprite shows after a step of its animation.
#[derive(Debug, Clone, Copy, PartialEq, Eq, Structural)]
pub struct SpritePose {
    pub flip: bool,
    /// Frame to switch to; `None` leaves the sprite as it is.
    pub atlas_index: Option<usize>,
}

impl WalkAnimation {
    /// The frame is one of the walk cycle and the sheet is a champion's.
    pub open spec fn wf(&self) -> bool {
        &&& self.frame <= 4
        &&& self.info.facing_rows@ == rows_by_facing(self.info.champion)
        &&& self.info.facing_flip@ == flips_by_facing(self.info.champion)
        &&& (self.info.cols, self.info.rows) == sheet_size(self.info.champion)
    }

    /// The frame after a step of the animation.
    pub open spec fn next_frame(&self, walking: bool, timer_up: bool) -> int {
        if !walking {
            if self.moving {
                0
            } else {
                self.frame as int
            }
        } else if timer_up {
            self.frame as int % 4 + 1
        } else {
            self.frame as int
        }
    }

    /// What the sprite shows after a step of the animation.
    pub open spec fn next_pose(&self, facing: Facing, walking: bool, timer_up: bool) -> SpritePose {
        SpritePose {
            flip: flips_by_facing(self.info.champion)[facing_slot(facing)],
            atlas_index: if walking || self.moving {
                Some(
                    (rows_by_facing(self.info.champion)[facing_slot(facing)] * self.info.cols
                        + self.next_frame(walking, timer_up)) as usize,
                )
            } else {
                None
            },
        }
    }

    /// Animation of a sprite that stands still.
    pub fn standing(info: ChampionInfo) -> (anim: WalkAnimation)
        ensures
            anim.frame == 0,
            !anim.moving,
            anim.info == info,
    {
        WalkAnimation { frame: 0, moving: false, info }
    }

    /// Advances the animation. A walking sprite goes on to the next of the
    /// frames 1 to 4 whenever its timer is up; one that stops falls back to
    /// the first frame of its row.
    pub fn animate(&mut self, facing: Facing, walking: bool, timer_up: bool) -> (pose: SpritePose)
        requires
            old(self).wf(),
        ensures
            final(self).wf(),
            final(self).info == old(self).info,
            final(self).moving == walking,
            final(self).frame == old(self).next_frame(walking, timer_up),
            pose == old(self).next_pose(facing, walking, timer_up),
            pose.atlas_index matches Some(index) ==> index < old(self).info.cols
                * old(self).info.rows,
    {
        let idx: usize = facing_idx(facing);
        let flip: bool = self.info.facing_flip[idx];
        let cols: usize = self.info.cols as usize;
        let row: usize = self.info.facing_rows[idx];
        proof {
            assert(row <= 3);
            assert(0 <= row * cols <= 3 * cols) by (nonlinear_arith)
                requires
                    row <= 3,
            ;
            assert(row * cols + cols <= self.info.cols * self.info.rows) by (nonlinear_arith)
                requires
                    row + 1 <= self.info.rows,
                    cols == self.info.cols,
            ;
        }
        if walking {
            if timer_up {
                self.frame = self.frame % 4 + 1;
            }
            self.moving = true;
            SpritePose { flip, atlas_index: Some(row * cols + self.frame) }
        } else if self.moving {
            self.moving = false;
            self.frame = 0;
            SpritePose { flip, atlas_index: Some(row * cols) }
        } else {
            SpritePose { flip, atlas_index: None }
        }
    }
}

/// The path of the illustration of a landmark, and its size in tiles.
pub open spec fn illustration(poi_type: PoiType) -> Option<(Seq<char>, u32)> {
    match poi_type {
        PoiType::Town => Some(("poi/town.png"@, 1)),
        PoiType::Village => Some(("poi/village.png"@, 1)),
        PoiType::Cave => Some(("poi/cave_entrance.png"@, 1)),
        PoiType::Cabin => Some(("poi/cabin.png"@, 1)),
        PoiType::Shrine => Some(("poi/witch_hut.png"@, 1)),
        PoiType::Ruins => Some(("poi/ruins.png"@, 1)),
        PoiType::Dungeon => Some(("poi/dungeon.png"@, 1)),
        PoiType::Camp => Some(("poi/camp.png"@, 1)),
        PoiType::Tower => Some(("poi/tower.png"@, 1)),
        PoiType::CastleFrost => Some(("generated/poi/castle_frost.png"@, 3)),
        PoiType::CastleFlame => Some(("generated/poi/castle_flame.png"@, 3)),
        PoiType::CastleShadow => Some(("generated/poi/castle_shadow.png"@, 3)),
        PoiType::CastleStorm => Some(("generated/poi/castle_storm.png"@, 3)),
        PoiType::TravelGate => Some(("generated/poi/travel_gate.png"@, 1)),
        PoiType::RefugeeCamp => Some(("generated/poi/refugee_camp.png"@, 2)),
        PoiType::WizardsSpire => Some(("generated/poi/wizards_spire.png"@, 2)),
        PoiType::Port => None,
    }
}

/// Illustration of a landmark, if it has one, with its size in tiles. At most
/// three tiles each way are free of overlays around a landmark.
pub fn poi_sprite_path(poi_type: PoiType) -> (sprite: Option<(&'static str, u32)>)
    ensures
        match sprite {
            Some((path, tiles)) => illustration(poi_type) == Some((path@, tiles)),
            None => illustration(poi_type) is None,
        },
        sprite matches Some((_, tiles)) ==> 1 <= tiles <= 3,
{
    match poi_type {
        PoiType::Town => Some(("poi/town.png", 1)),
        PoiType::Village => Some(("poi/village.png", 1)),
        PoiType::Cave => Some(("poi/cave_entrance.png", 1)),
        PoiType::Cabin => Some(("poi/cabin.png", 1)),
        PoiType::Shrine => Some(("poi/witch_hut.png", 1)),
        PoiType::Ruins => Some(("poi/ruins.png", 1)),
        PoiType::Dungeon => Some(("poi/dungeon.png", 1)),
        PoiType::Camp => Some(("poi/camp.png", 1)),
        PoiType::Tower => Some(("poi/tower.png", 1)),
        PoiType::CastleFrost => Some(("generated/poi/castle_frost.png", 3)),
        PoiType::CastleFlame => Some(("generated/poi/castle_flame.png", 3)),
        PoiType::CastleShadow => Some(("generated/poi/castle_shadow.png", 3)),
        PoiType::CastleStorm => Some(("generated/poi/castle_storm.png", 3)),
        PoiType::TravelGate => Some(("generated/poi/travel_gate.png", 1)),
        PoiType::RefugeeCamp => Some(("generated/poi/refugee_camp.png", 2)),
        PoiType::WizardsSpire => Some(("generated/poi/wizards_spire.png", 2)),
        PoiType::Port => None,
    }
}

/// What the label of a landmark says.
pub open spec fn poi_text(poi_type: PoiType) -> Seq<char> {
    match poi_type {
        PoiType::Town => "Town"@,
        PoiType::Village => "Village"@,
        PoiType::Cave => "Cave"@,
        PoiType::Cabin => "Cabin"@,
        PoiType::Shrine => "Shrine"@,
        PoiType::Ruins => "Ruins"@,
        PoiType::Dungeon => "Dungeon"@,
        PoiType::Camp => "Camp"@,
        PoiType::Tower => "Tower"@,
        PoiType::Port => "Port"@,
        PoiType::CastleFrost => "CastleFrost"@,
        PoiType::CastleFlame => "CastleFlame"@,
        PoiType::CastleShadow => "CastleShadow"@,
        PoiType::CastleStorm => "CastleStorm"@,
        PoiType::TravelGate => "TravelGate"@,
        PoiType::RefugeeCamp => "RefugeeCamp"@,
        PoiType::WizardsSpire => "WizardsSpire"@,
    }
}

/// The label of a landmark.
pub fn poi_label(poi_type: PoiType) -> (label: &'static str)
    ensures
        label@ == poi_text(poi_type),
{
    match poi_type {
        PoiType::Town => "Town",
        PoiType::Village => "Village",
        PoiType::Cave => "Cave",
        PoiType::Cabin => "Cabin",
        PoiType::Shrine => "Shrine",
        PoiType::Ruins => "Ruins",
        PoiType::Dungeon => "Dungeon",
        PoiType::Camp => "Camp",
        PoiType::Tower => "Tower",
        PoiType::Port => "Port",
        PoiType::CastleFrost => "CastleFrost",
        PoiType::CastleFlame => "CastleFlame",
        PoiType::CastleShadow => "CastleShadow",
        PoiType::CastleStorm => "CastleStorm",
        PoiType::TravelGate => "TravelGate",
        PoiType::RefugeeCamp => "RefugeeCamp",
        PoiType::WizardsSpire => "WizardsSpire",
    }
}

/// Hundredths of a second between a monster's idle frames.
pub open spec fn idle_hundredths(difficulty: u32) -> u32 {
    if difficulty <= 1 {
        90
    } else if difficulty == 2 {
        60
    } else if difficulty == 3 {
        40
    } else if difficulty == 4 {
        25
    } else {
        15
    }
}

/// Monster idle-frame period in hundredths of a second: the more dangerous the
/// monster, the livelier.
pub fn monster_idle_period(difficulty: u32) -> (period: u32)
    ensures
        period == idle_hundredths(difficulty),
{
    match difficulty {
        0..=1 => 90,
        2 => 60,
        3 => 40,
        4 => 25,
        _ => 15,
    }
}

/// A more dangerous monster never moves more slowly.
pub proof fn danger_is_lively(difficulty: u32, more: u32)
    requires
        difficulty <= more,
    ensures
        idle_hundredths(more) <= idle_hundredths(difficulty),
{
}

/// The frame of a monster after a step of its animation.
pub open spec fn monster_frame(frame: int, frames: int, timer_up: bool) -> int {
    if !timer_up {
        frame
    } else if frames >= 2 {
        frame % (frames - 1) + 1
    } else {
        1
    }
}

/// Next frame of a monster with that many frames. Frame 0, the idle pose, is
/// only shown until the timer is up for the first time.
pub fn animate_monster(frame: usize, frames: usize, timer_up: bool) -> (next: usize)
    ensures
        next == monster_frame(frame as int, frames as int, timer_up),
        timer_up && frames >= 2 ==> 1 <= next < frames,
{
    if !timer_up {
        return frame;
    }
    let max_frame: usize = if frames >= 2 {
        frames - 1
    } else {
        1
    };
    frame % max_frame + 1
}

/// What is built for a session of that seed and size.
pub open spec fn settings_of(seed: u64, width: u32, height: u32) -> (u64, usize, usize) {
    (
        if seed != 0 {
            seed
        } else {
            12345
        },
        if width != 0 {
            width as usize
        } else {
            WORLD_W
        },
        if height != 0 {
            height as usize
        } else {
            WORLD_H
        },
    )
}

/// Seed and size of the world to build; what the session leaves open (zero) is
/// that of the first adventure.
pub fn world_settings(seed: u64, width: u32, height: u32) -> (settings: (u64, usize, usize))
    ensures
        settings == settings_of(seed, width, height),
{
    (
        if seed != 0 {
            seed
        } else {
            12345
        },
        if width != 0 {
            width as usize
        } else {
            WORLD_W
        },
        if height != 0 {
            height as usize
        } else {
            WORLD_H
        },
    )
}

/// Center of a map of so many columns and rows.
pub open spec fn center_of(w: int, h: int) -> (int, int) {
    (8 * w - 8, 8 - 8 * h)
}

/// World position of the center of a map of so many tiles; the center of its
/// first tile is the origin, and rows go down.
pub fn map_center(w: u32, h: u32) -> (center: (i64, i64))
    ensures
        center.0 == center_of(w as int, h as int).0,
        center.1 == center_of(w as int, h as int).1,
{
    (8 * w as i64 - 8, 8 - 8 * h as i64)
}

/// How many times larger than the map the fog's mesh is, so that nothing shows
/// around the map.
pub const FOG_SCALE: u32 = 6;

/// Width and height in pixels of the fog over a map of so many tiles.
pub fn fog_cover(w: u32, h: u32) -> (size: (u64, u64))
    ensures
        size.0 == w * 16 * FOG_SCALE,
        size.1 == h * 16 * FOG_SCALE,
{
    (w as u64 * 16 * 6, h as u64 * 16 * 6)
}

/// A chest's sprite: its index on the map and its world position.
#[derive(Debug, Clone, Copy, PartialEq, Eq, Structural)]
pub struct ChestSprite {
    pub index: usize,
    pub x: i64,
    pub y: i64,
}

/// A monster's sprite: its index on the map, whose sheet it shows, how often
/// its frames change, and its world position.
#[derive(Debug, Clone, Copy, PartialEq, Eq, Structural)]
pub struct MonsterSprite {
    pub index: usize,
    pub monster_type: MonsterType,
    pub period_hundredths: u32,
    pub x: i64,
    pub y: i64,
}

/// A landmark's label, a little below the landmark.
#[derive(Debug, Clone, Copy, PartialEq, Eq, Structural)]
pub struct PoiLabel {
    pub poi_type: PoiType,
    pub x: i64,
    pub y: i64,
}

/// A landmark's illustration: a square of so many pixels around its tile.
#[derive(Debug, Clone, Copy, PartialEq, Eq, Structural)]
pub struct PoiCustomSprite {
    pub poi_type: PoiType,
    pub size_px: u32,
    pub x: i64,
    pub y: i64,
}

/// Everything placed on the map when the world appears.
#[derive(Debug, Clone)]
pub struct WorldScene {
    pub chests: Vec<ChestSprite>,
    pub monsters: Vec<MonsterSprite>,
    pub labels: Vec<PoiLabel>,
    pub landmarks: Vec<PoiCustomSprite>,
}

/// Chests, monsters and landmarks have coordinates that a sprite can have.
pub open spec fn placeable(map: WorldMap) -> bool {
    &&& forall|i: int| #![trigger map.chests@[i]]
        0 <= i < map.chests.len() ==> map.chests@[i].0 <= u32::MAX && map.chests@[i].1 <= u32::MAX
    &&& forall|i: int| #![trigger map.monsters@[i]]
        0 <= i < map.monsters.len() ==> map.monsters@[i].x <= u32::MAX && map.monsters@[i].y
            <= u32::MAX
    &&& forall|i: int| #![trigger map.pois@[i]]
        0 <= i < map.pois.len() ==> map.pois@[i].x <= u32::MAX && map.pois@[i].y <= u32::MAX
}

pub open spec fn chest_sprite(chests: Seq<(usize, usize)>, i: int) -> ChestSprite {
    ChestSprite {
        index: i as usize,
        x: (chests[i].0 * 16) as i64,
        y: (-(chests[i].1 * 16)) as i64,
    }
}

pub open spec fn monster_sprite(monsters: Seq<MonsterSpawn>, i: int) -> MonsterSprite {
    MonsterSprite {
        index: i as usize,
        monster_type: monsters[i].monster_type,
        period_hundredths: idle_hundredths(monsters[i].difficulty),
        x: (monsters[i].x * 16) as i64,
        y: (-(monsters[i].y * 16)) as i64,
    }
}

pub open spec fn label_of(poi: PointOfInterest) -> PoiLabel {
    PoiLabel {
        poi_type: poi.poi_type,
        x: (poi.x * 16) as i64,
        y: (-(poi.y * 16) - 12) as i64,
    }
}

/// The illustrations of the landmarks that have one.
pub open spec fn landmark_sprites(pois: Seq<PointOfInterest>) -> Seq<PoiCustomSprite>
    decreases pois.len(),
{
    if pois.len() == 0 {
        Seq::empty()
    } else {
        let before = landmark_sprites(pois.drop_last());
        let poi = pois.last();
        match illustration(poi.poi_type) {
            Some((_, tiles)) => before.push(
                PoiCustomSprite {
                    poi_type: poi.poi_type,
                    size_px: (tiles * 16) as u32,
                    x: (poi.x * 16) as i64,
                    y: (-(poi.y * 16)) as i64,
                },
            ),
            None => before,
        }
    }
}

fn place_chests(chests: &Vec<(usize, usize)>) -> (sprites: Vec<ChestSprite>)
    requires
        forall|i: int| #![trigger chests@[i]]
            0 <= i < chests.len() ==> chests@[i].0 <= u32::MAX && chests@[i].1 <= u32::MAX,
    ensures
        sprites@ == Seq::new(chests@.len(), |i: int| chest_sprite(chests@, i)),
{
    let mut sprites: Vec<ChestSprite> = Vec::new();
    let mut i: usize = 0;
    while i < chests.len()
        invariant
            forall|i: int| #![trigger chests@[i]]
                0 <= i < chests.len() ==> chests@[i].0 <= u32::MAX && chests@[i].1 <= u32::MAX,
            i <= chests.len(),
            sprites@ == Seq::new(i as nat, |j: int| chest_sprite(chests@, j)),
        decreases chests.len() - i,
    {
        let (x, y) = WorldGrid::tile_to_world(chests[i].0, chests[i].1);
        sprites.push(ChestSprite { index: i, x, y });
        i = i + 1;
    }
    sprites
}

fn place_monsters(monsters: &Vec<MonsterSpawn>) -> (sprites: Vec<MonsterSprite>)
    requires
        forall|i: int| #![trigger monsters@[i]]
            0 <= i < monsters.len() ==> monsters@[i].x <= u32::MAX && monsters@[i].y <= u32::MAX,
    ensures
        sprites@ == Seq::new(monsters@.len(), |i: int| monster_sprite(monsters@, i)),
{
    let mut sprites: Vec<MonsterSprite> = Vec::new();
    let mut i: usize = 0;
    while i < monsters.len()
        invariant
            forall|i: int| #![trigger monsters@[i]]
                0 <= i < monsters.len() ==> monsters@[i].x <= u32::MAX && monsters@[i].y
                    <= u32::MAX,
            i <= monsters.len(),
            sprites@ == Seq::new(i as nat, |j: int| monster_sprite(monsters@, j)),
        decreases monsters.len() - i,
    {
        let monster = &monsters[i];
        let (x, y) = WorldGrid::tile_to_world(monster.x, monster.y);
        sprites.push(
            MonsterSprite {
                index: i,
                monster_type: monster.monster_type,
                period_hundredths: monster_idle_period(monster.difficulty),
                x,
                y,
            },
        );
        i = i + 1;
    }
    sprites
}

/// Whether everything on the map has coordinates that a sprite can have.
pub fn is_placeable(map: &WorldMap) -> (ok: bool)
    ensures
        ok == placeable(*map),
{
    let mut i: usize = 0;
    while i < map.chests.len()
        invariant
            i <= map.chests.len(),
            forall|j: int| #![trigger map.chests@[j]]
                0 <= j < i ==> map.chests@[j].0 <= u32::MAX && map.chests@[j].1 <= u32::MAX,
        decreases map.chests.len() - i,
    {
        if !has_place(map.chests[i].0, map.chests[i].1) {
            return false;
        }
        i = i + 1;
    }
    let mut i: usize = 0;
    while i < map.monsters.len()
        invariant
            i <= map.monsters.len(),
            forall|j: int| #![trigger map.monsters@[j]]
                0 <= j < i ==> map.monsters@[j].x <= u32::MAX && map.monsters@[j].y <= u32::MAX,
        decreases map.monsters.len() - i,
    {
        if !has_place(map.monsters[i].x, map.monsters[i].y) {
            return false;
        }
        i = i + 1;
    }
    let mut i: usize = 0;
    while i < map.pois.len()
        invariant
            i <= map.pois.len(),
            forall|j: int| #![trigger map.pois@[j]]
                0 <= j < i ==> map.pois@[j].x <= u32::MAX && map.pois@[j].y <= u32::MAX,
        decreases map.pois.len() - i,
    {
        if !has_place(map.pois[i].x, map.pois[i].y) {
            return false;
        }
        i = i + 1;
    }
    true
}

/// Whether a tile has a place in world space.
pub fn has_place(x: usize, y: usize) -> (ok: bool)
    ensures
        ok == (x <= u32::MAX && y <= u32::MAX),
{
    x as u64 <= u32::MAX as u64 && y as u64 <= u32::MAX as u64
}

fn place_labels(pois: &Vec<PointOfInterest>) -> (labels: Vec<PoiLabel>)
    requires
        forall|i: int| #![trigger pois@[i]]
            0 <= i < pois.len() ==> pois@[i].x <= u32::MAX && pois@[i].y <= u32::MAX,
    ensures
        labels@ == pois@.map_values(|poi: PointOfInterest| label_of(poi)),
{
    let mut labels: Vec<PoiLabel> = Vec::new();
    let mut i: usize = 0;
    while i < pois.len()
        invariant
            forall|i: int| #![trigger pois@[i]]
                0 <= i < pois.len() ==> pois@[i].x <= u32::MAX && pois@[i].y <= u32::MAX,
            i <= pois.len(),
            labels@ == pois@.take(i as int).map_values(|poi: PointOfInterest| label_of(poi)),
        decreases pois.len() - i,
    {
        let (x, y) = WorldGrid::tile_to_world(pois[i].x, pois[i].y);
        labels.push(PoiLabel { poi_type: pois[i].poi_type, x, y: y - 12 });
        i = i + 1;
    }
    assert(pois@.take(i as int) =~= pois@);
    labels
}

fn place_landmarks(pois: &Vec<PointOfInterest>) -> (sprites: Vec<PoiCustomSprite>)
    requires
        forall|i: int| #![trigger pois@[i]]
            0 <= i < pois.len() ==> pois@[i].x <= u32::MAX && pois@[i].y <= u32::MAX,
    ensures
        sprites@ == landmark_sprites(pois@),
{
    let mut sprites: Vec<PoiCustomSprite> = Vec::new();
    let mut i: usize = 0;
    while i < pois.len()
        invariant
            forall|i: int| #![trigger pois@[i]]
                0 <= i < pois.len() ==> pois@[i].x <= u32::MAX && pois@[i].y <= u32::MAX,
            i <= pois.len(),
            sprites@ == landmark_sprites(pois@.take(i as int)),
        decreases pois.len() - i,
    {
        proof {
            assert(pois@.take(i + 1).drop_last() =~= pois@.take(i as int));
            assert(pois@.take(i + 1).last() == pois@[i as int]);
        }
        let poi = &pois[i];
        if let Some((_, tiles)) = poi_sprite_path(poi.poi_type) {
            let (x, y) = WorldGrid::tile_to_world(poi.x, poi.y);
            sprites.push(PoiCustomSprite { poi_type: poi.poi_type, size_px: tiles * 16, x, y });
        }
        i = i + 1;
    }
    assert(pois@.take(i as int) =~= pois@);
    sprites
}

/// Places everything that stands on the map.
pub fn spawn_world(map: &WorldMap) -> (scene: WorldScene)
    requires
        placeable(*map),
    ensures
        scene.chests@ == Seq::new(map.chests@.len(), |i: int| chest_sprite(map.chests@, i)),
        scene.monsters@ == Seq::new(map.monsters@.len(), |i: int| monster_sprite(map.monsters@, i)),
        scene.labels@ == map.pois@.map_values(|poi: PointOfInterest| label_of(poi)),
        scene.landmarks@ == landmark_sprites(map.pois@),
{
    WorldScene {
        chests: place_chests(&map.chests),
        monsters: place_monsters(&map.monsters),
        labels: place_labels(&map.pois),
        landmarks: place_landmarks(&map.pois),
    }
}

/// A chest that was opened is taken off the map.
pub fn chest_is_gone(index: usize, opened_chests: &[String]) -> (gone: bool)
    ensures
        gone == texts(opened_chests@).contains("chest_"@ + decimal_text(index as nat)),
{
    contains_text(opened_chests, chest_id(index).as_str())
}

/// A monster that was defeated is taken off the map.
pub fn monster_is_gone(index: usize, defeated_monsters: &[String]) -> (gone: bool)
    ensures
        gone == texts(defeated_monsters@).contains("monster_"@ + decimal_text(index as nat)),
{
    contains_text(defeated_monsters, map_monster_id(index).as_str())
}

/// Where another player is drawn.
#[derive(Debug, Clone, Copy, PartialEq, Eq, Structural)]
pub enum OtherSpot {
    /// On the center of a tile.
    Tile(usize, usize),
    /// Somewhere along their route.
    OnRoute(RouteSpot),
}

/// The tile that the server reports for a player.
pub open spec fn reported_spot(row: PlayerRow) -> OtherSpot {
    OtherSpot::Tile(
        (match row.map_tile_x {
            Some(x) => x,
            None => 0i32,
        }) as usize,
        (match row.map_tile_y {
            Some(y) => y,
            None => 0i32,
        }) as usize,
    )
}

/// Meters that another player has walked: those the server projects, else
/// those it has counted, else none.
pub open spec fn other_meters(projected: Option<i64>, walked: Option<i64>) -> i64 {
    match projected {
        Some(meters) => meters,
        None => match walked {
            Some(meters) => meters,
            None => 0,
        },
    }
}

/// The player follows a route that could be read.
pub open spec fn follows_route(row: PlayerRow, route: Option<Vec<(usize, usize)>>) -> bool {
    &&& row.planned_route matches Some(text) && text@.len() > 0
    &&& route matches Some(tiles) && tiles@.len() > 0
}

/// Where along a route a walker stands who has walked that many meters of it.
pub open spec fn is_spot_on_route(
    world: WorldGrid,
    route: Seq<(usize, usize)>,
    meters: int,
    spot: OtherSpot,
) -> bool {
    exists|i: int| #[trigger]
        stops_at(world, route, meters, i) && spot == OtherSpot::OnRoute(spot_at(world, route, i))
}

/// Where another player is drawn: along their route as far as they have
/// walked it, else on the tile the server reports. `route` is what the
/// player's planned route reads as, if it can be read.
pub fn other_player_spot(
    row: &PlayerRow,
    route: &Option<Vec<(usize, usize)>>,
    projected: Option<i64>,
    walked: Option<i64>,
    world: &WorldGrid,
) -> (spot: OtherSpot)
    requires
        world.wf(),
    ensures
        !follows_route(*row, *route) ==> spot == reported_spot(*row),
        follows_route(*row, *route) ==> is_spot_on_route(
            *world,
            (*route)->0@,
            other_meters(projected, walked) as int,
            spot,
        ),
{
    let tile = OtherSpot::Tile(
        (match row.map_tile_x {
            Some(x) => x,
            None => 0,
        }) as usize,
        (match row.map_tile_y {
            Some(y) => y,
            None => 0,
        }) as usize,
    );
    let planned: bool = match &row.planned_route {
        Some(text) => !text.as_str().is_empty(),
        None => false,
    };
    if !planned {
        return tile;
    }
    match route {
        Some(tiles) => {
            let meters: i64 = match projected {
                Some(meters) => meters,
                None => match walked {
                    Some(meters) => meters,
                    None => 0,
                },
            };
            match position_from_route_meters(tiles.as_slice(), meters, world) {
                Some(spot) => {
                    proof {
                        let i = choose|i: int| #[trigger]
                            stops_at(*world, tiles@, meters as int, i) && spot == spot_at(
                                *world,
                                tiles@,
                                i,
                            );
                        assert(stops_at(*world, tiles@, meters as int, i));
                        assert(is_spot_on_route(
                            *world,
                            tiles@,
                            meters as int,
                            OtherSpot::OnRoute(spot),
                        ));
                    }
                    OtherSpot::OnRoute(spot)
                },
                None => tile,
            }
        },
        None => tile,
    }
}

/// What becomes of the sprites of other players.
#[derive(Debug, Clone)]
pub struct OtherPlayersPlan {
    /// For each sprite: whether to hide it.
    pub hidden: Vec<bool>,
    /// For each reported player: whether they are drawn.
    pub draw: Vec<bool>,
    /// For each reported player: whether a sprite has to be made first.
    pub spawn: Vec<bool>,
}

/// Somebody with that id is drawn.
pub open spec fn is_drawn(players: Seq<PlayerRow>, my_id: Seq<char>, id: Seq<char>) -> bool {
    exists|i: int|
        0 <= i < players.len() && (#[trigger] players[i]).id@ == id && is_co_located(
            players,
            my_id,
            players[i],
        )
}

fn drawn(players: &Vec<PlayerRow>, draw: &Vec<bool>, my_id: &str, id: &str) -> (found: bool)
    requires
        draw.len() == players.len(),
        forall|i: int|
            0 <= i < players.len() ==> #[trigger] draw@[i] == is_co_located(
                players@,
                my_id@,
                players@[i],
            ),
    ensures
        found == is_drawn(players@, my_id@, id@),
{
    let mut i: usize = 0;
    while i < players.len()
        invariant
            i <= players.len(),
            draw.len() == players.len(),
            forall|i: int|
                0 <= i < players.len() ==> #[trigger] draw@[i] == is_co_located(
                    players@,
                    my_id@,
                    players@[i],
                ),
            forall|j: int|
                0 <= j < i ==> !((#[trigger] players@[j]).id@ == id@ && is_co_located(
                    players@,
                    my_id@,
                    players@[j],
                )),
        decreases players.len() - i,
    {
        if draw[i] && same_text(players[i].id.as_str(), id) {
            return true;
        }
        i = i + 1;
    }
    false
}

/// Decides which sprites of other players are hidden, which players are drawn,
/// and who of them needs a new sprite. `sprites` holds the player ids of the
/// sprites there are.
pub fn update_other_players(
    players: &Vec<PlayerRow>,
    my_id: &str,
    sprites: &Vec<String>,
) -> (plan: OtherPlayersPlan)
    ensures
        plan.hidden.len() == sprites.len(),
        plan.draw.len() == players.len(),
        plan.spawn.len() == players.len(),
        forall|i: int|
            0 <= i < sprites.len() ==> #[trigger] plan.hidden@[i] == !is_drawn(
                players@,
                my_id@,
                sprites@[i]@,
            ),
        forall|i: int|
            0 <= i < players.len() ==> #[trigger] plan.draw@[i] == is_co_located(
                players@,
                my_id@,
                players@[i],
            ),
        forall|i: int|
            0 <= i < players.len() ==> #[trigger] plan.spawn@[i] == (is_co_located(
                players@,
                my_id@,
                players@[i],
            ) && !texts(sprites@).contains(players@[i].id@)),
{
    let draw = co_located(players, my_id);
    let mut hidden: Vec<bool> = Vec::new();
    let mut k: usize = 0;
    while k < sprites.len()
        invariant
            k <= sprites.len(),
            hidden.len() == k,
            draw.len() == players.len(),
            forall|i: int|
                0 <= i < players.len() ==> #[trigger] draw@[i] == is_co_located(
                    players@,
                    my_id@,
                    players@[i],
                ),
            forall|i: int|
                0 <= i < k ==> #[trigger] hidden@[i] == !is_drawn(players@, my_id@, sprites@[i]@),
        decreases sprites.len() - k,
    {
        hidden.push(!drawn(players, &draw, my_id, sprites[k].as_str()));
        k = k + 1;
    }
    let mut spawn: Vec<bool> = Vec::new();
    let mut i: usize = 0;
    while i < players.len()
        invariant
            i <= players.len(),
            spawn.len() == i,
            draw.len() == players.len(),
            forall|j: int|
                0 <= j < players.len() ==> #[trigger] draw@[j] == is_co_located(
                    players@,
                    my_id@,
                    players@[j],
                ),
            forall|j: int|
                0 <= j < i ==> #[trigger] spawn@[j] == (is_co_located(players@, my_id@, players@[j])
                    && !texts(sprites@).contains(players@[j].id@)),
        decreases players.len() - i,
    {
        spawn.push(draw[i] && !contains_text(sprites.as_slice(), players[i].id.as_str()));
        i = i + 1;
    }
    OtherPlayersPlan { hidden, draw, spawn }
}

/// A sprite is never both hidden and drawn: who is drawn with a sprite of
/// their own keeps it visible.
pub proof fn drawn_players_are_not_hidden(
    players: Seq<PlayerRow>,
    my_id: Seq<char>,
    sprites: Seq<Seq<char>>,
    i: int,
    k: int,
)
    requires
        0 <= i < players.len(),
        0 <= k < sprites.len(),
        is_co_located(players, my_id, players[i]),
        players[i].id@ == sprites[k],
    ensures
        is_drawn(players, my_id, sprites[k]),
{
}

/// Where the player's own sprite heads, and which way it looks.
#[derive(Debug, Clone, Copy, PartialEq, Eq, Structural)]
pub enum OwnSpot {
    /// To the center of the tile that the server reports, looking as the
    /// server says.
    Tile(usize, usize),
    /// Along the route, looking along it from the tile of that index.
    OnRoute(RouteSpot, usize),
}

/// The walker has reached that tile of the route after so many meters.
pub open spec fn is_own_spot(
    world: WorldGrid,
    route: Seq<(usize, usize)>,
    meters: int,
    spot: OwnSpot,
) -> bool {
    exists|i: int| #[trigger]
        stops_at(world, route, meters, i) && spot == OwnSpot::OnRoute(
            spot_at(world, route, i),
            (if i < route.len() {
                i
            } else {
                route.len() - 1
            }) as usize,
        )
}

/// Where the player's own sprite heads: along the route if there is one and
/// the world is known, else to the reported tile.
pub fn own_player_spot(
    tile: (i32, i32),
    route: &Vec<(usize, usize)>,
    meters: i64,
    world: Option<&WorldGrid>,
) -> (spot: OwnSpot)
    requires
        world matches Some(grid) ==> grid.wf(),
    ensures
        route@.len() == 0 || world is None ==> spot == OwnSpot::Tile(
            tile.0 as usize,
            tile.1 as usize,
        ),
        route@.len() > 0 && world is Some ==> is_own_spot(
            *world->0,
            route@,
            meters as int,
            spot,
        ),
{
    if let Some(grid) = world {
        if let Some((spot, index)) = position_and_index_from_route_meters(
            route.as_slice(),
            meters,
            grid,
        ) {
            proof {
                let i = choose|i: int| #[trigger]
                    stops_at(*grid, route@, meters as int, i) && spot == spot_at(*grid, route@, i)
                        && index == (if i < route@.len() {
                        i
                    } else {
                        route@.len() - 1
                    });
                assert(stops_at(*grid, route@, meters as int, i));
                assert(is_own_spot(*grid, route@, meters as int, OwnSpot::OnRoute(spot, index)));
            }
            return OwnSpot::OnRoute(spot, index);
        }
    }
    OwnSpot::Tile(tile.0 as usize, tile.1 as usize)
}

/// Whether the sprite was placed yet, and whether there was a route.
#[derive(Debug, Clone, Copy, PartialEq, Eq, Structural)]
pub struct VisualState {
    pub initialized: bool,
    pub had_route: bool,
}

impl Default for VisualState {
    fn default() -> (visual: VisualState)
        ensures
            !visual.initialized,
            !visual.had_route,
    {
        VisualState { initialized: false, had_route: false }
    }
}

impl VisualState {
    /// The sprite is to jump.
    pub open spec fn jumps(&self, has_route: bool) -> bool {
        !self.initialized || (self.had_route && !has_route)
    }

    /// Whether the sprite jumps to its target instead of gliding there: the
    /// first time, and when a route was just completed.
    pub fn snaps(&mut self, has_route: bool) -> (snap: bool)
        ensures
            snap == old(self).jumps(has_route),
            final(self).initialized,
            final(self).had_route == has_route,
    {
        let snap: bool = !self.initialized || (self.had_route && !has_route);
        self.initialized = true;
        self.had_route = has_route;
        snap
    }
}

/// A shop that the player knows of.
#[derive(Debug, Clone)]
pub struct ShopMarker {
    pub id: String,
    pub name: String,
    pub tile_x: i32,
    pub tile_y: i32,
}

/// Ids of shops.
pub open spec fn shop_ids(markers: Seq<ShopMarker>) -> Seq<Seq<char>> {
    markers.map_values(|m: ShopMarker| m.id@)
}

fn ids_of(markers: &Vec<ShopMarker>) -> (ids: Vec<String>)
    ensures
        texts(ids@) == shop_ids(markers@),
{
    let mut ids: Vec<String> = Vec::new();
    let mut i: usize = 0;
    while i < markers.len()
        invariant
            i <= markers.len(),
            ids.len() == i,
            forall|j: int| 0 <= j < i ==> (#[trigger] ids@[j])@ == markers@[j].id@,
        decreases markers.len() - i,
    {
        ids.push(markers[i].id.clone());
        i = i + 1;
    }
    assert(texts(ids@) =~= shop_ids(markers@));
    ids
}

/// Which shop labels go and which shops get one, given the ids of the labels
/// there are and the shops that the server lists.
pub fn poll_shops(labels: &Vec<String>, markers: &Vec<ShopMarker>) -> (changes: Changes)
    ensures
        changes.remove@ == missing_from(texts(labels@), shop_ids(markers@)),
        changes.add@ == missing_from(shop_ids(markers@), texts(labels@)),
{
    let ids = ids_of(markers);
    reconcile(labels, &ids)
}

/// What the label of a shop says.
pub fn shop_label(name: &str) -> (label: String)
    ensures
        label@ == "Shop: "@ + name@,
{
    let mut label = String::from_str("Shop: ");
    label.append(name);
    label
}

/// Address of the list of shops that a player knows of.
pub fn shops_url(player_id: &str) -> (url: String)
    ensures
        url@ == "/shops?player_id="@ + player_id@,
{
    let mut url = String::from_str("/shops?player_id=");
    url.append(player_id);
    url
}

/// Switches of the debug menu.
#[derive(Debug, Clone, Copy, PartialEq, Eq, Structural)]
pub struct DebugOptions {
    pub show_menu: bool,
    pub fog_disabled: bool,
    pub show_pois: bool,
    pub lighting_enabled: bool,
    pub water_shader_enabled: bool,
    /// The sun follows the cursor.
    pub debug_sun_enabled: bool,
    /// Water shows its normals instead of its surface.
    pub debug_show_normals: bool,
    /// The terrain shows its heights as grayscale.
    pub debug_show_heightmap: bool,
    /// Biomes blend into each other instead of showing the baked tiles.
    pub procedural_terrain_enabled: bool,
    /// The world is replaced by a grid of test patterns.
    pub procedural_test_mode: bool,
}

impl Default for DebugOptions {
    fn default() -> (options: DebugOptions)
        ensures
            options == (DebugOptions {
                show_menu: false,
                fog_disabled: false,
                show_pois: false,
                lighting_enabled: true,
                water_shader_enabled: true,
                debug_sun_enabled: false,
                debug_show_normals: false,
                debug_show_heightmap: false,
                procedural_terrain_enabled: true,
                procedural_test_mode: false,
            }),
    {
        DebugOptions {
            show_menu: false,
            fog_disabled: false,
            show_pois: false,
            lighting_enabled: true,
            water_shader_enabled: true,
            debug_sun_enabled: false,
            debug_show_normals: false,
            debug_show_heightmap: false,
            procedural_terrain_enabled: true,
            procedural_test_mode: false,
        }
    }
}

/// Keys of the debug menu that were just pressed.
#[derive(Debug, Clone, Copy, PartialEq, Eq, Structural)]
pub struct DebugKeys {
    pub f3: bool,
    pub digit1: bool,
    pub digit2: bool,
}

/// The switches after those keys of the debug menu.
pub open spec fn menu_after(debug: DebugOptions, keys: DebugKeys) -> DebugOptions {
    let open = debug.show_menu != keys.f3;
    DebugOptions {
        show_menu: open,
        fog_disabled: debug.fog_disabled != (open && keys.digit1),
        show_pois: debug.show_pois != (open && keys.digit2),
        ..debug
    }
}

/// Handles the keys of the debug menu: F3 opens and closes it; while it is
/// open, 1 switches the fog, whose mask is then redrawn, and 2 the labels of
/// the landmarks. Tells whether the menu is open.
pub fn handle_debug_menu(debug: &mut DebugOptions, fog: &mut FogOfWar, keys: DebugKeys) -> (open:
    bool)
    ensures
        open == final(debug).show_menu,
        *final(debug) == menu_after(*old(debug), keys),
        *final(fog) == (FogOfWar {
            dirty: old(fog).dirty || menu_after(*old(debug), keys).fog_disabled != old(
                debug,
            ).fog_disabled,
            ..*old(fog)
        }),
{
    if keys.f3 {
        debug.show_menu = !debug.show_menu;
    }
    if !debug.show_menu {
        return false;
    }
    if keys.digit1 {
        debug.fog_disabled = !debug.fog_disabled;
        fog.dirty = true;
    }
    if keys.digit2 {
        debug.show_pois = !debug.show_pois;
    }
    true
}

/// Function keys that were just pressed.
#[derive(Debug, Clone, Copy, PartialEq, Eq, Structural)]
pub struct LayerKeys {
    pub f4: bool,
    pub f5: bool,
    pub f6: bool,
    pub f7: bool,
    pub f8: bool,
    pub f9: bool,
    pub f10: bool,
}

/// The switches after those function keys.
pub open spec fn layers_after(debug: DebugOptions, keys: LayerKeys) -> DebugOptions {
    DebugOptions {
        procedural_terrain_enabled: debug.procedural_terrain_enabled != keys.f4,
        procedural_test_mode: debug.procedural_test_mode != keys.f5,
        lighting_enabled: debug.lighting_enabled != keys.f6,
        water_shader_enabled: debug.water_shader_enabled != keys.f7,
        debug_sun_enabled: debug.debug_sun_enabled != keys.f8,
        debug_show_normals: debug.debug_show_normals != keys.f9,
        debug_show_heightmap: debug.debug_show_heightmap != keys.f10,
        ..debug
    }
}

/// Handles the keys that switch the layers of the picture.
pub fn toggle_layers(debug: &mut DebugOptions, keys: LayerKeys)
    ensures
        *final(debug) == layers_after(*old(debug), keys),
{
    if keys.f4 {
        debug.procedural_terrain_enabled = !debug.procedural_terrain_enabled;
    }
    if keys.f5 {
        debug.procedural_test_mode = !debug.procedural_test_mode;
    }
    if keys.f6 {
        debug.lighting_enabled = !debug.lighting_enabled;
    }
    if keys.f7 {
        debug.water_shader_enabled = !debug.water_shader_enabled;
    }
    if keys.f8 {
        debug.debug_sun_enabled = !debug.debug_sun_enabled;
    }
    if keys.f9 {
        debug.debug_show_normals = !debug.debug_show_normals;
    }
    if keys.f10 {
        debug.debug_show_heightmap = !debug.debug_show_heightmap;
    }
}

/// What the debug menu reports besides its switches. Fractions come as text.
pub struct DebugFacts<'a> {
    pub version: u32,
    pub seed: u64,
    pub width: u64,
    pub height: u64,
    pub player_known: bool,
    pub fps: u32,
    pub sun_x: &'a str,
    pub sun_y: &'a str,
    pub sun_z: &'a str,
    pub tile_z: &'a str,
}

pub open spec fn on_off_text(on: bool) -> Seq<char> {
    if on {
        "ON"@
    } else {
        "OFF"@
    }
}

fn on_off(on: bool) -> (text: &'static str)
    ensures
        text@ == on_off_text(on),
{
    if on {
        "ON"
    } else {
        "OFF"
    }
}

/// First lines of the debug menu: version, world, adventure and frame rate.
pub open spec fn debug_header(facts: DebugFacts) -> Seq<char> {
    "=== DEBUG (F3) ===\nClient v"@ + decimal_text(facts.version as nat) + " · seed "@
        + decimal_text(facts.seed as nat) + " · "@ + decimal_text(facts.width as nat) + "×"@
        + decimal_text(facts.height as nat) + " · adv "@ + (if facts.player_known {
        "loaded"@
    } else {
        "?"@
    }) + "\nFPS: "@ + decimal_text(facts.fps as nat)
}

/// The lines of the switches.
pub open spec fn debug_switches(debug: DebugOptions, facts: DebugFacts) -> Seq<char> {
    "\n1: Fog ["@ + on_off_text(!debug.fog_disabled) + "]\n2: POIs ["@ + on_off_text(
        debug.show_pois,
    ) + "]\nF4: Procedural ground ["@ + on_off_text(debug.procedural_terrain_enabled)
        + "]\nF6: Lighting ["@ + on_off_text(debug.lighting_enabled) + "]\nF7: Water shader ["@
        + on_off_text(debug.water_shader_enabled) + "]\nF8: Debug sun ["@ + on_off_text(
        debug.debug_sun_enabled,
    ) + "] ("@ + facts.sun_x@ + ", "@ + facts.sun_y@ + ", "@ + facts.sun_z@
        + ")\nF9: Show normals (water + shoreline bevel) ["@ + on_off_text(debug.debug_show_normals)
        + "]\nF10: Show heightmap ["@ + on_off_text(debug.debug_show_heightmap)
        + "]\nPgUp/PgDn: Tile Z factor ["@ + facts.tile_z@ + "]"@
}

fn header_lines(facts: &DebugFacts) -> (text: String)
    ensures
        text@ == debug_header(*facts),
{
    let mut text = String::from_str("=== DEBUG (F3) ===\nClient v");
    append_decimal(&mut text, facts.version as u64);
    text.append(" · seed ");
    append_decimal(&mut text, facts.seed);
    text.append(" · ");
    append_decimal(&mut text, facts.width);
    text.append("×");
    append_decimal(&mut text, facts.height);
    text.append(" · adv ");
    text.append(
        if facts.player_known {
            "loaded"
        } else {
            "?"
        },
    );
    text.append("\nFPS: ");
    append_decimal(&mut text, facts.fps as u64);
    text
}

fn switch_lines(debug: &DebugOptions, facts: &DebugFacts) -> (text: String)
    ensures
        text@ == debug_switches(*debug, *facts),
{
    let mut text = String::from_str("\n1: Fog [");
    text.append(on_off(!debug.fog_disabled));
    text.append("]\n2: POIs [");
    text.append(on_off(debug.show_pois));
    text.append("]\nF4: Procedural ground [");
    text.append(on_off(debug.procedural_terrain_enabled));
    text.append("]\nF6: Lighting [");
    text.append(on_off(debug.lighting_enabled));
    text.append("]\nF7: Water shader [");
    text.append(on_off(debug.water_shader_enabled));
    text.append("]\nF8: Debug sun [");
    text.append(on_off(debug.debug_sun_enabled));
    text.append("] (");
    text.append(facts.sun_x);
    text.append(", ");
    text.append(facts.sun_y);
    text.append(", ");
    text.append(facts.sun_z);
    text.append(")\nF9: Show normals (water + shoreline bevel) [");
    text.append(on_off(debug.debug_show_normals));
    text.append("]\nF10: Show heightmap [");
    text.append(on_off(debug.debug_show_heightmap));
    text.append("]\nPgUp/PgDn: Tile Z factor [");
    text.append(facts.tile_z);
    text.append("]");
    text
}

/// The text of the debug menu.
pub fn debug_menu_text(debug: &DebugOptions, facts: &DebugFacts) -> (text: String)
    ensures
        text@ == debug_header(*facts) + debug_switches(*debug, *facts),
{
    let mut text = header_lines(facts);
    text.append(switch_lines(debug, facts).as_str());
    text
}

/// Frame after that many steps of a walk.
pub open spec fn walked_frame(frame: int, steps: int) -> int
    decreases steps,
{
    if steps <= 0 {
        frame
    } else {
        walked_frame(frame % 4 + 1, steps - 1)
    }
}

/// The walk cycle goes through its four frames and starts over.
pub proof fn walk_cycle_repeats(frame: int, steps: int)
    requires
        1 <= frame <= 4,
        0 <= steps,
    ensures
        1 <= walked_frame(frame, steps) <= 4,
        walked_frame(frame, steps + 4) == walked_frame(frame, steps),
    decreases steps,
{
    if steps > 0 {
        walk_cycle_repeats(frame % 4 + 1, steps - 1);
    } else {
        reveal_with_fuel(walked_frame, 5);
    }
}

/// Seven champions go by their names, and every other name stands for Katan.
pub proof fn champions_go_by_their_names(name: Seq<char>)
    ensures
        champion_named(name) == Champion::Zhinja <==> name == "Zhinja"@,
        champion_named(name) == Champion::Arthax <==> name == "Arthax"@,
        champion_named(name) == Champion::Borg <==> name == "Börg"@,
        champion_named(name) == Champion::Gangblanc <==> name == "Gangblanc"@,
        champion_named(name) == Champion::Grum <==> name == "Grum"@,
        champion_named(name) == Champion::Kanji <==> name == "Kanji"@,
        champion_named(name) == Champion::Okomo <==> name == "Okomo"@,
        name == "Katan"@ ==> champion_named(name) == Champion::Katan,
{
    reveal_strlit("Zhinja");
    reveal_strlit("Arthax");
    reveal_strlit("Börg");
    reveal_strlit("Gangblanc");
    reveal_strlit("Grum");
    reveal_strlit("Kanji");
    reveal_strlit("Okomo");
    reveal_strlit("Katan");
    assert("Zhinja"@.len() == 6 && "Arthax"@.len() == 6 && "Börg"@.len() == 4);
    assert("Gangblanc"@.len() == 9 && "Grum"@.len() == 4 && "Kanji"@.len() == 5);
    assert("Okomo"@.len() == 5 && "Katan"@.len() == 5);
    assert("Zhinja"@[0] == 'Z' && "Arthax"@[0] == 'A');
    assert("Börg"@[0] == 'B' && "Grum"@[0] == 'G');
    assert("Kanji"@[2] == 'n' && "Okomo"@[2] == 'o' && "Katan"@[2] == 't');
}

/// Who has not chosen a champion is drawn as Katan on their own screen and as
/// Zhinja on the others'; whoever has chosen one is drawn as that one on both.
pub proof fn chosen_champions_are_drawn(chosen: String)
    ensures
        chosen@.len() > 0 ==> own_choice(chosen@) == chosen@ && other_choice(Some(chosen))
            == chosen@,
        chosen@.len() == 0 ==> own_choice(chosen@) == "Katan"@ && other_choice(Some(chosen))
            == "Zhinja"@,
        other_choice(None) == "Zhinja"@,
        champion_named(own_choice(Seq::empty())) == Champion::Katan,
        champion_named(other_choice(None)) == Champion::Zhinja,
{
    champions_go_by_their_names("Katan"@);
    champions_go_by_their_names("Zhinja"@);
}

/// The size of each champion's sheet; every sheet has a standing frame and
/// four walking frames in each row.
pub proof fn sheets_of_the_champions(champion: Champion)
    ensures
        ({
            let (cols, rows) = sheet_size(champion);
            &&& 5 <= cols
            &&& cols == 8 <==> champion == Champion::Gangblanc
            &&& cols == 5 <==> champion == Champion::Arthax || champion == Champion::Grum
                || champion == Champion::Okomo
            &&& cols != 8 && cols != 5 ==> cols == 6
            &&& rows == 12 <==> champion == Champion::Okomo
            &&& rows == 9 <==> champion == Champion::Zhinja || champion == Champion::Grum
            &&& rows != 12 && rows != 9 ==> rows == 8
        }),
{
}

/// No two facings look alike: they show different rows, or one of them is
/// mirrored. Only Zhinja is ever mirrored, looking right.
pub proof fn facings_look_different(champion: Champion, one: Facing, other: Facing)
    ensures
        ({
            let rows = rows_by_facing(champion);
            let flips = flips_by_facing(champion);
            let (i, j) = (facing_slot(one), facing_slot(other));
            &&& rows.len() == 4 && flips.len() == 4
            &&& one != other ==> rows[i] != rows[j] || flips[i] != flips[j]
            &&& flips[i] <==> champion == Champion::Zhinja && one == Facing::Right
            &&& champion == Champion::Zhinja ==> rows[facing_slot(Facing::Down)] == 1
                && rows[facing_slot(Facing::Up)] == 2 && rows[facing_slot(Facing::Left)] == 0
                && rows[facing_slot(Facing::Right)] == 0
            &&& champion != Champion::Zhinja ==> rows[facing_slot(Facing::Down)] == 0
                && rows[facing_slot(Facing::Up)] == 1 && rows[facing_slot(Facing::Right)] == 2
                && rows[facing_slot(Facing::Left)] == 3
        }),
{
}

/// A walking sprite goes from frame to frame of the walk whenever its timer is
/// up, shows its frame in the row of its facing, and stands in the row's first
/// frame once it stops. One that keeps standing is left as it is.
pub proof fn sprites_walk_and_stand(
    anim: WalkAnimation,
    facing: Facing,
    walking: bool,
    timer_up: bool,
)
    requires
        anim.wf(),
    ensures
        ({
            let frame = anim.next_frame(walking, timer_up);
            let pose = anim.next_pose(facing, walking, timer_up);
            let row = rows_by_facing(anim.info.champion)[facing_slot(facing)];
            &&& walking && timer_up && anim.frame < 4 ==> frame == anim.frame + 1
            &&& walking && timer_up && anim.frame == 4 ==> frame == 1
            &&& walking && !timer_up ==> frame == anim.frame
            &&& !walking && anim.moving ==> frame == 0
            &&& !walking && !anim.moving ==> frame == anim.frame && pose.atlas_index is None
            &&& walking || anim.moving ==> (pose.atlas_index matches Some(index) && index
                == row * anim.info.cols + frame && frame < anim.info.cols)
            &&& pose.flip <==> anim.info.champion == Champion::Zhinja && facing == Facing::Right
        }),
{
    let row = rows_by_facing(anim.info.champion)[facing_slot(facing)];
    assert(row <= 3);
    assert(0 <= row * anim.info.cols <= 24) by (nonlinear_arith)
        requires
            row <= 3,
            anim.info.cols <= 8,
    ;
}

/// The path of each landmark's illustration; only ports have none.
pub proof fn illustrations_of_the_landmarks(poi: PoiType)
    ensures
        poi == PoiType::Town ==> (illustration(poi) matches Some((path, _)) && path
            == "poi/town.png"@),
        poi == PoiType::Village ==> (illustration(poi) matches Some((path, _)) && path
            == "poi/village.png"@),
        poi == PoiType::Cave ==> (illustration(poi) matches Some((path, _)) && path
            == "poi/cave_entrance.png"@),
        poi == PoiType::Cabin ==> (illustration(poi) matches Some((path, _)) && path
            == "poi/cabin.png"@),
        poi == PoiType::Shrine ==> (illustration(poi) matches Some((path, _)) && path
            == "poi/witch_hut.png"@),
        poi == PoiType::Ruins ==> (illustration(poi) matches Some((path, _)) && path
            == "poi/ruins.png"@),
        poi == PoiType::Dungeon ==> (illustration(poi) matches Some((path, _)) && path
            == "poi/dungeon.png"@),
        poi == PoiType::Camp ==> (illustration(poi) matches Some((path, _)) && path
            == "poi/camp.png"@),
        poi == PoiType::Tower ==> (illustration(poi) matches Some((path, _)) && path
            == "poi/tower.png"@),
        poi == PoiType::CastleFrost ==> (illustration(poi) matches Some((path, _)) && path
            == "generated/poi/castle_frost.png"@),
        poi == PoiType::CastleFlame ==> (illustration(poi) matches Some((path, _)) && path
            == "generated/poi/castle_flame.png"@),
        poi == PoiType::CastleShadow ==> (illustration(poi) matches Some((path, _)) && path
            == "generated/poi/castle_shadow.png"@),
        poi == PoiType::CastleStorm ==> (illustration(poi) matches Some((path, _)) && path
            == "generated/poi/castle_storm.png"@),
        poi == PoiType::TravelGate ==> (illustration(poi) matches Some((path, _)) && path
            == "generated/poi/travel_gate.png"@),
        poi == PoiType::RefugeeCamp ==> (illustration(poi) matches Some((path, _)) && path
            == "generated/poi/refugee_camp.png"@),
        poi == PoiType::WizardsSpire ==> (illustration(poi) matches Some((path, _)) && path
            == "generated/poi/wizards_spire.png"@),
        illustration(poi) is None <==> poi == PoiType::Port,
{
}

/// Castles are three tiles wide, refugee camps and spires two, and all other
/// landmarks one.
pub proof fn sizes_of_the_landmarks(poi: PoiType)
    ensures
        illustration(poi) matches Some((_, tiles)) ==> {
            &&& tiles == 3 <==> poi == PoiType::CastleFrost || poi == PoiType::CastleFlame || poi
                == PoiType::CastleShadow || poi == PoiType::CastleStorm
            &&& tiles == 2 <==> poi == PoiType::RefugeeCamp || poi == PoiType::WizardsSpire
            &&& tiles == 1 || tiles == 2 || tiles == 3
        },
{
}

/// The label of each landmark.
pub proof fn labels_of_the_landmarks(poi: PoiType)
    ensures
        poi == PoiType::Town ==> poi_text(poi) == "Town"@,
        poi == PoiType::Village ==> poi_text(poi) == "Village"@,
        poi == PoiType::Cave ==> poi_text(poi) == "Cave"@,
        poi == PoiType::Cabin ==> poi_text(poi) == "Cabin"@,
        poi == PoiType::Shrine ==> poi_text(poi) == "Shrine"@,
        poi == PoiType::Ruins ==> poi_text(poi) == "Ruins"@,
        poi == PoiType::Dungeon ==> poi_text(poi) == "Dungeon"@,
        poi == PoiType::Camp ==> poi_text(poi) == "Camp"@,
        poi == PoiType::Tower ==> poi_text(poi) == "Tower"@,
        poi == PoiType::CastleFrost ==> poi_text(poi) == "CastleFrost"@,
        poi == PoiType::CastleFlame ==> poi_text(poi) == "CastleFlame"@,
        poi == PoiType::CastleShadow ==> poi_text(poi) == "CastleShadow"@,
        poi == PoiType::CastleStorm ==> poi_text(poi) == "CastleStorm"@,
        poi == PoiType::TravelGate ==> poi_text(poi) == "TravelGate"@,
        poi == PoiType::RefugeeCamp ==> poi_text(poi) == "RefugeeCamp"@,
        poi == PoiType::WizardsSpire ==> poi_text(poi) == "WizardsSpire"@,
        poi == PoiType::Port ==> poi_text(poi) == "Port"@,
{
}

/// Each degree of danger makes a monster livelier, up to the fifth.
pub proof fn idle_periods(difficulty: u32)
    ensures
        difficulty <= 1 ==> idle_hundredths(difficulty) == 90,
        difficulty == 2 ==> idle_hundredths(difficulty) == 60,
        difficulty == 3 ==> idle_hundredths(difficulty) == 40,
        difficulty == 4 ==> idle_hundredths(difficulty) == 25,
        difficulty >= 5 ==> idle_hundredths(difficulty) == 15,
{
}

/// A monster goes through its frames in order and comes back to the second
/// one; a timer that is not up changes nothing.
pub proof fn monsters_go_through_their_frames(frame: int, frames: int)
    requires
        0 <= frame,
    ensures
        monster_frame(frame, frames, false) == frame,
        frame < frames - 1 ==> monster_frame(frame, frames, true) == frame + 1,
        1 <= frame && frame == frames - 1 ==> monster_frame(frame, frames, true) == 1,
        frames < 2 ==> monster_frame(frame, frames, true) == 1,
{
    if 0 <= frame < frames - 1 {
        vstd::arithmetic::div_mod::lemma_small_mod(frame as nat, (frames - 1) as nat);
    } else if 1 <= frame && frame == frames - 1 {
        vstd::arithmetic::div_mod::lemma_mod_self_0(frames - 1);
    }
}

/// The session's seed and size are used wherever it gives them, each by
/// itself; none of what is built is ever zero.
pub proof fn worlds_are_built_as_told(seed: u64, width: u32, height: u32)
    ensures
        ({
            let (s, w, h) = settings_of(seed, width, height);
            &&& s > 0 && w > 0 && h > 0
            &&& seed > 0 ==> s == seed
            &&& width > 0 ==> w == width
            &&& height > 0 ==> h == height
            &&& seed == 0 ==> s == 12345
            &&& width == 0 ==> w == WORLD_W
            &&& height == 0 ==> h == WORLD_H
        }),
{
}

/// The center of the map is halfway between the centers of its first and its
/// last tile.
pub proof fn maps_are_centered(w: int, h: int)
    ensures
        2 * center_of(w, h).0 == 0 + 16 * (w - 1),
        2 * center_of(w, h).1 == 0 - 16 * (h - 1),
{
}

/// Chests, monsters and labels belong to their tile, sixteen pixels to a tile
/// and rows going down; a label hangs twelve pixels lower.
pub proof fn sprites_stand_on_their_tiles(map: WorldMap, i: int)
    requires
        placeable(map),
    ensures
        0 <= i < map.chests.len() ==> ({
            let sprite = chest_sprite(map.chests@, i);
            sprite.index == i && sprite.x == 16 * map.chests@[i].0 && sprite.y == -16
                * map.chests@[i].1
        }),
        0 <= i < map.monsters.len() ==> ({
            let sprite = monster_sprite(map.monsters@, i);
            let spawn = map.monsters@[i];
            sprite.index == i && sprite.x == 16 * spawn.x && sprite.y == -16 * spawn.y
                && sprite.monster_type == spawn.monster_type && sprite.period_hundredths
                == idle_hundredths(spawn.difficulty)
        }),
        0 <= i < map.pois.len() ==> ({
            let label = label_of(map.pois@[i]);
            let poi = map.pois@[i];
            label.poi_type == poi.poi_type && label.x == 16 * poi.x && label.y == -16 * poi.y - 12
        }),
{
}

/// One more landmark adds its own illustration to those before it, over its
/// tile and as large as it is; a port adds none.
pub proof fn illustrations_stand_on_their_tiles(pois: Seq<PointOfInterest>, poi: PointOfInterest)
    requires
        poi.x <= u32::MAX,
        poi.y <= u32::MAX,
    ensures
        ({
            let before = landmark_sprites(pois);
            let after = landmark_sprites(pois.push(poi));
            &&& poi.poi_type == PoiType::Port ==> after == before
            &&& poi.poi_type != PoiType::Port ==> after.len() == before.len() + 1
                && after.drop_last() == before && ({
                let sprite = after.last();
                sprite.poi_type == poi.poi_type && sprite.x == 16 * poi.x && sprite.y == -16 * poi.y
                    && (illustration(poi.poi_type) matches Some((_, tiles)) && sprite.size_px
                    == 16 * tiles)
            })
            &&& landmark_sprites(Seq::empty()).len() == 0
        }),
{
    assert(pois.push(poi).drop_last() =~= pois);
    assert(pois.push(poi).last() == poi);
    let after = landmark_sprites(pois.push(poi));
    if poi.poi_type != PoiType::Port {
        assert(after.drop_last() =~= landmark_sprites(pois));
    }
}

/// Without a route that can be read, another player stands on the tile that
/// the server reports.
pub proof fn others_stand_where_reported(row: PlayerRow, route: Option<Vec<(usize, usize)>>)
    ensures
        row.planned_route is None ==> !follows_route(row, route),
        route is None ==> !follows_route(row, route),
        route matches Some(tiles) && tiles@.len() == 0 ==> !follows_route(row, route),
        row.planned_route matches Some(text) && text@.len() == 0 ==> !follows_route(row, route),
        row.planned_route matches Some(text) && text@.len() > 0 && (route matches Some(tiles)
            && tiles@.len() > 0) ==> follows_route(row, route),
        row.map_tile_x matches Some(x) && row.map_tile_y matches Some(y) && 0 <= x && 0 <= y
            ==> reported_spot(row) == OtherSpot::Tile(
            row.map_tile_x->0 as usize,
            row.map_tile_y->0 as usize,
        ),
        row.map_tile_x is None && row.map_tile_y is None ==> reported_spot(row)
            == OtherSpot::Tile(0, 0),
{
}

/// What the server projects goes before what it has counted.
pub proof fn projections_go_first(projected: i64, walked: Option<i64>, meters: i64)
    ensures
        other_meters(Some(projected), walked) == projected,
        other_meters(None, Some(meters)) == meters,
        other_meters(None, None) == 0,
{
}

/// A sprite jumps when it is first placed and when its route has just ended;
/// while a route lasts, and while none begins or ends, it glides.
pub proof fn when_sprites_jump(visual: VisualState, has_route: bool)
    ensures
        !visual.initialized ==> visual.jumps(has_route),
        visual.initialized && has_route ==> !visual.jumps(has_route),
        visual.initialized && !visual.had_route ==> !visual.jumps(has_route),
        visual.initialized && visual.had_route && !has_route ==> visual.jumps(has_route),
{
}

/// F3 opens and closes the menu. The digits do nothing while it is closed and
/// each flip one switch while it is open; no other switch changes.
pub proof fn digits_switch_in_the_open_menu(debug: DebugOptions, keys: DebugKeys)
    ensures
        ({
            let after = menu_after(debug, keys);
            &&& keys.f3 ==> after.show_menu == !debug.show_menu
            &&& !keys.f3 ==> after.show_menu == debug.show_menu
            &&& !after.show_menu ==> after.fog_disabled == debug.fog_disabled && after.show_pois
                == debug.show_pois
            &&& after.show_menu && keys.digit1 ==> after.fog_disabled == !debug.fog_disabled
            &&& after.show_menu && keys.digit2 ==> after.show_pois == !debug.show_pois
            &&& !keys.digit1 ==> after.fog_disabled == debug.fog_disabled
            &&& !keys.digit2 ==> after.show_pois == debug.show_pois
            &&& after.lighting_enabled == debug.lighting_enabled
            &&& after.water_shader_enabled == debug.water_shader_enabled
            &&& after.debug_sun_enabled == debug.debug_sun_enabled
            &&& after.debug_show_normals == debug.debug_show_normals
            &&& after.debug_show_heightmap == debug.debug_show_heightmap
            &&& after.procedural_terrain_enabled == debug.procedural_terrain_enabled
            &&& after.procedural_test_mode == debug.procedural_test_mode
        }),
{
}

/// Each function key flips one layer and no other, so pressing the same keys
/// again brings everything back.
pub proof fn function_keys_switch_layers(debug: DebugOptions, keys: LayerKeys)
    ensures
        ({
            let after = layers_after(debug, keys);
            &&& after.procedural_terrain_enabled != debug.procedural_terrain_enabled <==> keys.f4
            &&& after.procedural_test_mode != debug.procedural_test_mode <==> keys.f5
            &&& after.lighting_enabled != debug.lighting_enabled <==> keys.f6
            &&& after.water_shader_enabled != debug.water_shader_enabled <==> keys.f7
            &&& after.debug_sun_enabled != debug.debug_sun_enabled <==> keys.f8
            &&& after.debug_show_normals != debug.debug_show_normals <==> keys.f9
            &&& after.debug_show_heightmap != debug.debug_show_heightmap <==> keys.f10
            &&& after.show_menu == debug.show_menu
            &&& after.fog_disabled == debug.fog_disabled
            &&& after.show_pois == debug.show_pois
            &&& layers_after(after, keys) == debug
        }),
{
}

/// A switch reads "ON" when it is on and "OFF" when it is not.
pub proof fn switches_read_on_or_off(on: bool)
    ensures
        on ==> on_off_text(on) == "ON"@,
        !on ==> on_off_text(on) == "OFF"@,
{
}

/// Somebody's sprite is shown when a player of that id is drawn, and hidden
/// when no player of that id is reported.
pub proof fn sprites_show_reported_players(players: Seq<PlayerRow>, my_id: Seq<char>, id: Seq<char>)
    ensures
        !is_drawn(players, my_id, my_id),
        (forall|i: int| 0 <= i < players.len() ==> (#[trigger] players[i]).id@ != id) ==> !is_drawn(
            players,
            my_id,
            id,
        ),
        forall|i: int|
            0 <= i < players.len() && (#[trigger] players[i]).id@ == id && is_co_located(
                players,
                my_id,
                players[i],
            ) ==> is_drawn(players, my_id, id),
{
}

/// Where others walk, they stand where their meters have brought them.
pub proof fn others_stand_along_their_route(
    world: WorldGrid,
    route: Seq<(usize, usize)>,
    meters: int,
    i: int,
    spot: OtherSpot,
)
    requires
        stops_at(world, route, meters, i),
        is_spot_on_route(world, route, meters, spot),
    ensures
        spot == OtherSpot::OnRoute(spot_at(world, route, i)),
{
    let k = choose|k: int| #[trigger]
        stops_at(world, route, meters, k) && spot == OtherSpot::OnRoute(spot_at(world, route, k));
    lemma_one_stop(world, route, meters, i, k);
}

/// The player's own sprite stands where their meters have brought them, and
/// looks along the route from the tile where they stopped, or from the last
/// one.
pub proof fn own_sprites_stand_along_the_route(
    world: WorldGrid,
    route: Seq<(usize, usize)>,
    meters: int,
    i: int,
    spot: OwnSpot,
)
    requires
        0 < route.len() <= usize::MAX,
        stops_at(world, route, meters, i),
        is_own_spot(world, route, meters, spot),
    ensures
        spot matches OwnSpot::OnRoute(at, index) && at == spot_at(world, route, i) && (i
            < route.len() ==> index == i) && (i == route.len() ==> index == route.len() - 1),
{
    let k = choose|k: int| #[trigger]
        stops_at(world, route, meters, k) && spot == OwnSpot::OnRoute(
            spot_at(world, route, k),
            (if k < route.len() {
                k
            } else {
                route.len() - 1
            }) as usize,
        );
    lemma_one_stop(world, route, meters, i, k);
}

/// A walker stops at one tile only.
proof fn lemma_one_stop(
    world: WorldGrid,
    route: Seq<(usize, usize)>,
    meters: int,
    i: int,
    k: int,
)
    requires
        stops_at(world, route, meters, i),
        stops_at(world, route, meters, k),
    ensures
        i == k,
{
    if i < k {
        assert(crosses(world, route, meters, i));
    } else if k < i {
        assert(crosses(world, route, meters, k));
    }
}

/// The ids keep the order of the shops.
pub proof fn shop_ids_keep_the_order(markers: Seq<ShopMarker>, i: int)
    requires
        0 <= i < markers.len(),
    ensures
        shop_ids(markers).len() == markers.len(),
        shop_ids(markers)[i] == markers[i].id@,
{
}

/// How many lines of the menu read "OFF". The fog's does when it is disabled.
pub open spec fn lines_off(debug: DebugOptions) -> int {
    let one = |on: bool|
        if on {
            0int
        } else {
            1int
        };
    one(!debug.fog_disabled) + one(debug.show_pois) + one(debug.procedural_terrain_enabled) + one(
        debug.lighting_enabled,
    ) + one(debug.water_shader_enabled) + one(debug.debug_sun_enabled) + one(
        debug.debug_show_normals,
    ) + one(debug.debug_show_heightmap)
}

/// Characters of the menu's switches where all of them are on.
spec fn least_length(facts: DebugFacts) -> nat {
    "\n1: Fog ["@.len() + "]\n2: POIs ["@.len() + "]\nF4: Procedural ground ["@.len()
        + "]\nF6: Lighting ["@.len() + "]\nF7: Water shader ["@.len() + "]\nF8: Debug sun ["@.len()
        + "] ("@.len() + facts.sun_x@.len() + ", "@.len() + facts.sun_y@.len() + ", "@.len()
        + facts.sun_z@.len() + ")\nF9: Show normals (water + shoreline bevel) ["@.len()
        + "]\nF10: Show heightmap ["@.len() + "]\nPgUp/PgDn: Tile Z factor ["@.len()
        + facts.tile_z@.len() + "]"@.len() + 16
}

proof fn lemma_menu_length(debug: DebugOptions, facts: DebugFacts)
    ensures
        debug_switches(debug, facts).len() == least_length(facts) + lines_off(debug),
{
    reveal_strlit("ON");
    reveal_strlit("OFF");
    assert forall|on: bool| #[trigger] on_off_text(on).len() == (if on {
        2int
    } else {
        3int
    }) by {
        if on {
            assert("ON"@.len() == 2);
        } else {
            assert("OFF"@.len() == 3);
        }
    }
}

/// The menu follows its switches and nothing else: each line that reads "OFF"
/// takes one character more than one that reads "ON".
pub proof fn lines_follow_their_switch(a: DebugOptions, b: DebugOptions, facts: DebugFacts)
    ensures
        debug_switches(a, facts).len() - lines_off(a) == debug_switches(b, facts).len()
            - lines_off(b),
{
    lemma_menu_length(a, facts);
    lemma_menu_length(b, facts);
}

/// The header tells whether the player is known, and changes with nothing else
/// but the numbers that it shows.
pub proof fn the_header_tells_whether_the_player_is_known(facts: DebugFacts)
    ensures
        debug_header(DebugFacts { player_known: true, ..facts }).len() == debug_header(
            DebugFacts { player_known: false, ..facts },
        ).len() + 5,
        forall|fps: u32|
            (#[trigger] debug_header(DebugFacts { fps, ..facts })).len() + decimal_text(
                facts.fps as nat,
            ).len() == debug_header(facts).len() + decimal_text(fps as nat).len(),
{
    reveal_strlit("loaded");
    reveal_strlit("?");
    assert("loaded"@.len() == 6 && "?"@.len() == 1);
}

} // verus!
