use gameclient::items::EquipmentLoadout;
use gameclient::player::{Facing, PlayerRow};
use gameclient::reconcile::reconcile;
use gameclient::terrain::authored_pois::{authored_pois_path, merge_pois};
use gameclient::terrain::fog::FogOfWar;
use gameclient::terrain::night_lights::{gather_scene_lights, Light, MAX_LIGHTS};
use gameclient::terrain::path::{can_search, RouteSpot};
use gameclient::terrain::tilemap::{
    animate_monster, champion_info, chest_is_gone, debug_menu_text, facing_idx, fog_cover,
    handle_debug_menu, is_placeable, map_center, monster_idle_period, monster_is_gone, other_champion, other_player_spot, own_champion,
    own_player_spot, poi_label, poi_sprite_path, poll_shops, shop_label, shops_url, spawn_world,
    toggle_layers, update_other_players, world_settings, Champion, DebugFacts, DebugKeys,
    DebugOptions, LayerKeys, OtherSpot, OwnSpot, ShopMarker, SpritePose, VisualState,
    WalkAnimation,
};
use gameclient::terrain::world::WorldGrid;
use gameclient::terrain::world_map::{
    Biome, MonsterSpawn, MonsterType, PoiType, PointOfInterest, WorldMap,
};

fn desert(width: usize, height: usize) -> WorldMap {
    let count = width * height;
    WorldMap {
        width,
        height,
        biomes: vec![Biome::Desert; count],
        has_road: vec![false; count],
        on_poi: vec![false; count],
        step_costs: vec![100; count],
        roads: vec![],
        pois: vec![],
        chests: vec![],
        monsters: vec![],
        required_items: vec![None; 9],
    }
}

fn poi(id: usize, poi_type: PoiType, x: usize, y: usize) -> PointOfInterest {
    PointOfInterest {
        id,
        poi_type,
        x,
        y,
        biome: Biome::Desert,
        has_road: false,
        name: "".into(),
        description: "".into(),
    }
}

fn player(id: &str, location: Option<&str>, adventure: &str) -> PlayerRow {
    PlayerRow {
        id: id.into(),
        name: id.to_uppercase(),
        is_walking: false,
        map_tile_x: Some(3),
        map_tile_y: Some(4),
        gold: 0,
        facing: Facing::Down,
        planned_route: None,
        inventory: vec![],
        equipment: EquipmentLoadout {
            weapon: None,
            armor: None,
            accessory: None,
            feet: None,
            toe_rings: None,
        },
        opened_chests: vec![],
        defeated_monsters: vec![],
        champion: None,
        location: location.map(|s| s.to_string()),
        completed_events: vec![],
        item_upgrades: vec![],
        boons: vec![],
        pending_boon_choice: None,
        active_buffs: vec![],
        adventure_id: adventure.into(),
    }
}

#[test]
fn champions_and_their_sheets() {
    let zhinja = champion_info("Zhinja");
    assert_eq!((zhinja.cols, zhinja.rows, zhinja.padded), (6, 9, true));
    assert_eq!(zhinja.facing_rows, [1, 2, 0, 0]);
    assert_eq!(zhinja.facing_flip, [false, false, true, false]);
    let borg = champion_info("Börg");
    assert_eq!(borg.champion, Champion::Borg);
    assert_eq!((borg.cols, borg.rows, borg.padded), (6, 8, false));
    let other = champion_info("Nobody");
    assert_eq!(other.champion, Champion::Katan);
    assert_eq!((other.cols, other.rows, other.padded), (6, 8, true));
    assert_eq!(champion_info("Okomo").rows, 12);
    assert_eq!(champion_info("Gangblanc").cols, 8);
    assert_eq!(champion_info("Arthax").cols, 5);
    assert_eq!(champion_info("Grum").rows, 9);
    assert_eq!(champion_info("Kanji").champion, Champion::Kanji);
}

#[test]
fn default_champions() {
    assert_eq!(own_champion(""), "Katan");
    assert_eq!(own_champion("Grum"), "Grum");
    assert_eq!(other_champion(&None), "Zhinja");
    assert_eq!(other_champion(&Some("".to_string())), "Zhinja");
    assert_eq!(other_champion(&Some("Kanji".to_string())), "Kanji");
}

#[test]
fn walk_cycle() {
    assert_eq!(facing_idx(Facing::Left), 3);
    let mut anim = WalkAnimation::standing(champion_info("Katan"));
    let still = anim.animate(Facing::Down, false, true);
    assert_eq!(still, SpritePose { flip: false, atlas_index: None });
    let mut frames = Vec::new();
    for _ in 0..5 {
        frames.push(anim.animate(Facing::Left, true, true).atlas_index.unwrap());
    }
    assert_eq!(frames, vec![19, 20, 21, 22, 19]);
    // The timer is not up: the frame stays.
    assert_eq!(anim.animate(Facing::Up, true, false).atlas_index, Some(7));
    assert_eq!(anim.animate(Facing::Up, false, true).atlas_index, Some(6));
    assert_eq!(anim.frame, 0);
    assert_eq!(anim.animate(Facing::Up, false, true).atlas_index, None);
    let mut mirrored = WalkAnimation::standing(champion_info("Zhinja"));
    assert!(mirrored.animate(Facing::Right, true, false).flip);
}

#[test]
fn landmarks() {
    assert_eq!(poi_sprite_path(PoiType::CastleStorm), Some(("generated/poi/castle_storm.png", 3)));
    assert_eq!(poi_sprite_path(PoiType::Shrine), Some(("poi/witch_hut.png", 1)));
    assert_eq!(poi_sprite_path(PoiType::RefugeeCamp), Some(("generated/poi/refugee_camp.png", 2)));
    assert_eq!(poi_sprite_path(PoiType::Port), None);
    assert_eq!(poi_label(PoiType::WizardsSpire), "WizardsSpire");
}

#[test]
fn monsters_move_by_difficulty() {
    let periods: Vec<u32> = (0..7).map(monster_idle_period).collect();
    assert_eq!(periods, vec![90, 90, 60, 40, 25, 15, 15]);
    assert_eq!(animate_monster(0, 4, false), 0);
    assert_eq!(animate_monster(0, 4, true), 1);
    assert_eq!(animate_monster(3, 4, true), 1);
    assert_eq!(animate_monster(2, 4, true), 3);
    assert_eq!(animate_monster(0, 0, true), 1);
}

#[test]
fn settings_default_to_the_first_adventure() {
    assert_eq!(world_settings(0, 0, 0), (12345, 100, 80));
    assert_eq!(world_settings(9, 200, 160), (9, 200, 160));
    assert_eq!(map_center(100, 80), (792, -632));
    assert_eq!(map_center(1, 1), (0, 0));
    assert_eq!(fog_cover(100, 80), (9600, 7680));
}

#[test]
fn maps_that_do_not_fit_together_are_told() {
    let mut map = desert(4, 3);
    assert!(map.is_well_formed() && is_placeable(&map));
    assert!(can_search(&WorldGrid::from_seed(desert(4, 3))));
    map.biomes.pop();
    assert!(!map.is_well_formed());
    let mut empty = desert(4, 3);
    empty.width = 0;
    assert!(!empty.is_well_formed());
    let mut far = desert(4, 3);
    far.chests = vec![(usize::MAX, 0)];
    assert!(!is_placeable(&far));
}

#[test]
fn world_scene_places_everything() {
    let mut map = desert(10, 10);
    map.chests = vec![(1, 2), (3, 4)];
    map.monsters = vec![MonsterSpawn {
        monster_type: MonsterType::Yeti,
        x: 5,
        y: 6,
        difficulty: 4,
    }];
    map.pois = vec![poi(0, PoiType::Port, 7, 7), poi(1, PoiType::CastleFlame, 8, 9)];
    let scene = spawn_world(&map);
    assert_eq!(scene.chests.len(), 2);
    assert_eq!((scene.chests[1].index, scene.chests[1].x, scene.chests[1].y), (1, 48, -64));
    assert_eq!(scene.monsters[0].period_hundredths, 25);
    assert_eq!((scene.monsters[0].x, scene.monsters[0].y), (80, -96));
    assert_eq!(scene.labels.len(), 2);
    assert_eq!((scene.labels[0].x, scene.labels[0].y), (112, -124));
    // A port has no illustration.
    assert_eq!(scene.landmarks.len(), 1);
    assert_eq!(scene.landmarks[0].size_px, 48);
}

#[test]
fn opened_chests_and_defeated_monsters_go() {
    let opened = vec!["chest_12".to_string()];
    assert!(chest_is_gone(12, &opened));
    assert!(!chest_is_gone(1, &opened));
    assert!(monster_is_gone(0, &["monster_0".to_string()]));
    assert!(!monster_is_gone(0, &opened));
}

#[test]
fn other_players_on_their_route() {
    let world = WorldGrid::from_seed(desert(5, 5));
    let mut row = player("b", None, "");
    assert_eq!(other_player_spot(&row, &None, None, None, &world), OtherSpot::Tile(3, 4));
    row.planned_route = Some("[[0,0],[1,0]]".to_string());
    let route = Some(vec![(0, 0), (1, 0)]);
    assert_eq!(
        other_player_spot(&row, &route, Some(50), Some(150), &world),
        OtherSpot::OnRoute(RouteSpot::Between { index: 0, walked: 0, cost: 100 })
    );
    assert_eq!(
        other_player_spot(&row, &route, None, Some(150), &world),
        OtherSpot::OnRoute(RouteSpot::At(1))
    );
    assert_eq!(other_player_spot(&row, &None, Some(50), None, &world), OtherSpot::Tile(3, 4));
    row.map_tile_x = None;
    row.map_tile_y = None;
    row.planned_route = Some("".to_string());
    assert_eq!(other_player_spot(&row, &route, None, None, &world), OtherSpot::Tile(0, 0));
}

#[test]
fn own_sprite_follows_the_route() {
    let world = WorldGrid::from_seed(desert(5, 5));
    assert_eq!(own_player_spot((2, 1), &vec![], 0, Some(&world)), OwnSpot::Tile(2, 1));
    let route = vec![(0, 0), (1, 0), (2, 0)];
    assert_eq!(own_player_spot((2, 1), &route, 0, None), OwnSpot::Tile(2, 1));
    assert_eq!(
        own_player_spot((2, 1), &route, 120, Some(&world)),
        OwnSpot::OnRoute(RouteSpot::Between { index: 1, walked: 100, cost: 100 }, 1)
    );
}

#[test]
fn sprite_snaps_first_and_at_the_end_of_a_route() {
    let mut visual = VisualState::default();
    assert!(visual.snaps(true));
    assert!(!visual.snaps(true));
    assert!(visual.snaps(false));
    assert!(!visual.snaps(false));
}

#[test]
fn players_elsewhere_are_hidden() {
    let players = vec![
        player("me", None, "chaos"),
        player("near", None, "chaos"),
        player("cave", Some("cave1"), "chaos"),
        player("far", None, "frost_quest"),
    ];
    let sprites = vec!["cave".to_string(), "near".to_string(), "gone".to_string()];
    let plan = update_other_players(&players, "me", &sprites);
    assert_eq!(plan.hidden, vec![true, false, true]);
    assert_eq!(plan.draw, vec![false, true, false, false]);
    assert_eq!(plan.spawn, vec![false, false, false, false]);
    let plan = update_other_players(&players, "me", &vec![]);
    assert_eq!(plan.spawn, vec![false, true, false, false]);
}

#[test]
fn shop_labels_are_reconciled() {
    let markers = vec![
        ShopMarker { id: "a".into(), name: "Ann".into(), tile_x: 0, tile_y: 0 },
        ShopMarker { id: "b".into(), name: "Bob".into(), tile_x: 1, tile_y: 0 },
    ];
    let changes = poll_shops(&vec!["b".to_string(), "c".to_string()], &markers);
    assert_eq!(changes.remove, vec![false, true]);
    assert_eq!(changes.add, vec![true, false]);
    assert_eq!(shop_label("Ann"), "Shop: Ann");
    assert_eq!(shops_url("p1"), "/shops?player_id=p1");
}

#[test]
fn reconciling_twice_changes_nothing() {
    let wanted = vec!["x".to_string(), "y".to_string()];
    let changes = reconcile(&wanted, &wanted);
    assert_eq!(changes.remove, vec![false, false]);
    assert_eq!(changes.add, vec![false, false]);
}

#[test]
fn debug_menu_switches() {
    let mut debug = DebugOptions::default();
    let mut fog = FogOfWar::new_sized(1, 1);
    fog.take_dirty();
    let keys = DebugKeys { f3: false, digit1: true, digit2: true };
    // Closed: the digits do nothing.
    assert!(!handle_debug_menu(&mut debug, &mut fog, keys));
    assert!(!debug.fog_disabled && !fog.dirty);
    let keys = DebugKeys { f3: true, digit1: true, digit2: false };
    assert!(handle_debug_menu(&mut debug, &mut fog, keys));
    assert!(debug.fog_disabled && fog.dirty && !debug.show_pois);
    let keys = LayerKeys {
        f4: true,
        f5: false,
        f6: true,
        f7: false,
        f8: true,
        f9: false,
        f10: true,
    };
    toggle_layers(&mut debug, keys);
    assert!(!debug.procedural_terrain_enabled && !debug.lighting_enabled);
    assert!(debug.water_shader_enabled && debug.debug_sun_enabled && debug.debug_show_heightmap);
}

#[test]
fn debug_menu_says_it_all() {
    let debug = DebugOptions::default();
    let facts = DebugFacts {
        version: 321,
        seed: 12345,
        width: 100,
        height: 80,
        player_known: false,
        fps: 60,
        sun_x: "0.0",
        sun_y: "1.5",
        sun_z: "200.0",
        tile_z: "0.50",
    };
    assert_eq!(
        debug_menu_text(&debug, &facts),
        "=== DEBUG (F3) ===\nClient v321 · seed 12345 · 100×80 · adv ?\nFPS: 60\n1: Fog [ON]\n2: POIs [OFF]\nF4: Procedural ground [ON]\nF6: Lighting [ON]\nF7: Water shader [ON]\nF8: Debug sun [OFF] (0.0, 1.5, 200.0)\nF9: Show normals (water + shoreline bevel) [OFF]\nF10: Show heightmap [OFF]\nPgUp/PgDn: Tile Z factor [0.50]"
    );
}

#[test]
fn authored_landmarks_are_merged_once() {
    let mut map = desert(3, 3);
    map.pois = vec![poi(1, PoiType::Town, 0, 0)];
    let server = || vec![poi(1, PoiType::Cave, 2, 2), poi(1000, PoiType::TravelGate, 1, 1)];
    assert_eq!(merge_pois(&mut map, server()), 1);
    assert_eq!(map.pois.len(), 2);
    assert_eq!(map.pois[0].poi_type, PoiType::Town);
    assert_eq!(map.pois[1].id, 1000);
    assert_eq!(merge_pois(&mut map, server()), 2);
    assert_eq!(map.pois.len(), 2);
    assert_eq!(authored_pois_path(""), None);
    assert_eq!(authored_pois_path("Ann"), Some("/world/pois?adventure_id=chaos"));
}

#[test]
fn lights_of_the_scene() {
    let mut fog = FogOfWar::new_sized(10, 10);
    fog.reveal_around(2, 2, 1);
    let players = vec![
        player("me", None, ""),
        player("near", None, ""),
        player("cave", Some("c"), ""),
    ];
    let pois = vec![poi(0, PoiType::Town, 2, 2), poi(1, PoiType::Town, 9, 9)];
    let lights = gather_scene_lights(true, false, (1, 1), &players, "me", &pois, &fog, false);
    assert_eq!(
        lights,
        vec![
            Light { x: 16, y: -16, radius: 80 },
            Light { x: 48, y: -64, radius: 80 },
            Light { x: 32, y: -32, radius: 48 },
        ]
    );
    let all = gather_scene_lights(false, false, (1, 1), &players, "me", &pois, &fog, true);
    assert_eq!(all.len(), 3);
    let many: Vec<PointOfInterest> = (0..40).map(|i| poi(i, PoiType::Cave, 2, 2)).collect();
    let lights = gather_scene_lights(true, false, (1, 1), &players, "me", &many, &fog, false);
    assert_eq!(lights.len(), MAX_LIGHTS);
}
