use gameclient::items::{EquipmentLoadout, InventorySlot};
use gameclient::player::{
    apply_server_state, at_same_place, carried_ids, chest_id, co_located, dash_starts, find_me,
    first_marker, handle_clear_route, handle_map_click, map_monster_id, sync_route, tile_info,
    ClickOutcome, Facing, MapClick, MyPlayerState, PlayerRow,
};
use gameclient::terrain::fog::FogOfWar;
use gameclient::terrain::path::DisplayRoute;
use gameclient::terrain::world::WorldGrid;
use gameclient::terrain::world_map::{Biome, WorldMap};

fn map(width: usize, height: usize) -> WorldMap {
    let count = width * height;
    WorldMap {
        width,
        height,
        biomes: vec![Biome::Desert; count],
        has_road: vec![false; count],
        on_poi: vec![false; count],
        step_costs: vec![100; count],
        roads: vec![],
        pois: vec![],
        chests: vec![],
        monsters: vec![],
        required_items: vec![None; 9],
    }
}

fn bare() -> EquipmentLoadout {
    EquipmentLoadout { weapon: None, armor: None, accessory: None, feet: None, toe_rings: None }
}

fn row(id: &str, name: &str) -> PlayerRow {
    PlayerRow {
        id: id.into(),
        name: name.into(),
        is_walking: true,
        map_tile_x: Some(2),
        map_tile_y: Some(1),
        gold: 40,
        facing: Facing::Up,
        planned_route: None,
        inventory: vec![],
        equipment: bare(),
        opened_chests: vec![],
        defeated_monsters: vec![],
        champion: None,
        location: None,
        completed_events: vec![],
        item_upgrades: vec![],
        boons: vec![],
        pending_boon_choice: None,
        active_buffs: vec![],
        adventure_id: "chaos".into(),
    }
}

fn click(tile: (usize, usize)) -> MapClick {
    MapClick { tile, pressed: true, shift: false, over_ui: false, fog_disabled: true }
}

#[test]
fn own_row_is_found_whatever_the_case() {
    let players = vec![row("1", "Ann"), row("2", "Bob")];
    assert_eq!(find_me(&players, "bOB"), Some(1));
    assert_eq!(find_me(&players, "Cyd"), None);
    assert_eq!(find_me(&players, ""), None);
}

#[test]
fn local_route_waits_for_the_server() {
    let mut state = MyPlayerState::default();
    let mut display = DisplayRoute::default();
    state.route = vec![(0, 0), (1, 0)];
    display.waypoints = vec![(0, 0), (1, 0)];
    display.locally_modified = true;
    let other = Some("other".to_string());
    // Another route does not confirm the local one.
    assert!(!sync_route(&mut state, &mut display, &other, Some(vec![(5, 5)])));
    assert_eq!(state.route, vec![(0, 0), (1, 0)]);
    // The very route does.
    assert!(sync_route(&mut state, &mut display, &other, Some(vec![(0, 0), (1, 0)])));
    assert!(!display.locally_modified);
    // Then the server's route is taken over.
    assert!(sync_route(&mut state, &mut display, &other, Some(vec![(5, 5)])));
    assert_eq!(display.waypoints, vec![(5, 5)]);
    assert!(sync_route(&mut state, &mut display, &Some("".to_string()), None));
    assert!(state.route.is_empty() && display.waypoints.is_empty());
}

#[test]
fn server_state_is_taken_over() {
    let mut state = MyPlayerState::default();
    let mut display = DisplayRoute::default();
    let mut fog = FogOfWar::new_sized(3, 2);
    let update = apply_server_state(
        row("1", "Ann"),
        None,
        Some(&vec![true, false, false, false, false, false]),
        &mut state,
        &mut display,
        &mut fog,
    );
    assert!(update.first);
    assert!(state.initialized);
    assert_eq!((state.tile_x, state.tile_y, state.gold), (2, 1, 40));
    assert_eq!(state.facing, Facing::Up);
    assert_eq!(state.adventure_id, "chaos");
    assert!(fog.is_revealed(0, 0));
    let update =
        apply_server_state(row("1", "Ann"), None, None, &mut state, &mut display, &mut fog);
    assert!(!update.first);
}

#[test]
fn carried_items_are_those_of_bag_and_body() {
    let inventory = vec![InventorySlot { item_id: "rope".into(), quantity: 2 }];
    let mut worn = bare();
    worn.feet = Some("boots".into());
    let ids = carried_ids(&inventory, &worn);
    assert!(ids.contains(&"rope".to_string()));
    assert!(ids.contains(&"boots".to_string()));
    assert_eq!(ids.len(), 2);
}

#[test]
fn click_plans_a_route_and_shift_extends_it() {
    let world = WorldGrid::from_seed(map(5, 1));
    let fog = FogOfWar::new_sized(5, 1);
    let mut state = MyPlayerState::default();
    let mut display = DisplayRoute::default();
    let outcome = handle_map_click(&world, &fog, click((2, 0)), &mut state, &mut display);
    assert!(matches!(outcome, ClickOutcome::Replaced { walked_before: None }));
    assert_eq!(state.route, vec![(0, 0), (1, 0), (2, 0)]);
    assert!(display.locally_modified);
    let mut further = click((4, 0));
    further.shift = true;
    let outcome = handle_map_click(&world, &fog, further, &mut state, &mut display);
    assert!(matches!(outcome, ClickOutcome::Extended));
    assert_eq!(display.waypoints, vec![(0, 0), (1, 0), (2, 0), (3, 0), (4, 0)]);
    // The goal of the route on screen is clicked again.
    let outcome = handle_map_click(&world, &fog, click((4, 0)), &mut state, &mut display);
    assert!(matches!(outcome, ClickOutcome::Nothing));
}

#[test]
fn click_on_fog_or_interface_does_nothing() {
    let world = WorldGrid::from_seed(map(5, 1));
    let fog = FogOfWar::new_sized(5, 1);
    let mut state = MyPlayerState::default();
    let mut display = DisplayRoute::default();
    let mut hidden = click((2, 0));
    hidden.fog_disabled = false;
    let outcome = handle_map_click(&world, &fog, hidden, &mut state, &mut display);
    assert!(matches!(outcome, ClickOutcome::Nothing));
    let mut ui = click((2, 0));
    ui.over_ui = true;
    let outcome = handle_map_click(&world, &fog, ui, &mut state, &mut display);
    assert!(matches!(outcome, ClickOutcome::Nothing));
    state.location = Some("cave".into());
    let outcome = handle_map_click(&world, &fog, click((2, 0)), &mut state, &mut display);
    assert!(matches!(outcome, ClickOutcome::Nothing));
}

#[test]
fn missing_item_is_named() {
    let mut gated = map(3, 1);
    gated.biomes[2] = Biome::Swamp;
    gated.required_items[2] = Some("bog_charm".into());
    let world = WorldGrid::from_seed(gated);
    let fog = FogOfWar::new_sized(3, 1);
    let mut state = MyPlayerState::default();
    let mut display = DisplayRoute::default();
    match handle_map_click(&world, &fog, click((2, 0)), &mut state, &mut display) {
        ClickOutcome::Blocked { message } => {
            assert_eq!(message, Some("The swamp is cursed! You need a Bog Charm to enter."));
        }
        _ => panic!("the swamp is closed"),
    }
    assert!(state.route.is_empty());
}

#[test]
fn clearing_a_route_stops_where_one_is() {
    let world = WorldGrid::from_seed(map(5, 1));
    let mut state = MyPlayerState::default();
    let mut display = DisplayRoute::default();
    state.route = vec![(0, 0), (1, 0), (2, 0)];
    display.waypoints = state.route.clone();
    handle_clear_route(&world, 150, &mut state, &mut display);
    assert_eq!((state.tile_x, state.tile_y), (1, 0));
    assert!(state.route.is_empty() && display.waypoints.is_empty() && display.locally_modified);
}

#[test]
fn who_is_shown() {
    let mut players = vec![row("me", "a"), row("b", "b"), row("c", "c"), row("d", "d")];
    players[2].location = Some("cave".into());
    players[3].adventure_id = "frost_quest".into();
    assert_eq!(co_located(&players, "me"), vec![false, true, false, false]);
    assert_eq!(at_same_place(&players, "me"), vec![false, true, false, true]);
    // Nobody is known by that id: all on the overworld show.
    assert_eq!(co_located(&players, "x"), vec![true, true, false, true]);
}

#[test]
fn ids_of_chests_and_monsters() {
    assert_eq!(chest_id(0), "chest_0");
    assert_eq!(chest_id(107), "chest_107");
    assert_eq!(map_monster_id(42), "monster_42");
}

#[test]
fn tile_under_the_cursor() {
    let world = WorldGrid::from_seed(map(2, 1));
    let fog = FogOfWar::new_sized(2, 1);
    assert_eq!(tile_info(&world, &fog, (0, 0), false, false), "");
    assert_eq!(tile_info(&world, &fog, (0, 0), true, false), "???");
    let seen = tile_info(&world, &fog, (0, 0), true, true);
    assert!(seen.ends_with("m"));
    assert_eq!(tile_info(&world, &fog, (7, 7), true, true), "Water impassable");
}

#[test]
fn route_markers() {
    assert_eq!(first_marker(0, 3), 1);
    assert_eq!(first_marker(7, 3), 3);
    assert_eq!(dash_starts(16), vec![0, 10]);
    assert_eq!(dash_starts(0), Vec::<u32>::new());
    assert_eq!(dash_starts(21), vec![0, 10, 20]);
}
