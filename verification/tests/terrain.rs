use gameclient::terrain::fog::FogOfWar;
use gameclient::terrain::lighting::{blur_window, height_table, lighting_biome_height};
use gameclient::terrain::path::{
    find_path, find_path_with_items, position_and_index_from_route_meters,
    position_from_route_meters, tile_index_from_meters, RouteSpot,
};
use gameclient::terrain::water_shader::{lattice, water_mask};
use gameclient::terrain::world::WorldGrid;
use gameclient::terrain::world_map::{Biome, PoiType, PointOfInterest, WorldMap};
use gameclient::terrain::{autotile_index, Ground, Overlay, Terrain};

/// A map of one biome, on which every tile costs the server a hundred meters.
fn flat(width: usize, height: usize, biome: Biome) -> WorldMap {
    let count = width * height;
    WorldMap {
        width,
        height,
        biomes: vec![biome; count],
        has_road: vec![false; count],
        on_poi: vec![false; count],
        step_costs: vec![100; count],
        roads: vec![],
        pois: vec![],
        chests: vec![],
        monsters: vec![],
        required_items: vec![None; 9],
    }
}

fn set(map: &mut WorldMap, x: usize, y: usize, biome: Biome) {
    let slot = y * map.width + x;
    map.biomes[slot] = biome;
}

#[test]
fn costs_by_ground_and_overlay() {
    assert_eq!(Ground::Road.movement_cost(), 100);
    assert_eq!(Ground::Water.movement_cost(), u32::MAX);
    assert!(!Ground::Water.is_passable());
    let bridge = Terrain { ground: Ground::Water, overlay: Some(Overlay::Bridge) };
    assert!(bridge.is_passable());
    assert_eq!(bridge.movement_cost(), 100);
    let span = Terrain { ground: Ground::Mountain, overlay: Some(Overlay::Bridge) };
    assert_eq!(span.movement_cost(), 100);
    let drowned = Terrain { ground: Ground::Water, overlay: Some(Overlay::Tree) };
    assert_eq!(drowned.movement_cost(), u32::MAX);
    let open_water = Terrain { ground: Ground::Water, overlay: None };
    assert!(!open_water.is_passable());
    assert_eq!(open_water.movement_cost(), u32::MAX);
}

#[test]
fn autotile_center_and_corners() {
    let ground = Ground::Grass;
    let center = autotile_index(ground, 5, 5, |_, _| true);
    assert_eq!(center, ground.center_tile());
    // Alike below and to the right only: the upper left corner of the block.
    let corner = autotile_index(ground, 5, 5, |x, y| x > 5 || y > 5);
    assert_eq!(corner, ground.autotile_base());
    // A tile on its own shows the center.
    assert_eq!(autotile_index(ground, 0, 0, |_, _| false), center);
    // Beyond the top and left edges nothing is alike.
    assert_eq!(autotile_index(ground, 0, 0, |_, _| true), ground.autotile_base());
}

#[test]
fn generated_ground_follows_biome_and_road() {
    let mut map = flat(4, 3, Biome::Swamp);
    map.roads = vec![vec![(1, 1), (2, 1)]];
    map.has_road[5] = true;
    map.has_road[6] = true;
    let world = WorldGrid::from_seed(map);
    assert_eq!(world.get_ground(0, 0), Ground::Swamp);
    assert_eq!(world.get_ground(1, 1), Ground::Road);
    assert_eq!(world.get_ground(2, 1), Ground::Road);
}

#[test]
fn off_the_map_is_water() {
    let world = WorldGrid::from_seed(flat(2, 2, Biome::Grassland));
    assert!(!world.get(5, 5).is_passable());
    assert_eq!(world.server_tile_cost(9, 0), u32::MAX);
    assert_eq!(world.server_tile_cost(1, 1), 100);
}

#[test]
fn landmark_tile_is_road() {
    let mut map = flat(5, 5, Biome::Forest);
    map.pois.push(PointOfInterest {
        id: 7,
        poi_type: PoiType::Town,
        x: 2,
        y: 2,
        biome: Biome::Forest,
        has_road: true,
        name: "Here".into(),
        description: "".into(),
    });
    let world = WorldGrid::from_seed(map);
    assert_eq!(world.get_ground(2, 2), Ground::Road);
    assert!(world.get(2, 2).is_passable());
}

#[test]
fn only_landmarks_without_picture_get_an_overlay() {
    for poi_type in [
        PoiType::Cave,
        PoiType::CastleFrost,
        PoiType::CastleFlame,
        PoiType::CastleShadow,
        PoiType::CastleStorm,
        PoiType::TravelGate,
        PoiType::RefugeeCamp,
        PoiType::WizardsSpire,
        PoiType::Port,
    ] {
        let mut map = flat(5, 5, Biome::Forest);
        map.pois.push(PointOfInterest {
            id: 7,
            poi_type,
            x: 0,
            y: 4,
            biome: Biome::Forest,
            has_road: true,
            name: "Here".into(),
            description: "".into(),
        });
        let world = WorldGrid::from_seed(map);
        let expected = if poi_type == PoiType::Port { Some(Overlay::Village) } else { None };
        assert_eq!(world.get(0, 4).overlay, expected);
        assert_eq!(world.get(1, 3).overlay, None);
        assert_eq!(world.get_ground(1, 3), Ground::Road);
    }
}

#[test]
fn empty_inventory_gives_the_plain_route() {
    let world = WorldGrid::from_seed(flat(6, 5, Biome::Desert));
    let path = find_path(&world, (0, 0), (5, 4)).unwrap();
    assert_eq!(find_path_with_items(&world, (0, 0), (5, 4), &[]), Some(path.clone()));
    for (i, tile) in path.iter().enumerate() {
        assert!(!path[i + 1..].contains(tile));
    }
}

#[test]
fn a_bridge_leads_over_water() {
    let mut map = flat(3, 1, Biome::Desert);
    set(&mut map, 1, 0, Biome::Water);
    let mut world = WorldGrid::from_seed(map);
    assert_eq!(find_path(&world, (0, 0), (2, 0)), None);
    world.cells[0][1].overlay = Some(Overlay::Bridge);
    assert_eq!(find_path(&world, (0, 0), (2, 0)), Some(vec![(0, 0), (1, 0), (2, 0)]));
}

#[test]
fn tile_positions_round_trip() {
    let world = WorldGrid::from_seed(flat(100, 80, Biome::Grassland));
    assert_eq!(WorldGrid::tile_to_world(3, 4), (48, -64));
    // Eight pixels right of and below the corner of tile (0, 0).
    assert_eq!(world.world_to_tile(8, 8), (0, 0));
    assert_eq!(world.world_to_tile(3 * 16 + 8, 4 * 16 + 8), (3, 4));
    assert_eq!(world.world_to_tile(-50, 99_999), (0, 79));
}

#[test]
fn straight_path_on_open_ground() {
    let world = WorldGrid::from_seed(flat(6, 1, Biome::Desert));
    let path = find_path(&world, (0, 0), (5, 0)).unwrap();
    assert_eq!(path, vec![(0, 0), (1, 0), (2, 0), (3, 0), (4, 0), (5, 0)]);
}

#[test]
fn path_to_itself_is_one_tile() {
    let world = WorldGrid::from_seed(flat(3, 3, Biome::Desert));
    assert_eq!(find_path(&world, (1, 1), (1, 1)), Some(vec![(1, 1)]));
}

#[test]
fn path_goes_around_water() {
    let mut map = flat(3, 3, Biome::Desert);
    set(&mut map, 1, 0, Biome::Water);
    set(&mut map, 1, 1, Biome::Water);
    let world = WorldGrid::from_seed(map);
    let path = find_path(&world, (0, 0), (2, 0)).unwrap();
    assert_eq!(path.len(), 7);
    assert!(!path.contains(&(1, 0)));
    assert!(path.contains(&(1, 2)));
}

#[test]
fn no_path_across_a_river_or_to_water() {
    let mut map = flat(3, 2, Biome::Desert);
    set(&mut map, 1, 0, Biome::Water);
    set(&mut map, 1, 1, Biome::Water);
    let world = WorldGrid::from_seed(map);
    assert_eq!(find_path(&world, (0, 0), (2, 0)), None);
    assert_eq!(find_path(&world, (0, 0), (1, 0)), None);
}

#[test]
fn roads_are_preferred_where_they_are_cheaper() {
    // Swamp straight ahead, a road around it.
    let mut map = flat(3, 2, Biome::Swamp);
    map.roads = vec![vec![(0, 0), (0, 1), (1, 1), (2, 1), (2, 0)]];
    for slot in [0, 3, 4, 5, 2] {
        map.has_road[slot] = true;
    }
    let world = WorldGrid::from_seed(map);
    let path = find_path(&world, (0, 0), (2, 0)).unwrap();
    let swamp = world.get(1, 0).movement_cost();
    assert!(swamp > 300);
    assert_eq!(path, vec![(0, 0), (0, 1), (1, 1), (2, 1), (2, 0)]);
}

#[test]
fn items_open_gated_biomes() {
    let mut map = flat(3, 1, Biome::Desert);
    set(&mut map, 1, 0, Biome::Swamp);
    map.required_items[2] = Some("bog_charm".to_string());
    let world = WorldGrid::from_seed(map);
    assert_eq!(find_path_with_items(&world, (0, 0), (2, 0), &[]), None);
    assert_eq!(find_path(&world, (0, 0), (2, 0)), None);
    let items = vec!["rope".to_string(), "bog_charm".to_string()];
    let path = find_path_with_items(&world, (0, 0), (2, 0), &items).unwrap();
    assert_eq!(path, vec![(0, 0), (1, 0), (2, 0)]);
}

#[test]
fn route_meters_walk_through_tiles() {
    let world = WorldGrid::from_seed(flat(4, 1, Biome::Desert));
    let route = vec![(0, 0), (1, 0), (2, 0), (3, 0)];
    assert_eq!(position_from_route_meters(&[], 10, &world), None);
    assert_eq!(
        position_from_route_meters(&route, 0, &world),
        Some(RouteSpot::Between { index: 0, walked: 0, cost: 100 })
    );
    assert_eq!(
        position_and_index_from_route_meters(&route, 150, &world),
        Some((RouteSpot::Between { index: 1, walked: 100, cost: 100 }, 1))
    );
    assert_eq!(
        position_and_index_from_route_meters(&route, 10_000, &world),
        Some((RouteSpot::At(3), 3))
    );
    assert_eq!(tile_index_from_meters(&route, 99, &world), 0);
    assert_eq!(tile_index_from_meters(&route, 100, &world), 1);
    assert_eq!(tile_index_from_meters(&route, 350, &world), 3);
    assert_eq!(tile_index_from_meters(&[], 350, &world), 0);
}

#[test]
fn impassable_tile_of_a_route_stops_the_walker() {
    let mut map = flat(3, 1, Biome::Desert);
    map.step_costs[1] = u32::MAX;
    let world = WorldGrid::from_seed(map);
    let route = vec![(0, 0), (1, 0), (2, 0)];
    assert_eq!(
        position_and_index_from_route_meters(&route, 100_000, &world),
        Some((RouteSpot::At(1), 1))
    );
}

#[test]
fn fog_lifts_in_a_disc_and_stays_lifted() {
    let mut fog = FogOfWar::new_sized(9, 9);
    assert!(!fog.is_revealed(4, 4));
    assert!(fog.take_dirty());
    fog.reveal_around(4, 4, 2);
    assert!(fog.is_revealed(4, 4));
    assert!(fog.is_revealed(4, 2));
    assert!(!fog.is_revealed(6, 6));
    assert!(!fog.is_revealed(20, 4));
    assert!(fog.take_dirty());
    assert!(!fog.take_dirty());
    fog.reveal_around(4, 4, 1);
    assert!(fog.is_revealed(4, 2));
    // Nothing new was uncovered.
    fog.reveal_around(4, 4, 2);
    assert!(!fog.dirty);
    // A center that leaves room for its radius only.
    fog.reveal_around(i32::MAX as usize - 1, 4, 1);
    assert!(!fog.dirty);
}

#[test]
fn fog_merges_and_covers() {
    let mut fog = FogOfWar::new_sized(2, 1);
    fog.take_dirty();
    fog.merge_server(&vec![false, false]);
    assert!(!fog.dirty);
    fog.merge_server(&vec![true, false]);
    assert!(fog.dirty);
    assert!(fog.is_revealed(0, 0));
    fog.merge_server(&vec![false, true]);
    assert!(fog.is_revealed(0, 0));
    assert_eq!(fog.create_fog_mask(false), vec![255, 255]);
    fog.cover_all();
    assert_eq!(fog.create_fog_mask(false), vec![0, 0]);
    assert_eq!(fog.create_fog_mask(true), vec![255, 255]);
}

#[test]
fn water_mask_by_biome() {
    let mut map = flat(5, 1, Biome::Grassland);
    set(&mut map, 0, 0, Biome::Water);
    set(&mut map, 1, 0, Biome::DeepWater);
    set(&mut map, 2, 0, Biome::Snow);
    set(&mut map, 3, 0, Biome::Swamp);
    assert_eq!(water_mask(&map), vec![255, 255, 128, 64, 0]);
}

#[test]
fn noise_lattice_wraps() {
    assert_eq!(lattice(0, 0, 16), 0);
    assert_eq!(lattice(3, 5, 16), lattice(19, 5, 16));
    assert_eq!(lattice(3, 5, 16), lattice(-13, 5 + 32, 16));
    assert_ne!(lattice(3, 5, 16), lattice(4, 5, 16));
    // The hash of (1, 0), cut to 24 bits.
    let mut n: u32 = 374_761_393;
    n ^= n >> 13;
    n = n.wrapping_mul(1_274_126_177);
    n ^= n >> 16;
    assert_eq!(lattice(1, 0, 16), n & 0x00FF_FFFF);
}

#[test]
fn roads_lie_a_notch_lower() {
    let mut map = flat(3, 1, Biome::Grassland);
    set(&mut map, 2, 0, Biome::Water);
    map.has_road[1] = true;
    map.has_road[2] = true;
    assert_eq!(height_table(&map), vec![40, 32, 0]);
    assert_eq!(lighting_biome_height(&map, 1, 0), 32);
}

#[test]
fn blur_windows_stay_on_the_map() {
    assert_eq!(blur_window(3, 3, 1, 1), vec![0, 1, 2, 3, 4, 5, 6, 7, 8]);
    assert_eq!(blur_window(3, 3, 0, 0), vec![0, 1, 3, 4]);
    assert_eq!(blur_window(3, 3, 2, 1), vec![1, 2, 4, 5, 7, 8]);
    assert_eq!(blur_window(1, 1, 0, 0), vec![0]);
}

#[test]
fn overlays_have_their_sprites() {
    assert_eq!(Overlay::Tree.tile_index(), 138);
    assert_eq!(Overlay::DenseTree.tile_index(), 165);
    assert_eq!(Overlay::Village.tile_index(), 769);
    assert_eq!(Overlay::Bridge.tile_index(), 85);
}
