use gameclient::terrain::interior::{
    bfs_path, handle_interior_click, interior_scene, interior_title, monster_key, monster_visible,
    portal_allows_exit, portal_color, portal_locked, retry_stuck_interior_fetch,
    watch_location_changes, CurrentInterior, InteriorChest, InteriorMap, InteriorMonster,
    InteriorTile, Portal, PortalDest, QuadKind,
};

fn m() -> InteriorMap {
    // 3x3 with a wall in the middle
    InteriorMap {
        id: "t".into(),
        name: "T".into(),
        width: 3,
        height: 3,
        tiles: vec![
            InteriorTile::Floor,
            InteriorTile::Floor,
            InteriorTile::Floor,
            InteriorTile::Floor,
            InteriorTile::Wall,
            InteriorTile::Floor,
            InteriorTile::Floor,
            InteriorTile::Floor,
            InteriorTile::Floor,
        ],
        portals: vec![Portal {
            x: 2,
            y: 2,
            destination: PortalDest::Overworld { x: 0, y: 0 },
            label: "".into(),
            unlock_event_id: None,
        }],
        chests: vec![],
        monsters: vec![],
        floor_cost_m: 40,
    }
}

#[test]
fn bfs_direct() {
    let path = bfs_path(&m(), (0, 0), (2, 0));
    assert_eq!(path, Some(vec![(0, 0), (1, 0), (2, 0)]));
}

#[test]
fn bfs_around_wall() {
    let path = bfs_path(&m(), (0, 0), (2, 2)).unwrap();
    assert!(path.first() == Some(&(0, 0)));
    assert!(path.last() == Some(&(2, 2)));
    assert!(!path.contains(&(1, 1)));
}

#[test]
fn bfs_unwalkable_goal() {
    assert_eq!(bfs_path(&m(), (0, 0), (1, 1)), None);
}

#[test]
fn tiles_and_portals_of_an_interior() {
    let map = m();
    assert!(map.is_well_formed());
    assert_eq!(map.tile_at(1, 1), Some(InteriorTile::Wall));
    assert_eq!(map.tile_at(3, 0), None);
    assert!(map.is_walkable(2, 2));
    assert!(!map.is_walkable(1, 1));
    assert_eq!(map.portal_at(2, 2), Some(0));
    assert_eq!(map.portal_at(0, 0), None);
    let mut broken = m();
    broken.tiles.pop();
    assert!(!broken.is_well_formed());
}

#[test]
fn unreachable_floor_has_no_path() {
    let mut map = m();
    map.tiles[1] = InteriorTile::Wall;
    map.tiles[3] = InteriorTile::Wall;
    assert_eq!(bfs_path(&map, (0, 0), (2, 2)), None);
    assert_eq!(bfs_path(&map, (0, 0), (0, 0)), Some(vec![(0, 0)]));
}

#[test]
fn entering_and_leaving() {
    let mut current = CurrentInterior::default();
    let cave = Some("t".to_string());
    let change = watch_location_changes(&mut current, &cave);
    assert!(!change.overworld_visible);
    assert_eq!(change.fetch, Some("t".to_string()));
    // It is on its way: nothing is fetched twice.
    let again = watch_location_changes(&mut current, &cave);
    assert_eq!(again.fetch, None);
    // The fetch was lost.
    assert!(retry_stuck_interior_fetch(&mut current, &cave, true));
    let retry = watch_location_changes(&mut current, &cave);
    assert_eq!(retry.fetch, Some("t".to_string()));
    current.map = Some(m());
    let back = watch_location_changes(&mut current, &None);
    assert!(back.overworld_visible && back.clear_scene);
    assert_eq!(back.fetch, None);
}

#[test]
fn scene_of_an_interior() {
    let mut map = m();
    map.chests.push(InteriorChest { x: 0, y: 1 });
    map.monsters.push(InteriorMonster { x: 1, y: 0 });
    let quads = interior_scene(&map);
    assert_eq!(quads.len(), 12);
    assert!(matches!(quads[4].kind, QuadKind::Wall));
    assert!(matches!(quads[9].kind, QuadKind::Portal(0)));
    assert_eq!((quads[10].x, quads[10].y), (0, 1));
    assert_eq!(quads[11].kind.style().rgb, (80, 25, 25));
    assert_eq!(interior_title(&map), "⟐ T");
}

#[test]
fn portals_and_monsters() {
    let done = vec!["quest".to_string()];
    assert!(!portal_locked(&None, &[]));
    assert!(portal_locked(&Some("quest".to_string()), &[]));
    assert!(!portal_locked(&Some("quest".to_string()), &done));
    assert_ne!(portal_color(true), portal_color(false));
    assert!(portal_allows_exit(&PortalDest::OverworldReturn));
    assert_eq!(monster_key("cave", 3), "cave:monster:3");
    assert!(monster_visible("cave:monster:3", &[]));
    assert!(!monster_visible("cave:monster:3", &["cave:monster:3".to_string()]));
}

#[test]
fn clicks_in_an_interior() {
    let map = m();
    let route = handle_interior_click(&map, true, true, false, (0, 0), (2, 0));
    assert_eq!(route, Some(vec![(0, 0), (1, 0), (2, 0)]));
    assert_eq!(handle_interior_click(&map, true, true, true, (0, 0), (2, 0)), None);
    assert_eq!(handle_interior_click(&map, false, true, false, (0, 0), (2, 0)), None);
    assert_eq!(handle_interior_click(&map, true, true, false, (0, 0), (1, 1)), None);
}
