use gameclient::reconcile::{manage_layer, LayerAction};
use gameclient::terrain::procedural_ground::{
    build_tile_mesh, generate_biome_texture, generate_test_biome_texture, generate_water_distance,
    nearest_water_boundary, toggle_and_manage, MeshVertex,
};
use gameclient::terrain::world_map::{Biome, WorldMap};

fn map_of(width: usize, height: usize, biomes: Vec<Biome>) -> WorldMap {
    let count = width * height;
    WorldMap {
        width,
        height,
        biomes,
        has_road: vec![false; count],
        on_poi: vec![false; count],
        step_costs: vec![100; count],
        roads: vec![],
        pois: vec![],
        chests: vec![],
        monsters: vec![],
        required_items: vec![None; 9],
    }
}

#[test]
fn biome_codes_row_by_row() {
    let map = map_of(2, 2, vec![Biome::Water, Biome::DeepWater, Biome::Mountain, Biome::Snow]);
    assert_eq!(generate_biome_texture(&map), vec![0, 1, 7, 8]);
}

#[test]
fn test_grid_covers_the_texture() {
    let data = generate_test_biome_texture(20, 10);
    assert_eq!(data.len(), 200);
    assert!(data.iter().all(|code| *code <= 8));
    assert!(data.iter().any(|code| *code != data[0]));
}

#[test]
fn water_is_found_next_to_the_tile() {
    let map = map_of(2, 1, vec![Biome::Grassland, Biome::Water]);
    // The middle of the left tile lies eight pixels from the right one.
    assert_eq!(nearest_water_boundary(&map, 16, 16), Some((16, 0)));
    assert_eq!(nearest_water_boundary(&map, 40, 16), None);
    assert_eq!(nearest_water_boundary(&map, 16, 64), None);
    let dry = map_of(2, 1, vec![Biome::Grassland, Biome::Desert]);
    assert_eq!(nearest_water_boundary(&dry, 16, 16), None);
}

#[test]
fn water_distance_grows_inland() {
    let map = map_of(2, 1, vec![Biome::Grassland, Biome::Water]);
    let data = generate_water_distance(&map);
    assert_eq!(data.len(), 512);
    let row = &data[8 * 32..9 * 32];
    assert_eq!(row[31], 0);
    assert!(row[15] <= row[10]);
    assert!(row[10] < row[0]);
    let dry = map_of(1, 1, vec![Biome::Grassland]);
    assert!(generate_water_distance(&dry).iter().all(|d| *d == 255));
}

#[test]
fn mesh_of_two_tiles() {
    let map = map_of(2, 1, vec![Biome::Grassland, Biome::Mountain]);
    let mesh = build_tile_mesh(&map);
    assert_eq!(mesh.vertices.len(), 6);
    assert_eq!(mesh.vertices[0], MeshVertex { x: -8, y: 8, height: 40 });
    // The corner between both tiles is as tall as the mountain.
    assert_eq!(mesh.vertices[1], MeshVertex { x: 8, y: 8, height: 100 });
    assert_eq!(mesh.vertices[5], MeshVertex { x: 24, y: -8, height: 100 });
    assert_eq!(mesh.indices, vec![0, 3, 1, 1, 3, 4, 1, 4, 2, 2, 4, 5]);
}

#[test]
fn layers_follow_their_switch() {
    assert_eq!(manage_layer(true, true, true), LayerAction::Keep);
    assert_eq!(manage_layer(true, false, true), LayerAction::Spawn);
    assert_eq!(manage_layer(true, false, false), LayerAction::Keep);
    assert_eq!(manage_layer(false, true, true), LayerAction::Despawn);
    assert_eq!(toggle_and_manage(true, true, true, true), LayerAction::Despawn);
    assert_eq!(toggle_and_manage(true, false, true, true), LayerAction::Spawn);
    assert_eq!(toggle_and_manage(true, true, false, true), LayerAction::Keep);
}
