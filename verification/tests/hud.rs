use gameclient::boon_picker::{picker_active, rebuild_panel, select_boon_body, PickerStep};
use gameclient::hud::boons::{rebuild_chips, update_tooltip, BoonInfo};
use gameclient::hud::journal::{
    fetch_on_open, hovered_row, journal_path, kind_color, toggle_journal, update_journal_panel,
    update_popup, FetchStep, JournalContent, JournalEntry, JournalStep, PopupStep,
};
use gameclient::hud::minimap::{
    draw_minimap, ground_color, other_dot_corner, own_dot_corner, regenerate_if_dirty,
    update_player_dots,
};
use gameclient::hud::{
    build_inventory_items, detect_gold_change, detect_level_up, distance_text, gold_text,
    handle_inventory_click, inventory_title, level_text, show_item_tooltip, speed_text,
    toggle_inventory, update_inventory, ItemAction, PanelAction, RowKind,
};
use gameclient::items::{
    EquipmentLoadout, InventorySlot, ItemCatalog, ItemCategory, ItemDef, ItemEffect, StatType,
};
use gameclient::player::{Facing, PendingBoonChoice, PlayerRow};
use gameclient::session::Hover;
use gameclient::terrain::fog::FogOfWar;
use gameclient::terrain::textures::{NamedImage, RgbaImage};
use gameclient::terrain::world::WorldGrid;
use gameclient::terrain::world_map::{Biome, WorldMap};
use gameclient::terrain::Ground;

fn map(width: usize, height: usize) -> WorldMap {
    let count = width * height;
    WorldMap {
        width,
        height,
        biomes: vec![Biome::Desert; count],
        has_road: vec![false; count],
        on_poi: vec![false; count],
        step_costs: vec![100; count],
        roads: vec![],
        pois: vec![],
        chests: vec![],
        monsters: vec![],
        required_items: vec![None; 9],
    }
}

fn bare() -> EquipmentLoadout {
    EquipmentLoadout { weapon: None, armor: None, accessory: None, feet: None, toe_rings: None }
}

fn def(id: &str, name: &str, category: ItemCategory, effects: Vec<ItemEffect>) -> ItemDef {
    ItemDef {
        id: id.into(),
        display_name: name.into(),
        description: format!("About {}", name),
        category,
        stackable: false,
        max_stack: 1,
        effects,
    }
}

fn catalog() -> ItemCatalog {
    ItemCatalog {
        items: vec![
            def(
                "sword",
                "Sword",
                ItemCategory::Equipment,
                vec![
                    ItemEffect::StatBonus { stat: StatType::Attack, amount: 3 },
                    ItemEffect::StatBonus { stat: StatType::MaxHp, amount: -2 },
                ],
            ),
            def("potion", "Potion", ItemCategory::Consumable, vec![]),
            def("key", "Key", ItemCategory::KeyItem, vec![]),
        ],
    }
}

fn player(id: &str, location: Option<&str>) -> PlayerRow {
    PlayerRow {
        id: id.into(),
        name: id.into(),
        is_walking: false,
        map_tile_x: None,
        map_tile_y: Some(4),
        gold: 0,
        facing: Facing::Down,
        planned_route: None,
        inventory: vec![],
        equipment: bare(),
        opened_chests: vec![],
        defeated_monsters: vec![],
        champion: None,
        location: location.map(|s| s.to_string()),
        completed_events: vec![],
        item_upgrades: vec![],
        boons: vec![],
        pending_boon_choice: None,
        active_buffs: vec![],
        adventure_id: "".into(),
    }
}

fn entry(id: &str, kind: &str, lines: &[&str]) -> JournalEntry {
    JournalEntry {
        id: id.into(),
        name: format!("N{}", id),
        description: "D".into(),
        kind: kind.into(),
        lines: lines.iter().map(|s| s.to_string()).collect(),
    }
}

#[test]
fn texts_of_the_bar() {
    assert_eq!(gold_text(-3), "Gold: -3");
    assert_eq!(level_text(12), "Lv 12");
    assert_eq!(speed_text("4.5"), "4.5 km/h");
}

#[test]
fn meters_left_on_the_route() {
    let world = WorldGrid::from_seed(map(4, 1));
    let route = vec![(0, 0), (1, 0), (2, 0), (3, 0)];
    let cost = world.get(1, 0).movement_cost();
    assert_eq!(distance_text(&vec![], 0, Some(&world)), Some("No route".to_string()));
    assert_eq!(distance_text(&route, 0, None), None);
    assert_eq!(distance_text(&route, 0, Some(&world)), Some(format!("{}m to target", 3 * cost)));
    assert_eq!(distance_text(&route, 150, Some(&world)), Some(format!("{}m to target", 2 * cost)));
    assert_eq!(distance_text(&route, 9_999, Some(&world)), Some("0m to target".to_string()));
}

#[test]
fn gold_and_levels_float_up() {
    let mut gold = 0;
    assert_eq!(detect_gold_change(&mut gold, 50), None);
    assert_eq!(detect_gold_change(&mut gold, 75), Some("+25 gold".to_string()));
    assert_eq!(detect_gold_change(&mut gold, 10), None);
    assert_eq!(gold, 10);
    let mut level = 1;
    assert_eq!(detect_level_up(&mut level, 1), None);
    assert_eq!(detect_level_up(&mut level, 3), Some("Level 3!".to_string()));
}

#[test]
fn inventory_opens_and_closes() {
    assert!(toggle_inventory(false, true, false, false));
    assert!(toggle_inventory(false, false, true, false));
    assert!(!toggle_inventory(true, true, false, false));
    assert!(!toggle_inventory(false, true, false, true));
}

#[test]
fn rows_of_the_inventory() {
    let mut worn = bare();
    worn.weapon = Some("sword".into());
    worn.armor = Some("unheard of".into());
    let inventory = vec![
        InventorySlot { item_id: "potion".into(), quantity: 3 },
        InventorySlot { item_id: "stone".into(), quantity: 1 },
    ];
    let rows = build_inventory_items(&catalog(), &inventory, &worn);
    let texts: Vec<&str> = rows.iter().map(|r| r.text.as_str()).collect();
    assert_eq!(
        texts,
        vec![
            "-- Equipment --",
            "Weapon: Sword",
            "Armor: (none)",
            "Accessory: (none)",
            "-- Items --",
            "Potion x3",
            "stone",
        ]
    );
    assert_eq!(rows[1].item_id, "sword");
    assert_eq!(rows[2].color, (70, 85, 100));
    assert_eq!(rows[3].color, (40, 40, 40));
    assert_eq!(rows[5].color, (60, 90, 60));
    assert_eq!(rows[6].color, (90, 90, 90));
    let rows = build_inventory_items(&catalog(), &vec![], &worn);
    assert_eq!(rows.len(), 6);
    assert_eq!(rows[5].kind, RowKind::Empty);
    assert_eq!(rows[5].text, "(empty)");
}

#[test]
fn inventory_title_names_the_player() {
    assert_eq!(inventory_title("", "Grum"), "Inventory");
    assert_eq!(inventory_title("Ann", ""), "Ann the adventurer");
    assert_eq!(inventory_title("Ann", "Grum"), "Ann the Grum");
}

#[test]
fn inventory_panel_is_rebuilt_on_change() {
    let bag = vec![InventorySlot { item_id: "a".into(), quantity: 1 }];
    let more = vec![InventorySlot { item_id: "a".into(), quantity: 2 }];
    let worn = bare();
    let mut hat = bare();
    hat.accessory = Some("hat".into());
    assert_eq!(update_inventory(false, true, &bag, &worn, &bag, &worn), PanelAction::Close);
    assert_eq!(update_inventory(true, false, &bag, &worn, &bag, &worn), PanelAction::Build);
    assert_eq!(update_inventory(true, true, &bag, &worn, &bag, &worn), PanelAction::Keep);
    assert_eq!(update_inventory(true, true, &bag, &worn, &more, &worn), PanelAction::Refresh);
    assert_eq!(update_inventory(true, true, &bag, &worn, &bag, &hat), PanelAction::Refresh);
}

#[test]
fn tooltip_of_an_item() {
    let tip = show_item_tooltip(&catalog(), "sword").unwrap();
    assert_eq!(tip.name, "Sword");
    assert_eq!(tip.category, "Equipment");
    assert_eq!(tip.description, "About Sword");
    assert_eq!(tip.effects, Some("+3 ATK  -2 HP".to_string()));
    assert_eq!(show_item_tooltip(&catalog(), "key").unwrap().effects, None);
    assert!(show_item_tooltip(&catalog(), "").is_none());
}

#[test]
fn clicking_an_item() {
    let items = catalog();
    assert_eq!(handle_inventory_click(&items, true, "potion"), Some(ItemAction::Use));
    assert_eq!(handle_inventory_click(&items, true, "sword"), Some(ItemAction::Equip));
    assert_eq!(handle_inventory_click(&items, true, "key"), None);
    assert_eq!(handle_inventory_click(&items, true, ""), None);
    assert_eq!(handle_inventory_click(&items, false, "potion"), None);
    assert_eq!(ItemAction::Use.path(), "/use_item");
    assert_eq!(ItemAction::Equip.path(), "/equip_item");
}

#[test]
fn minimap_shows_only_what_was_seen() {
    let world = WorldGrid::from_seed(map(100, 80));
    let mut fog = FogOfWar::new_sized(100, 80);
    fog.reveal_around(0, 0, 0);
    let bytes = draw_minimap(&world, &fog);
    assert_eq!(bytes.len(), 100 * 80 * 4);
    let (r, g, b) = ground_color(world.get_ground(0, 0));
    assert_eq!(&bytes[0..4], &[r, g, b, 255]);
    assert_eq!(&bytes[40..44], &[12, 12, 20, 255]);
    assert_eq!(ground_color(Ground::Road), (200, 175, 120));
}

#[test]
fn minimap_reads_the_fog_of_a_wide_world() {
    let world = WorldGrid::from_seed(map(200, 160));
    let mut fog = FogOfWar::new_sized(200, 160);
    fog.reveal_around(100, 0, 0);
    fog.reveal_around(3, 1, 0);
    let bytes = draw_minimap(&world, &fog);
    let pixel = |x: usize, y: usize| &bytes[(y * 100 + x) * 4..(y * 100 + x) * 4 + 3];
    assert_eq!(pixel(0, 1), &[12, 12, 20]);
    let (r, g, b) = ground_color(world.get_ground(3, 1));
    assert_eq!(pixel(3, 1), &[r, g, b]);
}

#[test]
fn minimap_is_drawn_when_needed() {
    let mut done = false;
    assert!(regenerate_if_dirty(false, &mut done));
    assert!(!regenerate_if_dirty(false, &mut done));
    assert!(regenerate_if_dirty(true, &mut done));
}

#[test]
fn dots_on_the_minimap() {
    assert_eq!(own_dot_corner(5), 20);
    assert_eq!(other_dot_corner(Some(5)), 21);
    assert_eq!(other_dot_corner(None), 1);
    let players = vec![player("me", None), player("b", None), player("c", Some("cave"))];
    let plan = update_player_dots(&players, "me", &vec!["c".to_string(), "b".to_string()]);
    assert_eq!(plan.remove, vec![true, false]);
    assert_eq!(plan.show, vec![false, true, false]);
    assert_eq!(plan.spawn, vec![false, false, false]);
}

#[test]
fn journal_is_fetched_while_open() {
    assert!(toggle_journal(false, true, false));
    assert!(!toggle_journal(true, false, true));
    assert_eq!(fetch_on_open(false, true, "p"), FetchStep::Reset);
    assert_eq!(fetch_on_open(true, true, ""), FetchStep::Wait);
    assert_eq!(fetch_on_open(true, false, "p"), FetchStep::Wait);
    assert_eq!(fetch_on_open(true, true, "p"), FetchStep::Fetch);
    assert_eq!(journal_path("p"), "/journal?player_id=p");
}

#[test]
fn journal_lists_the_newest_first() {
    let mut count = None;
    let step = update_journal_panel(true, false, &None, &mut count);
    assert!(matches!(step, JournalStep::Rebuild(JournalContent::Loading)));
    let step = update_journal_panel(true, true, &None, &mut count);
    assert!(matches!(step, JournalStep::Keep));
    let step = update_journal_panel(true, true, &Some(vec![]), &mut count);
    assert!(matches!(step, JournalStep::Rebuild(JournalContent::Beginning)));
    let entries = Some(vec![entry("1", "boss", &[]), entry("2", "cave", &[])]);
    match update_journal_panel(true, true, &entries, &mut count) {
        JournalStep::Rebuild(JournalContent::Rows(rows)) => {
            assert_eq!(rows[0].name, "N2");
            assert_eq!(rows[0].tag, "[cave]");
            assert_eq!(rows[1].color, (95, 30, 60));
        }
        _ => panic!("the journal is rebuilt"),
    }
    assert_eq!(count, Some(2));
    assert!(matches!(update_journal_panel(false, true, &entries, &mut count), JournalStep::Close));
    assert_eq!(count, None);
}

#[test]
fn colors_of_kinds() {
    assert_eq!(kind_color("dialogue"), (55, 75, 95));
    assert_eq!(kind_color("treasure"), (95, 80, 35));
    assert_eq!(kind_color("encounter"), (90, 45, 45));
    assert_eq!(kind_color("story"), (70, 90, 70));
    assert_eq!(kind_color("quest"), (85, 75, 35));
    assert_eq!(kind_color("?"), (60, 60, 60));
}

#[test]
fn popup_follows_the_mouse() {
    let entries = Some(vec![entry("1", "story", &["Once", "more"]), entry("2", "cave", &[])]);
    let mut last = None;
    match update_popup(true, &Some("1".to_string()), &entries, &mut last) {
        PopupStep::Replace(Some(popup)) => {
            assert_eq!(popup.name, "N1");
            assert_eq!(popup.lines, vec!["\"Once\"", "\"more\""]);
        }
        _ => panic!("a popup shows"),
    }
    assert!(matches!(
        update_popup(true, &Some("1".to_string()), &entries, &mut last),
        PopupStep::Keep
    ));
    match update_popup(true, &Some("2".to_string()), &entries, &mut last) {
        PopupStep::Replace(Some(popup)) => {
            assert_eq!(popup.lines, vec!["(no recorded dialogue)"]);
        }
        _ => panic!("another popup shows"),
    }
    assert!(matches!(
        update_popup(false, &Some("2".to_string()), &entries, &mut last),
        PopupStep::Replace(None)
    ));
    assert_eq!(last, None);
    assert_eq!(hovered_row(&vec![Hover::Away, Hover::Hovered, Hover::Pressed]), Some(1));
    assert_eq!(hovered_row(&vec![Hover::Away]), None);
}

#[test]
fn boon_chips_have_icons() {
    let icon = |name: &str| NamedImage {
        name: name.into(),
        image: RgbaImage { width: 0, height: 0, pixels: vec![] },
    };
    let icons = vec![icon("sprint"), icon("roadwise")];
    let mut last = Vec::new();
    let boons = vec!["roadwise".to_string(), "unknown".to_string(), "sprint".to_string()];
    let chips = rebuild_chips(&boons, &icons, &mut last).unwrap();
    assert_eq!(chips, vec!["roadwise", "sprint"]);
    assert!(rebuild_chips(&boons, &icons, &mut last).is_none());
    let boon = BoonInfo { id: "sprint".into(), name: "Sprint".into(), description: "Fast".into() };
    assert_eq!(update_tooltip(Some(&boon)), Some("Sprint\nFast".to_string()));
    assert_eq!(update_tooltip(None), None);
}

#[test]
fn boon_picker_shows_what_is_on_offer() {
    let boons = vec![BoonInfo {
        id: "sprint".into(),
        name: "Sprint".into(),
        description: "Fast".into(),
    }];
    let pending = Some(PendingBoonChoice { choices: vec!["sprint".into(), "new".into()] });
    let mut last = None;
    assert!(picker_active(&pending));
    match rebuild_panel(&pending, false, &boons, &mut last) {
        PickerStep::Open(cards) => {
            assert_eq!(cards[0].name, "Sprint");
            assert_eq!(cards[1].boon_id, "new");
            assert_eq!(cards[1].name, "Unknown");
            assert_eq!(cards[1].description, "—");
        }
        _ => panic!("the picker opens"),
    }
    assert!(matches!(rebuild_panel(&pending, true, &boons, &mut last), PickerStep::Keep));
    assert!(matches!(rebuild_panel(&None, true, &boons, &mut last), PickerStep::Close));
    assert!(matches!(rebuild_panel(&None, false, &boons, &mut last), PickerStep::Keep));
    assert_eq!(select_boon_body("p", "sprint"), r#"{"player_id":"p","boon_id":"sprint"}"#);
}
