//! The bar on top of the screen, and the inventory panel.

pub mod boons;
pub mod journal;
pub mod minimap;

use vstd::prelude::*;
use vstd::string::StringExecFns;

use crate::items::{
    category_label, effects_label, effects_text, find_item, item_name, stack_label, stack_text, worn,
    EquipmentLoadout, EquipmentSlot, InventorySlot, ItemCatalog, ItemCategory,
};
use crate::terrain::path::{stops_at, tile_index_from_meters};
use crate::terrain::world::WorldGrid;
use crate::terrain::{terrain_cost, Terrain};
use crate::text::{
    append_decimal, append_signed, decimal_text, option_text, same_option_text, same_text,
    signed_text,
};

verus! {

/// The gold on the bar.
pub fn gold_text(gold: i32) -> (text: String)
    ensures
        text@ == "Gold: "@ + signed_text(gold as int),
{
    let mut text = String::from_str("Gold: ");
    append_signed(&mut text, gold as i64);
    text
}

/// The level on the bar.
pub fn level_text(level: u32) -> (text: String)
    ensures
        text@ == "Lv "@ + decimal_text(level as nat),
{
    let mut text = String::from_str("Lv ");
    append_decimal(&mut text, level as u64);
    text
}

/// The speed on the bar; it comes in decimal notation.
pub fn speed_text(speed: &str) -> (text: String)
    ensures
        text@ == speed@ + " km/h"@,
{
    let mut text = String::from_str(speed);
    text.append(" km/h");
    text
}

/// Meters that a tile of a route counts; one that cannot be walked on counts
/// nothing.
pub open spec fn counted_cost(terrain: Terrain) -> nat {
    if terrain_cost(terrain) == u32::MAX {
        0
    } else {
        terrain_cost(terrain) as nat
    }
}

/// Meters of the tiles of a route from the given one on.
pub open spec fn meters_from(world: WorldGrid, route: Seq<(usize, usize)>, from: int) -> nat
    decreases route.len() - from,
{
    if from < 0 || from >= route.len() {
        0
    } else {
        counted_cost(world.terrain_at(route[from].0 as int, route[from].1 as int)) + meters_from(
            world,
            route,
            from + 1,
        )
    }
}

/// A route of so many tiles can be counted whatever it crosses.
pub const MAX_ROUTE: usize = 4_000_000;

/// The meters from a later tile on are no more.
proof fn lemma_meters_shrink(world: WorldGrid, route: Seq<(usize, usize)>, from: int, later: int)
    requires
        0 <= from <= later,
    ensures
        meters_from(world, route, later) <= meters_from(world, route, from),
    decreases later - from,
{
    if from < later {
        lemma_meters_shrink(world, route, from + 1, later);
    }
}

/// The meters of a route of at most `MAX_ROUTE` tiles are a `u32`.
pub proof fn short_routes_can_be_counted(
    world: WorldGrid,
    route: Seq<(usize, usize)>,
    from: int,
)
    requires
        0 <= from,
        route.len() <= MAX_ROUTE,
    ensures
        meters_from(world, route, from) <= u32::MAX,
{
    lemma_meters_bound(world, route, from);
}

proof fn lemma_meters_bound(world: WorldGrid, route: Seq<(usize, usize)>, from: int)
    requires
        0 <= from,
    ensures
        from <= route.len() ==> meters_from(world, route, from) <= 1050 * (route.len() - from),
        from > route.len() ==> meters_from(world, route, from) == 0,
    decreases route.len() - from,
{
    if from < route.len() {
        lemma_meters_bound(world, route, from + 1);
        crate::terrain::walking_cost_bounds(
            world.terrain_at(route[from].0 as int, route[from].1 as int),
        );
    }
}

fn remaining_meters(world: &WorldGrid, route: &[(usize, usize)], from: usize) -> (meters: u32)
    requires
        world.wf(),
        meters_from(*world, route@, from as int) <= u32::MAX,
    ensures
        meters == meters_from(*world, route@, from as int),
{
    let mut meters: u32 = 0;
    let mut i: usize = route.len();
    if from >= route.len() {
        return 0;
    }
    while i > from
        invariant
            world.wf(),
            from <= i <= route.len(),
            meters_from(*world, route@, from as int) <= u32::MAX,
            meters == meters_from(*world, route@, i as int),
        decreases i,
    {
        i = i - 1;
        let terrain = world.get(route[i].0, route[i].1);
        let cost: u32 = terrain.movement_cost();
        proof {
            lemma_meters_shrink(*world, route@, from as int, i as int);
        }
        meters = meters + if cost == u32::MAX {
            0
        } else {
            cost
        };
    }
    meters
}

/// The walker who is so many meters along the route has that many to go.
pub open spec fn are_meters_left(
    world: WorldGrid,
    route: Seq<(usize, usize)>,
    walked: int,
    left: int,
) -> bool {
    exists|i: int| #[trigger]
        stops_at(world, route, walked, i) && left == meters_from(
            world,
            route,
            (if i < route.len() {
                i
            } else {
                route.len() - 1
            }) + 1,
        )
}

/// The distance on the bar, after so many whole meters of the route. `None`
/// leaves it as it is: the world is not known yet.
pub fn distance_text(
    waypoints: &Vec<(usize, usize)>,
    walked: i64,
    world: Option<&WorldGrid>,
) -> (text: Option<String>)
    requires
        world matches Some(grid) ==> grid.wf() && meters_from(*grid, waypoints@, 1) <= u32::MAX,
    ensures
        text is None <==> waypoints@.len() > 0 && world is None,
        text matches Some(t) ==> if waypoints@.len() == 0 {
            t@ == "No route"@
        } else {
            exists|left: nat| #[trigger]
                are_meters_left(*world->0, waypoints@, walked as int, left as int) && t@
                    == decimal_text(left) + "m to target"@
        },
{
    if waypoints.len() == 0 {
        return Some(String::from_str("No route"));
    }
    match world {
        Some(grid) => {
            let index: usize = tile_index_from_meters(waypoints.as_slice(), walked, grid);
            let ghost stop = choose|i: int| #[trigger]
                stops_at(*grid, waypoints@, walked as int, i) && index == (if i
                    < waypoints@.len() {
                    i
                } else if waypoints@.len() == 0 {
                    0
                } else {
                    waypoints@.len() - 1
                });
            proof {
                lemma_meters_shrink(*grid, waypoints@, 1, index + 1);
            }
            let left: u32 = remaining_meters(grid, waypoints.as_slice(), index + 1);
            let mut text = String::new();
            append_decimal(&mut text, left as u64);
            text.append("m to target");
            proof {
                assert(stops_at(*grid, waypoints@, walked as int, stop));
                assert(are_meters_left(*grid, waypoints@, walked as int, left as nat as int));
                assert(text@ =~= decimal_text(left as nat) + "m to target"@);
            }
            Some(text)
        },
        None => None,
    }
}

/// Text that floats up when gold comes in. Nothing floats up for the first
/// gold that is seen.
pub fn detect_gold_change(last_gold: &mut i32, gold: i32) -> (text: Option<String>)
    ensures
        *final(last_gold) == gold,
        text is Some <==> gold > *old(last_gold) && *old(last_gold) > 0,
        text matches Some(t) ==> t@ == "+"@ + signed_text(gold - *old(last_gold)) + " gold"@,
{
    let last: i32 = *last_gold;
    *last_gold = gold;
    if gold > last && last > 0 {
        let mut text = String::from_str("+");
        append_signed(&mut text, gold as i64 - last as i64);
        text.append(" gold");
        Some(text)
    } else {
        None
    }
}

/// Text that floats up when the player rises a level.
pub fn detect_level_up(last_level: &mut u32, level: u32) -> (text: Option<String>)
    ensures
        *final(last_level) == level,
        text is Some <==> level > *old(last_level) && *old(last_level) > 0,
        text matches Some(t) ==> t@ == "Level "@ + decimal_text(level as nat) + "!"@,
{
    let last: u32 = *last_level;
    *last_level = level;
    if level > last && last > 0 {
        let mut text = String::from_str("Level ");
        append_decimal(&mut text, level as u64);
        text.append("!");
        Some(text)
    } else {
        None
    }
}

/// The inventory is open after those keys and clicks.
pub open spec fn inventory_open(
    open: bool,
    key_i: bool,
    bar_button: bool,
    close_button: bool,
) -> bool {
    (open != bar_button) != key_i && !close_button
}

/// The inventory after a key or a click: the key I and the button on the bar
/// open and close it, the cross closes it.
pub fn toggle_inventory(open: bool, key_i: bool, bar_button: bool, close_button: bool) -> (now: bool)
    ensures
        now == inventory_open(open, key_i, bar_button, close_button),
{
    let mut now: bool = open;
    if bar_button {
        now = !now;
    }
    if key_i {
        now = !now;
    }
    if close_button {
        now = false;
    }
    now
}

/// What a row of the inventory is.
#[derive(Debug, Clone, Copy, PartialEq, Eq, Structural)]
pub enum RowKind {
    Heading,
    Equipment,
    Item,
    Empty,
}

/// A row of the inventory; its color in hundredths of red, green and blue.
#[derive(Debug)]
pub struct InventoryRow {
    pub kind: RowKind,
    pub text: String,
    /// Item that the row stands for; empty for none.
    pub item_id: String,
    pub color: (u8, u8, u8),
}

/// The content of a row.
#[verifier::ext_equal]
pub struct RowContent {
    pub kind: RowKind,
    pub text: Seq<char>,
    pub item_id: Seq<char>,
    pub color: (u8, u8, u8),
}

impl View for InventoryRow {
    type V = RowContent;

    open spec fn view(&self) -> RowContent {
        RowContent {
            kind: self.kind,
            text: self.text@,
            item_id: self.item_id@,
            color: self.color,
        }
    }
}

/// The contents of a list of rows.
pub open spec fn row_contents(rows: Seq<InventoryRow>) -> Seq<RowContent> {
    rows.map_values(|row: InventoryRow| row@)
}

pub open spec fn heading_row(text: Seq<char>) -> RowContent {
    RowContent { kind: RowKind::Heading, text, item_id: Seq::empty(), color: (60, 60, 50) }
}

/// Row of a slot: what is worn there, by the name that the catalog has.
pub open spec fn slot_row(
    label: Seq<char>,
    equipment: EquipmentLoadout,
    slot: EquipmentSlot,
    catalog: ItemCatalog,
) -> RowContent {
    let name = match worn(equipment, slot) {
        Some(id) => match find_item(catalog.items@, id) {
            Some(def) => def.display_name@,
            None => "(none)"@,
        },
        None => "(none)"@,
    };
    RowContent {
        kind: RowKind::Equipment,
        text: label + ": "@ + name,
        item_id: match worn(equipment, slot) {
            Some(id) => id,
            None => Seq::empty(),
        },
        color: if worn(equipment, slot) is Some {
            (70, 85, 100)
        } else {
            (40, 40, 40)
        },
    }
}

/// Color of an item by its category.
pub open spec fn item_color(catalog: ItemCatalog, id: Seq<char>) -> (u8, u8, u8) {
    match find_item(catalog.items@, id) {
        Some(def) => match def.category {
            ItemCategory::Consumable => (60, 90, 60),
            ItemCategory::Equipment => (60, 70, 100),
            ItemCategory::KeyItem => (100, 85, 40),
        },
        None => (90, 90, 90),
    }
}

pub open spec fn item_row(catalog: ItemCatalog, stack: InventorySlot) -> RowContent {
    RowContent {
        kind: RowKind::Item,
        text: stack_text(item_name(catalog, stack.item_id@), stack.quantity),
        item_id: stack.item_id@,
        color: item_color(catalog, stack.item_id@),
    }
}

/// The rows of the items that are carried, or one that says there are none.
pub open spec fn item_rows(catalog: ItemCatalog, inventory: Seq<InventorySlot>) -> Seq<RowContent> {
    if inventory.len() == 0 {
        seq![
            RowContent {
                kind: RowKind::Empty,
                text: "(empty)"@,
                item_id: Seq::empty(),
                color: (50, 50, 50),
            },
        ]
    } else {
        inventory.map_values(|stack: InventorySlot| item_row(catalog, stack))
    }
}

/// All rows of the inventory.
pub open spec fn inventory_rows(
    catalog: ItemCatalog,
    inventory: Seq<InventorySlot>,
    equipment: EquipmentLoadout,
) -> Seq<RowContent> {
    seq![
        heading_row("-- Equipment --"@),
        slot_row("Weapon"@, equipment, EquipmentSlot::Weapon, catalog),
        slot_row("Armor"@, equipment, EquipmentSlot::Armor, catalog),
        slot_row("Accessory"@, equipment, EquipmentSlot::Accessory, catalog),
        heading_row("-- Items --"@),
    ] + item_rows(catalog, inventory)
}

fn build_heading(text: &str) -> (row: InventoryRow)
    ensures
        row@ == heading_row(text@),
{
    InventoryRow {
        kind: RowKind::Heading,
        text: String::from_str(text),
        item_id: String::new(),
        color: (60, 60, 50),
    }
}

fn build_slot(
    label: &str,
    equipment: &EquipmentLoadout,
    slot: EquipmentSlot,
    catalog: &ItemCatalog,
) -> (row: InventoryRow)
    ensures
        row@ == slot_row(label@, *equipment, slot, *catalog),
{
    let mut text = String::from_str(label);
    text.append(": ");
    match equipment.get_slot(slot) {
        Some(id) => {
            match catalog.get(id.as_str()) {
                Some(def) => {
                    text.append(def.display_name.as_str());
                },
                None => {
                    text.append("(none)");
                },
            }
            InventoryRow {
                kind: RowKind::Equipment,
                text,
                item_id: id.clone(),
                color: (70, 85, 100),
            }
        },
        None => {
            text.append("(none)");
            InventoryRow {
                kind: RowKind::Equipment,
                text,
                item_id: String::new(),
                color: (40, 40, 40),
            }
        },
    }
}

fn build_item(catalog: &ItemCatalog, stack: &InventorySlot) -> (row: InventoryRow)
    ensures
        row@ == item_row(*catalog, *stack),
{
    let name = catalog.name_of(stack.item_id.as_str());
    let color: (u8, u8, u8) = match catalog.get(stack.item_id.as_str()) {
        Some(def) => match def.category {
            ItemCategory::Consumable => (60, 90, 60),
            ItemCategory::Equipment => (60, 70, 100),
            ItemCategory::KeyItem => (100, 85, 40),
        },
        None => (90, 90, 90),
    };
    InventoryRow {
        kind: RowKind::Item,
        text: stack_label(name.as_str(), stack.quantity),
        item_id: stack.item_id.clone(),
        color,
    }
}

/// Lists what the player wears and carries.
pub fn build_inventory_items(
    catalog: &ItemCatalog,
    inventory: &Vec<InventorySlot>,
    equipment: &EquipmentLoadout,
) -> (rows: Vec<InventoryRow>)
    ensures
        row_contents(rows@) == inventory_rows(*catalog, inventory@, *equipment),
{
    let mut rows: Vec<InventoryRow> = Vec::new();
    rows.push(build_heading("-- Equipment --"));
    rows.push(build_slot("Weapon", equipment, EquipmentSlot::Weapon, catalog));
    rows.push(build_slot("Armor", equipment, EquipmentSlot::Armor, catalog));
    rows.push(build_slot("Accessory", equipment, EquipmentSlot::Accessory, catalog));
    rows.push(build_heading("-- Items --"));
    let ghost first = row_contents(rows@);
    assert(first =~= seq![
        heading_row("-- Equipment --"@),
        slot_row("Weapon"@, *equipment, EquipmentSlot::Weapon, *catalog),
        slot_row("Armor"@, *equipment, EquipmentSlot::Armor, *catalog),
        slot_row("Accessory"@, *equipment, EquipmentSlot::Accessory, *catalog),
        heading_row("-- Items --"@),
    ]);
    if inventory.len() == 0 {
        let empty = InventoryRow {
            kind: RowKind::Empty,
            text: String::from_str("(empty)"),
            item_id: String::new(),
            color: (50, 50, 50),
        };
        assert(empty@ =~= item_rows(*catalog, inventory@)[0]);
        rows.push(empty);
        assert(row_contents(rows@) =~= first + item_rows(*catalog, inventory@));
        return rows;
    }
    let ghost all = item_rows(*catalog, inventory@);
    let mut i: usize = 0;
    assert(first + all.take(0) =~= first);
    while i < inventory.len()
        invariant
            i <= inventory.len(),
            inventory.len() > 0,
            all == item_rows(*catalog, inventory@),
            row_contents(rows@) == first + all.take(i as int),
        decreases inventory.len() - i,
    {
        let ghost before = row_contents(rows@);
        let row = build_item(catalog, &inventory[i]);
        rows.push(row);
        assert(row_contents(rows@) =~= before.push(row@));
        assert(first + all.take(i + 1) =~= (first + all.take(i as int)).push(all[i as int]));
        i = i + 1;
    }
    assert(all.take(i as int) =~= all);
    rows
}

/// What the title of the inventory says.
pub open spec fn title_text(player_name: Seq<char>, champion: Seq<char>) -> Seq<char> {
    if player_name.len() == 0 {
        "Inventory"@
    } else if champion.len() == 0 {
        player_name + " the "@ + "adventurer"@
    } else {
        player_name + " the "@ + champion
    }
}

/// Title of the inventory: who the player is.
pub fn inventory_title(player_name: &str, champion: &str) -> (title: String)
    ensures
        title@ == title_text(player_name@, champion@),
{
    if player_name.is_empty() {
        return String::from_str("Inventory");
    }
    let mut title = String::from_str(player_name);
    title.append(" the ");
    title.append(
        if champion.is_empty() {
            "adventurer"
        } else {
            champion
        },
    );
    title
}

/// The stacks are of the same items in the same numbers.
pub open spec fn same_stacks(a: Seq<InventorySlot>, b: Seq<InventorySlot>) -> bool {
    &&& a.len() == b.len()
    &&& forall|i: int| #![trigger a[i]]
        0 <= i < a.len() ==> a[i].item_id@ == b[i].item_id@ && a[i].quantity == b[i].quantity
}

/// The same items are worn.
pub open spec fn same_equipment(a: EquipmentLoadout, b: EquipmentLoadout) -> bool {
    &&& option_text(a.weapon) == option_text(b.weapon)
    &&& option_text(a.armor) == option_text(b.armor)
    &&& option_text(a.accessory) == option_text(b.accessory)
    &&& option_text(a.feet) == option_text(b.feet)
    &&& option_text(a.toe_rings) == option_text(b.toe_rings)
}

fn stacks_equal(a: &Vec<InventorySlot>, b: &Vec<InventorySlot>) -> (same: bool)
    ensures
        same == same_stacks(a@, b@),
{
    if a.len() != b.len() {
        return false;
    }
    let mut i: usize = 0;
    while i < a.len()
        invariant
            i <= a.len(),
            a.len() == b.len(),
            forall|j: int| #![trigger a@[j]]
                0 <= j < i ==> a@[j].item_id@ == b@[j].item_id@ && a@[j].quantity == b@[j].quantity,
        decreases a.len() - i,
    {
        if a[i].quantity != b[i].quantity || !same_text(
            a[i].item_id.as_str(),
            b[i].item_id.as_str(),
        ) {
            assert(!(a@[i as int].item_id@ == b@[i as int].item_id@ && a@[i as int].quantity
                == b@[i as int].quantity));
            return false;
        }
        i = i + 1;
    }
    true
}

/// What to do about the inventory panel.
#[derive(Debug, Clone, Copy, PartialEq, Eq, Structural)]
pub enum PanelAction {
    Close,
    Build,
    Refresh,
    Keep,
}

/// What is due for the inventory panel.
pub open spec fn panel_action(open: bool, has_panel: bool, unchanged: bool) -> PanelAction {
    if !open {
        PanelAction::Close
    } else if !has_panel {
        PanelAction::Build
    } else if unchanged {
        PanelAction::Keep
    } else {
        PanelAction::Refresh
    }
}

/// What to do about the inventory panel: it is only built anew when what it
/// shows has changed.
pub fn update_inventory(
    open: bool,
    has_panel: bool,
    shown_inventory: &Vec<InventorySlot>,
    shown_equipment: &EquipmentLoadout,
    inventory: &Vec<InventorySlot>,
    equipment: &EquipmentLoadout,
) -> (action: PanelAction)
    ensures
        action == panel_action(
            open,
            has_panel,
            same_stacks(shown_inventory@, inventory@) && same_equipment(
                *shown_equipment,
                *equipment,
            ),
        ),
{
    if !open {
        return PanelAction::Close;
    }
    if !has_panel {
        return PanelAction::Build;
    }
    let same_worn: bool = same_option_text(&shown_equipment.weapon, &equipment.weapon)
        && same_option_text(&shown_equipment.armor, &equipment.armor) && same_option_text(
        &shown_equipment.accessory,
        &equipment.accessory,
    ) && same_option_text(&shown_equipment.feet, &equipment.feet) && same_option_text(
        &shown_equipment.toe_rings,
        &equipment.toe_rings,
    );
    if same_worn && stacks_equal(shown_inventory, inventory) {
        PanelAction::Keep
    } else {
        PanelAction::Refresh
    }
}

/// What the tooltip of an item says.
#[derive(Debug)]
pub struct Tooltip {
    pub name: String,
    pub category: &'static str,
    pub description: String,
    /// All effects on one line; `None` without effects.
    pub effects: Option<String>,
}

/// What the tooltip calls a category.
pub open spec fn category_text(category: ItemCategory) -> Seq<char> {
    match category {
        ItemCategory::Consumable => "Consumable"@,
        ItemCategory::Equipment => "Equipment"@,
        ItemCategory::KeyItem => "Key Item"@,
    }
}

/// The tooltip of an item; `None` for an item that the catalog does not know.
pub fn show_item_tooltip(catalog: &ItemCatalog, item_id: &str) -> (tooltip: Option<Tooltip>)
    ensures
        match find_item(catalog.items@, item_id@) {
            Some(def) => {
                &&& tooltip is Some
                &&& tooltip->0.name@ == def.display_name@
                &&& tooltip->0.category@ == category_text(def.category)
                &&& tooltip->0.description@ == def.description@
                &&& option_text(tooltip->0.effects) == (if def.effects@.len() > 0 {
                    Some(effects_text(def.effects@, def.effects@.len() as int))
                } else {
                    None
                })
            },
            None => tooltip is None,
        },
{
    match catalog.get(item_id) {
        Some(def) => {
            let effects: Option<String> = if def.effects.len() > 0 {
                Some(effects_label(&def.effects))
            } else {
                None
            };
            Some(
                Tooltip {
                    name: def.display_name.clone(),
                    category: category_label(def.category),
                    description: def.description.clone(),
                    effects,
                },
            )
        },
        None => None,
    }
}

/// What a click on an item asks the server for.
#[derive(Debug, Clone, Copy, PartialEq, Eq, Structural)]
pub enum ItemAction {
    Use,
    Equip,
}

/// What a click on an item does.
pub open spec fn click_action(catalog: ItemCatalog, open: bool, item_id: Seq<char>) -> Option<
    ItemAction,
> {
    if !open || item_id.len() == 0 {
        None
    } else {
        match find_item(catalog.items@, item_id) {
            Some(def) => match def.category {
                ItemCategory::Consumable => Some(ItemAction::Use),
                ItemCategory::Equipment => Some(ItemAction::Equip),
                ItemCategory::KeyItem => None,
            },
            None => None,
        }
    }
}

/// What a click on a row of the open inventory asks for: consumables are used
/// and equipment is put on; key items and empty slots do nothing.
pub fn handle_inventory_click(catalog: &ItemCatalog, open: bool, item_id: &str) -> (action: Option<
    ItemAction,
>)
    ensures
        action == click_action(*catalog, open, item_id@),
{
    if !open || item_id.is_empty() {
        return None;
    }
    match catalog.get(item_id) {
        Some(def) => match def.category {
            ItemCategory::Consumable => Some(ItemAction::Use),
            ItemCategory::Equipment => Some(ItemAction::Equip),
            ItemCategory::KeyItem => None,
        },
        None => None,
    }
}

impl ItemAction {
    /// Path that the action is posted to.
    pub fn path(self) -> (path: &'static str)
        ensures
            path@ == (match self {
                ItemAction::Use => "/use_item"@,
                ItemAction::Equip => "/equip_item"@,
            }),
    {
        match self {
            ItemAction::Use => "/use_item",
            ItemAction::Equip => "/equip_item",
        }
    }
}

/// The key and the button on the bar each flip the inventory, so that both at
/// once leave it; the cross closes it whatever else was pressed.
pub proof fn inventory_opens_and_closes(open: bool)
    ensures
        inventory_open(open, true, false, false) == !open,
        inventory_open(open, false, true, false) == !open,
        inventory_open(open, true, true, false) == open,
        inventory_open(open, false, false, false) == open,
        forall|key: bool, bar: bool| !#[trigger] inventory_open(open, key, bar, true),
{
}

/// What a tile that can be walked on counts is what walking on it takes, and
/// no tile counts without end.
pub proof fn tiles_count_what_they_take(terrain: Terrain)
    ensures
        terrain_cost(terrain) < u32::MAX ==> counted_cost(terrain) == terrain_cost(terrain),
        terrain_cost(terrain) == u32::MAX ==> counted_cost(terrain) == 0,
{
}

/// One more tile at the end of a route adds what it counts, wherever on the
/// route the walker is.
pub proof fn meters_add_up(
    world: WorldGrid,
    route: Seq<(usize, usize)>,
    tile: (usize, usize),
    from: int,
)
    requires
        0 <= from <= route.len(),
    ensures
        meters_from(world, route.push(tile), from) == meters_from(world, route, from)
            + counted_cost(world.terrain_at(tile.0 as int, tile.1 as int)),
        meters_from(world, route, route.len() as int) == 0,
    decreases route.len() - from,
{
    if from < route.len() {
        assert(route.push(tile)[from] == route[from]);
        meters_add_up(world, route, tile, from + 1);
    } else {
        assert(route.push(tile)[from] == tile);
        assert(meters_from(world, route.push(tile), from + 1) == 0);
    }
}

/// The tile that a walker stands on is no longer to go: from the last tile on
/// nothing is left, and before it all that follows the walker's tile.
pub proof fn what_is_left_to_go(
    world: WorldGrid,
    route: Seq<(usize, usize)>,
    walked: int,
    i: int,
)
    requires
        stops_at(world, route, walked, i),
        route.len() > 0,
    ensures
        i >= route.len() - 1 ==> are_meters_left(world, route, walked, 0),
        i < route.len() ==> are_meters_left(
            world,
            route,
            walked,
            meters_from(world, route, i + 1) as int,
        ),
{
}

/// The rows are two headings, three slots and the stacks in their order, or
/// one row that says there are none.
pub proof fn rows_of_the_inventory(
    catalog: ItemCatalog,
    inventory: Seq<InventorySlot>,
    equipment: EquipmentLoadout,
    i: int,
)
    ensures
        ({
            let rows = inventory_rows(catalog, inventory, equipment);
            &&& inventory.len() > 0 ==> rows.len() == 5 + inventory.len()
            &&& inventory.len() == 0 ==> rows.len() == 6 && rows[5].kind == RowKind::Empty
                && rows[5].item_id.len() == 0
            &&& rows[0].kind == RowKind::Heading && rows[4].kind == RowKind::Heading
            &&& rows[1].kind == RowKind::Equipment && rows[2].kind == RowKind::Equipment
                && rows[3].kind == RowKind::Equipment
            &&& equipment.weapon matches Some(id) ==> rows[1].item_id == id@
            &&& equipment.armor matches Some(id) ==> rows[2].item_id == id@
            &&& equipment.accessory matches Some(id) ==> rows[3].item_id == id@
            &&& equipment.weapon is None ==> rows[1].item_id.len() == 0
            &&& equipment.armor is None ==> rows[2].item_id.len() == 0
            &&& equipment.accessory is None ==> rows[3].item_id.len() == 0
            &&& 0 <= i < inventory.len() ==> rows[5 + i].kind == RowKind::Item && rows[5
                + i].item_id == inventory[i].item_id@ && rows[5 + i].text == stack_text(
                item_name(catalog, inventory[i].item_id@),
                inventory[i].quantity,
            )
        }),
{
}

/// A slot names what is worn in it; what the catalog does not know, and an
/// empty slot, read the same, in different colors.
pub proof fn slots_name_what_is_worn(
    label: Seq<char>,
    equipment: EquipmentLoadout,
    slot: EquipmentSlot,
    catalog: ItemCatalog,
)
    ensures
        ({
            let row = slot_row(label, equipment, slot, catalog);
            &&& worn(equipment, slot) is None ==> row.text == label + ": "@ + "(none)"@ && row.color
                == (40u8, 40u8, 40u8)
            &&& worn(equipment, slot) matches Some(id) ==> row.color == (70u8, 85u8, 100u8) && (
            find_item(catalog.items@, id) matches Some(def) ==> row.text == label + ": "@
                + def.display_name@)
            &&& worn(equipment, slot) matches Some(id) ==> (find_item(catalog.items@, id) is None
                ==> row.text == label + ": "@ + "(none)"@)
        }),
{
}

/// Consumables are green, equipment is blue, key items are golden, and what is
/// not known is gray.
pub proof fn colors_of_the_items(catalog: ItemCatalog, id: Seq<char>)
    ensures
        ({
            let (red, green, blue) = item_color(catalog, id);
            match find_item(catalog.items@, id) {
                Some(def) => {
                    &&& def.category == ItemCategory::Consumable ==> green == 90 && red == 60
                        && blue == 60
                    &&& def.category == ItemCategory::Equipment ==> blue == 100 && green == 70
                        && red == 60
                    &&& def.category == ItemCategory::KeyItem ==> red == 100 && green == 85 && blue
                        == 40
                },
                None => red == 90 && green == 90 && blue == 90,
            }
        }),
{
}

/// The title names the player as soon as they are known.
pub proof fn titles_name_the_player(player_name: Seq<char>, champion: Seq<char>)
    ensures
        player_name.len() == 0 ==> title_text(player_name, champion) == "Inventory"@,
        player_name.len() > 0 && champion.len() > 0 ==> title_text(player_name, champion)
            == player_name + " the "@ + champion,
        player_name.len() > 0 && champion.len() == 0 ==> title_text(player_name, champion)
            == title_text(player_name, "adventurer"@),
{
    reveal_strlit("adventurer");
}

/// The panel shows what is carried and worn now: any change of an item, of its
/// number, of the order or of what is worn is a change.
pub proof fn any_change_is_shown(
    shown: Seq<InventorySlot>,
    now: Seq<InventorySlot>,
    a: EquipmentLoadout,
    b: EquipmentLoadout,
    i: int,
)
    ensures
        shown.len() != now.len() ==> !same_stacks(shown, now),
        0 <= i < shown.len() && i < now.len() && (shown[i].item_id@ != now[i].item_id@
            || shown[i].quantity != now[i].quantity) ==> !same_stacks(shown, now),
        shown == now ==> same_stacks(shown, now),
        forall|slot: EquipmentSlot| worn(a, slot) != #[trigger] worn(b, slot) ==> !same_equipment(
            a,
            b,
        ),
        a == b ==> same_equipment(a, b),
{
}

/// A closed inventory has no panel, an open one has one, and one that is there
/// is only drawn anew when something has changed.
pub proof fn panels_follow_the_inventory(has_panel: bool, unchanged: bool)
    ensures
        panel_action(false, has_panel, unchanged) == PanelAction::Close,
        panel_action(true, false, unchanged) == PanelAction::Build,
        panel_action(true, true, true) == PanelAction::Keep,
        panel_action(true, true, false) == PanelAction::Refresh,
{
}

/// A click uses a consumable and puts equipment on. Nothing else can be
/// clicked, and nothing in a closed inventory.
pub proof fn what_clicks_on_items_do(catalog: ItemCatalog, open: bool, id: Seq<char>)
    ensures
        click_action(catalog, false, id) is None,
        id.len() == 0 ==> click_action(catalog, open, id) is None,
        find_item(catalog.items@, id) is None ==> click_action(catalog, open, id) is None,
        id.len() > 0 ==> match find_item(catalog.items@, id) {
            Some(def) => {
                &&& def.category == ItemCategory::Consumable <==> click_action(catalog, true, id)
                    == Some(ItemAction::Use)
                &&& def.category == ItemCategory::Equipment <==> click_action(catalog, true, id)
                    == Some(ItemAction::Equip)
                &&& def.category == ItemCategory::KeyItem <==> click_action(catalog, true, id)
                    is None
            },
            None => true,
        },
{
}

/// The tooltip's name of each category.
pub proof fn names_of_the_categories(category: ItemCategory)
    ensures
        category == ItemCategory::Consumable ==> category_text(category) == "Consumable"@,
        category == ItemCategory::Equipment ==> category_text(category) == "Equipment"@,
        category == ItemCategory::KeyItem ==> category_text(category) == "Key Item"@,
{
}

/// The texts and colors of the rows that are always there.
pub proof fn fixed_rows_of_the_inventory(
    catalog: ItemCatalog,
    inventory: Seq<InventorySlot>,
    equipment: EquipmentLoadout,
    i: int,
)
    ensures
        ({
            let rows = inventory_rows(catalog, inventory, equipment);
            &&& rows[0].text == "-- Equipment --"@ && rows[4].text == "-- Items --"@
            &&& rows[0].color == (60u8, 60u8, 50u8) && rows[4].color == rows[0].color
            &&& rows[0].item_id.len() == 0 && rows[4].item_id.len() == 0
            &&& rows[1] == slot_row("Weapon"@, equipment, EquipmentSlot::Weapon, catalog)
            &&& rows[2] == slot_row("Armor"@, equipment, EquipmentSlot::Armor, catalog)
            &&& rows[3] == slot_row("Accessory"@, equipment, EquipmentSlot::Accessory, catalog)
            &&& inventory.len() == 0 ==> rows[5].text == "(empty)"@ && rows[5].color == (
                50u8,
                50u8,
                50u8,
            )
            &&& 0 <= i < inventory.len() ==> rows[5 + i].color == item_color(
                catalog,
                inventory[i].item_id@,
            )
        }),
{
}

/// Rows keep their kind, their text, their item and their color.
pub proof fn contents_of_the_rows(rows: Seq<InventoryRow>, i: int)
    requires
        0 <= i < rows.len(),
    ensures
        row_contents(rows).len() == rows.len(),
        row_contents(rows)[i].kind == rows[i].kind,
        row_contents(rows)[i].text == rows[i].text@,
        row_contents(rows)[i].item_id == rows[i].item_id@,
        row_contents(rows)[i].color == rows[i].color,
{
}

} // verus!
